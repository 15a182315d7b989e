//! DEX file format constants.

pub mod access_flags;
pub mod dex_magic;
pub mod map_item;
pub mod structure;
pub mod type_descriptors;

pub use map_item::MapItemType;
