//! Sizes and marker values of the DEX file layout.

use vstd::prelude::*;

verus! {

/// Size of the header in bytes.
pub const HEADER_SIZE: u32 = 0x70;

/// Endian tag of a little-endian image.
pub const ENDIAN_CONSTANT: u32 = 0x12345678;

/// Endian tag of a byte-swapped image.
pub const REVERSE_ENDIAN_CONSTANT: u32 = 0x78563412;

/// Marks an absent index, such as the superclass of a root class.
pub const NO_INDEX: u32 = 0xFFFFFFFF;

pub const STRING_ID_SIZE: usize = 4;

pub const TYPE_ID_SIZE: usize = 4;

pub const PROTO_ID_SIZE: usize = 12;

pub const FIELD_ID_SIZE: usize = 8;

pub const METHOD_ID_SIZE: usize = 8;

pub const CLASS_DEF_SIZE: usize = 32;

} // verus!
