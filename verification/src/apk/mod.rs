//! APK level data: archive entries, the manifest and the resource table.

pub mod document;
pub mod error;
pub mod extractor;
pub mod manifest;
pub mod resources;

pub use error::ApkError;
pub use extractor::{ApkExtractor, DexEntry};
pub use manifest::{ActivityIntentFilter, IntentFilterData, RustManifestInfo};
pub use resources::{PyResolvedResource, PyResourceResolver};
