//! Decoder for the references of DEX structures.

use vstd::prelude::*;
use crate::dex::error::DexError;
use crate::dex::models::{RustReferencePool, RustReferencePoolView};

verus! {

/// Decoder for extracting references from DEX structures. It finds no
/// references yet: every pool it returns is empty.
pub struct DexDecoder;

impl DexDecoder {
    /// Create a new DexDecoder.
    pub fn new() -> DexDecoder {
        DexDecoder
    }

    /// Decode references from DEX file.
    pub fn decode_dex_references(&self, _dex_data: &[u8]) -> (r: Result<RustReferencePool, DexError>)
        ensures
            r matches Ok(pool) && pool@ == RustReferencePoolView::empty(),
    {
        Ok(RustReferencePool::new())
    }

    /// Decode references from class.
    pub fn decode_class_references(&self, _class_data: &[u8]) -> (r: Result<
        RustReferencePool,
        DexError,
    >)
        ensures
            r matches Ok(pool) && pool@ == RustReferencePoolView::empty(),
    {
        Ok(RustReferencePool::new())
    }

    /// Decode references from method.
    pub fn decode_method_references(&self, _method_data: &[u8]) -> (r: Result<
        RustReferencePool,
        DexError,
    >)
        ensures
            r matches Ok(pool) && pool@ == RustReferencePoolView::empty(),
    {
        Ok(RustReferencePool::new())
    }
}

impl Default for DexDecoder {
    fn default() -> DexDecoder {
        DexDecoder::new()
    }
}

} // verus!
