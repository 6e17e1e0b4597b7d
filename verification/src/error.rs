//! Errors produced while parsing an EMF byte stream.

use vstd::prelude::*;

verus! {

/// Errors produced while parsing an EMF byte stream.
#[derive(Debug, Clone, PartialEq, Eq)]
pub enum EmfError {
    /// Not an EMF file (bad signature or first record).
    NotEmf,
    /// Truncated or out-of-bounds data; the text names the field.
    Truncated(&'static str),
    /// A record whose size is below 8 or not a multiple of 4.
    BadRecordSize { itype: u32, nsize: usize },
    /// A structurally inconsistent record; the text names the problem.
    Malformed(&'static str),
}

/// The error every fixed-width field read reports when it runs past the end
/// of a record payload.
pub open spec fn field_err() -> EmfError {
    EmfError::Truncated("record field out of bounds")
}

} // verus!
