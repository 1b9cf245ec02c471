//! Error kinds shared by the decoders.

use vstd::prelude::*;

verus! {

/// The cause of a decode failure.
///
/// `UnexpectedEof` marks a stream that ended in the middle of a structure
/// (mid-payload, mid-trailer, mid-record); `InvalidData` marks a structural
/// malformation or a failed decompression.
#[derive(Clone, Copy, Debug, PartialEq, Eq, Structural)]
pub enum DecodeError {
    UnexpectedEof,
    InvalidData,
}

impl DecodeError {
    /// A human-readable description of the failure.
    pub fn message(&self) -> (r: &'static str)
        ensures
            *self is UnexpectedEof ==> r@ == "unexpected end of stream"@,
            *self is InvalidData ==> r@ == "invalid data"@,
    {
        match self {
            DecodeError::UnexpectedEof => "unexpected end of stream",
            DecodeError::InvalidData => "invalid data",
        }
    }
}

} // verus!
