//! Trusted wrappers around the DEFLATE primitives of the `flate2` crate.
//!
//! The compressed image of a payload is named rather than described: it is
//! a deterministic function of the bytes alone, pinned to the payload by
//! the round-trip clauses of the encoder wrappers.

use vstd::prelude::*;
use std::io::{Read, Write};
use crate::error::DecodeError;

verus! {

/// What decoding the DEFLATE stream at the start of a byte sequence
/// yields: its decompressed payload, or nothing when the stream is
/// malformed or truncated.
pub uninterp spec fn inflate_of(src: Seq<u8>) -> Option<Seq<u8>>;

/// What the DEFLATE encoder at the default level produces for a payload.
pub uninterp spec fn deflate_of(data: Seq<u8>) -> Seq<u8>;

/// What the CRC-32 checksum of a byte sequence is.
pub uninterp spec fn crc32_of(data: Seq<u8>) -> u32;

/// Relies on flate2's `write::DeflateEncoder` at the default compression
/// level: the stream it produces is a function of the payload alone, and
/// decoding that stream gives the payload back. The encoder fails only
/// when its sink fails, and a byte vector sink cannot, so encoding
/// succeeds.
#[verifier::external_body]
pub(crate) fn deflate_compress(data: &[u8]) -> (r: Result<Vec<u8>, DecodeError>)
    ensures
        r is Ok,
        r matches Ok(v) ==> v@ == deflate_of(data@) && inflate_of(v@) == Some(data@),
{
    let mut encoder = flate2::write::DeflateEncoder::new(
        Vec::new(),
        flate2::Compression::default(),
    );

    if encoder.write_all(data).is_err() {
        return Err(DecodeError::InvalidData);
    }

    encoder.finish().map_err(|_| DecodeError::InvalidData)
}

/// Relies on flate2's `read::DeflateDecoder`: `read_to_end` decodes the
/// DEFLATE stream at the start of `src` deterministically, failing exactly
/// when that stream is malformed or truncated.
#[verifier::external_body]
pub(crate) fn inflate(src: &[u8]) -> (r: Result<Vec<u8>, DecodeError>)
    ensures
        r matches Ok(v) ==> inflate_of(src@) == Some(v@),
        r is Err ==> inflate_of(src@) is None,
{
    let mut decoder = flate2::read::DeflateDecoder::new(src);
    let mut out = Vec::new();

    match decoder.read_to_end(&mut out) {
        Ok(_) => Ok(out),
        Err(_) => Err(DecodeError::InvalidData),
    }
}

/// Relies on flate2's `Crc`: the CRC-32 checksum of the bytes fed to it,
/// a pure function of those bytes.
#[verifier::external_body]
pub(crate) fn crc32(data: &[u8]) -> (r: u32)
    ensures
        r == crc32_of(data@),
{
    let mut crc = flate2::Crc::new();
    crc.update(data);
    crc.sum()
}

} // verus!
