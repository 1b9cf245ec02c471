//! The gzip codec used for CRAM block compression, as trusted wrappers
//! around the `flate2` crate.

use vstd::prelude::*;
use std::io::{Read, Write};
use crate::error::DecodeError;

verus! {

/// What the gzip encoder at the default level produces for a payload. The
/// member it writes carries a fixed header (zero timestamp, operating
/// system byte 255), so the image is a function of the payload alone.
pub uninterp spec fn gzip_of(data: Seq<u8>) -> Seq<u8>;

/// What decoding the gzip member at the start of a byte sequence yields:
/// its decompressed payload, or nothing when the member is malformed or
/// truncated.
pub uninterp spec fn gunzip_of(src: Seq<u8>) -> Option<Seq<u8>>;

/// Relies on flate2's `write::GzEncoder` at the default compression
/// level: the member it produces is a function of the payload alone, and
/// decoding that member gives the payload back. The encoder fails only
/// when its sink fails, and a byte vector sink cannot, so encoding
/// succeeds.
#[verifier::external_body]
pub fn encode(src: &[u8]) -> (r: Result<Vec<u8>, DecodeError>)
    ensures
        r is Ok,
        r matches Ok(v) ==> v@ == gzip_of(src@) && gunzip_of(v@) == Some(src@),
{
    let mut encoder = flate2::write::GzEncoder::new(Vec::new(), flate2::Compression::default());

    if encoder.write_all(src).is_err() {
        return Err(DecodeError::InvalidData);
    }

    encoder.finish().map_err(|_| DecodeError::InvalidData)
}

/// Relies on flate2's `bufread::GzDecoder`: `read_exact` fills `dst` from
/// the front of the decompressed stream, failing when the member is
/// malformed or holds fewer bytes than `dst` asks for. A well-formed
/// member whose payload covers `dst` always fills it.
#[verifier::external_body]
pub fn decode(src: &[u8], dst: &mut Vec<u8>) -> (r: Result<(), DecodeError>)
    ensures
        final(dst)@.len() == old(dst)@.len(),
        r is Ok ==> (gunzip_of(src@) matches Some(u) && u.len() >= old(dst)@.len()
            && final(dst)@ == u.take(old(dst)@.len() as int)),
        (gunzip_of(src@) matches Some(u) && u.len() >= old(dst)@.len()) ==> r is Ok,
{
    let mut decoder = flate2::bufread::GzDecoder::new(src);

    match decoder.read_exact(dst.as_mut_slice()) {
        Ok(()) => Ok(()),
        Err(e) => {
            if e.kind() == std::io::ErrorKind::UnexpectedEof {
                Err(DecodeError::UnexpectedEof)
            } else {
                Err(DecodeError::InvalidData)
            }
        },
    }
}

} // verus!
