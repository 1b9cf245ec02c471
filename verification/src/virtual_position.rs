//! Virtual-position arithmetic for block-compressed streams.
//!
//! A virtual position packs the absolute compressed byte offset of a block
//! (upper 48 bits) together with an offset into that block's uncompressed
//! payload (lower 16 bits).

use vstd::prelude::*;

verus! {

/// The compressed byte offset held in the upper 48 bits of a virtual position.
pub open spec fn spec_compressed_offset(vp: u64) -> u64 {
    (vp >> 16) & 0xffff_ffff_ffff
}

/// The intra-block uncompressed offset held in the lower 16 bits.
pub open spec fn spec_uncompressed_offset(vp: u64) -> u64 {
    vp & 0xffff
}

/// The virtual position composed of a compressed offset and an
/// uncompressed offset.
pub open spec fn spec_make(c_offset: u64, u_offset: u64) -> u64 {
    (c_offset << 16) | (u_offset & 0xffff)
}

/// Extracts the compressed byte offset of the block a virtual position
/// addresses.
pub fn compressed_offset(offset: u64) -> (c: u64)
    ensures
        c == spec_compressed_offset(offset),
        c < 0x1_0000_0000_0000u64,
{
    proof {
        assert((offset >> 16) & 0xffff_ffff_ffff < 0x1_0000_0000_0000u64) by (bit_vector);
    }
    (offset >> 16) & 0xffff_ffff_ffff
}

/// Extracts the offset into the block's uncompressed payload.
pub fn uncompressed_offset(offset: u64) -> (u: u64)
    ensures
        u == spec_uncompressed_offset(offset),
        u < 0x1_0000u64,
{
    proof {
        assert(offset & 0xffff < 0x1_0000u64) by (bit_vector);
    }
    offset & 0xffff
}

/// Composes a compressed offset and an intra-block uncompressed offset into
/// a virtual position.
pub fn make(c_offset: u64, u_offset: u64) -> (vp: u64)
    requires
        c_offset < 0x1_0000_0000_0000u64,
        u_offset < 0x1_0000u64,
    ensures
        vp == spec_make(c_offset, u_offset),
        spec_compressed_offset(vp) == c_offset,
        spec_uncompressed_offset(vp) == u_offset,
{
    proof {
        let c = c_offset;
        let u = u_offset;
        assert(c < 0x1_0000_0000_0000u64 && u < 0x1_0000u64 ==> {
            let vp = (c << 16) | (u & 0xffff);
            &&& (vp >> 16) & 0xffff_ffff_ffff == c
            &&& vp & 0xffff == u
        }) by (bit_vector);
    }
    (c_offset << 16) | (u_offset & 0xffff)
}

/// Splitting a virtual position into its two offsets and composing them
/// again gives back the same virtual position, for every 64-bit value.
pub proof fn lemma_virtual_position_round_trip(vp: u64)
    ensures
        spec_make(spec_compressed_offset(vp), spec_uncompressed_offset(vp)) == vp,
{
    assert((((vp >> 16) & 0xffff_ffff_ffff) << 16) | ((vp & 0xffff) & 0xffff) == vp)
        by (bit_vector);
}

} // verus!
