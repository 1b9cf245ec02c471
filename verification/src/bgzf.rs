//! The BGZF block codec: a self-synchronizing stream of independently
//! deflated blocks, each framed by a fixed 18-byte gzip header whose extra
//! field pins the total on-disk block size, and addressed by virtual
//! positions.

use vstd::prelude::*;
use crate::error::DecodeError;
use crate::flate::{crc32, crc32_of, deflate_compress, deflate_of, inflate, inflate_of};
use crate::virtual_position::{
    compressed_offset, spec_compressed_offset, spec_uncompressed_offset, uncompressed_offset,
};

verus! {

/// The size of the fixed gzip header that frames every block.
pub const BGZF_HEADER_SIZE: usize = 18;

/// The size of the gzip trailer (CRC-32 and uncompressed size) that closes
/// every block.
pub const GZIP_TRAILER_SIZE: usize = 8;

/// The largest uncompressed payload a block may carry.
pub const MAX_UNCOMPRESSED_SIZE: usize = 65536;

/// The largest compressed payload that still fits the 16-bit size field
/// together with the header and the trailer.
pub const MAX_COMPRESSED_SIZE: usize = 65510;

/// The little-endian 16-bit value at offset `i`.
pub open spec fn spec_le16(s: Seq<u8>, i: int) -> int {
    s[i] + 256 * s[i + 1]
}

/// The little-endian byte image of a 32-bit value.
pub open spec fn spec_le32_bytes(v: int) -> Seq<u8> {
    seq![
        (v % 256) as u8,
        (v / 256 % 256) as u8,
        (v / 65536 % 256) as u8,
        (v / 16777216 % 256) as u8,
    ]
}

/// The outcome of decoding the block at byte offset `p` of stream `s`.
pub enum BlockOutcome {
    /// Fewer than 18 bytes remain: a clean end of stream.
    Eof,
    /// The block is malformed, truncated, or overlong.
    Fail(DecodeError),
    /// A block decodes to `payload`; the next block starts at `next`.
    Decoded { payload: Seq<u8>, next: int },
}

/// What decoding one block at offset `p` of stream `s` yields: the size
/// field (stored as "total block size minus one") is read little-endian
/// from the header's extra subfield, the compressed payload between header
/// and trailer is inflated, and the trailer is consumed without
/// validation.
pub open spec fn spec_read_block(s: Seq<u8>, p: int) -> BlockOutcome {
    if p + 18 > s.len() {
        BlockOutcome::Eof
    } else {
        let bsize = spec_le16(s, p + 16);
        if bsize < 25 {
            BlockOutcome::Fail(DecodeError::InvalidData)
        } else {
            let cdata_len = bsize + 1 - 26;
            if p + 26 + cdata_len > s.len() {
                BlockOutcome::Fail(DecodeError::UnexpectedEof)
            } else {
                match inflate_of(s.subrange(p + 18, p + 18 + cdata_len)) {
                    Some(u) => if u.len() <= MAX_UNCOMPRESSED_SIZE {
                        BlockOutcome::Decoded { payload: u, next: p + 26 + cdata_len }
                    } else {
                        BlockOutcome::Fail(DecodeError::InvalidData)
                    },
                    None => BlockOutcome::Fail(DecodeError::InvalidData),
                }
            }
        }
    }
}

/// A decoded block: its uncompressed payload, the compressed offset it
/// was read from, and a cursor into the payload.
#[derive(Debug)]
pub struct Block {
    data: Vec<u8>,
    c_offset: u64,
    position: u64,
}

impl Block {
    /// The uncompressed payload.
    pub closed spec fn spec_data(&self) -> Seq<u8> {
        self.data@
    }

    /// The absolute compressed offset the block starts at.
    pub closed spec fn spec_c_offset(&self) -> u64 {
        self.c_offset
    }

    /// The read cursor into the payload.
    pub closed spec fn spec_position(&self) -> u64 {
        self.position
    }

    /// The payload fits one block and the cursor stays inside it.
    pub open spec fn wf(&self) -> bool {
        &&& self.spec_data().len() <= MAX_UNCOMPRESSED_SIZE
        &&& self.spec_position() <= self.spec_data().len()
    }

    /// An empty block at the start of the stream.
    pub fn new() -> (b: Block)
        ensures
            b.spec_data() == Seq::<u8>::empty(),
            b.spec_c_offset() == 0,
            b.spec_position() == 0,
            b.wf(),
    {
        Block { data: Vec::new(), c_offset: 0, position: 0 }
    }

    /// The uncompressed payload.
    pub fn data(&self) -> (d: &Vec<u8>)
        ensures
            d@ == self.spec_data(),
    {
        &self.data
    }

    /// The absolute compressed offset the block starts at.
    pub fn c_offset(&self) -> (c: u64)
        ensures
            c == self.spec_c_offset(),
    {
        self.c_offset
    }

    /// The read cursor into the payload.
    pub fn position(&self) -> (p: u64)
        ensures
            p == self.spec_position(),
    {
        self.position
    }

    /// Moves the read cursor inside the payload.
    pub fn set_position(&mut self, pos: u64)
        requires
            pos <= old(self).spec_data().len(),
        ensures
            final(self).spec_data() == old(self).spec_data(),
            final(self).spec_c_offset() == old(self).spec_c_offset(),
            final(self).spec_position() == pos,
    {
        self.position = pos;
    }
}

impl Default for Block {
    fn default() -> (b: Block)
        ensures
            b.spec_data() == Seq::<u8>::empty(),
            b.spec_c_offset() == 0,
            b.spec_position() == 0,
    {
        Block::new()
    }
}

/// A reader over an in-memory compressed stream, decoding one block at a
/// time and tracking the absolute compressed position.
#[derive(Debug)]
pub struct Reader {
    src: Vec<u8>,
    position: u64,
}

impl Reader {
    /// The compressed stream.
    pub closed spec fn spec_src(&self) -> Seq<u8> {
        self.src@
    }

    /// The absolute compressed position of the next block.
    pub closed spec fn spec_position(&self) -> u64 {
        self.position
    }

    /// Creates a reader at the start of a compressed stream.
    pub fn new(inner: Vec<u8>) -> (r: Reader)
        ensures
            r.spec_src() == inner@,
            r.spec_position() == 0,
    {
        Reader { src: inner, position: 0 }
    }

    /// The absolute compressed position of the next block.
    pub fn position(&self) -> (p: u64)
        ensures
            p == self.spec_position(),
    {
        self.position
    }

    /// Decodes the block at the current position into `block` and returns
    /// its total on-disk size, or 0 at a clean end of stream.
    ///
    /// On success the sink block carries the uncompressed payload, the
    /// compressed offset the block started at, and a rewound cursor, and
    /// the reader has advanced past the block. At end of stream and on
    /// every failure, the reader and the sink are unchanged.
    pub fn read_block(&mut self, block: &mut Block) -> (r: Result<usize, DecodeError>)
        ensures
            final(self).spec_src() == old(self).spec_src(),
            match spec_read_block(old(self).spec_src(), old(self).spec_position() as int) {
                BlockOutcome::Eof => {
                    &&& r == Ok::<usize, DecodeError>(0)
                    &&& *final(self) == *old(self)
                    &&& *final(block) == *old(block)
                },
                BlockOutcome::Fail(e) => {
                    &&& r == Err::<usize, DecodeError>(e)
                    &&& *final(self) == *old(self)
                    &&& *final(block) == *old(block)
                },
                BlockOutcome::Decoded { payload, next } => {
                    &&& r == Ok::<usize, DecodeError>((next - old(self).spec_position()) as usize)
                    &&& final(self).spec_position() == next
                    &&& final(block).spec_data() == payload
                    &&& final(block).spec_c_offset() == old(self).spec_position()
                    &&& final(block).spec_position() == 0
                    &&& final(block).wf()
                },
            },
    {
        let len = self.src.len();

        if self.position > len as u64 || (len as u64) - self.position < 18 {
            return Ok(0);
        }

        let p = self.position as usize;

        let bsize: usize = self.src[p + 16] as usize + 256 * (self.src[p + 17] as usize);

        if bsize < 25 {
            return Err(DecodeError::InvalidData);
        }

        let cdata_len: usize = bsize + 1 - 26;

        if cdata_len > len - (p + 18) || 8 > len - (p + 18) - cdata_len {
            return Err(DecodeError::UnexpectedEof);
        }

        let cdata = vstd::slice::slice_subrange(self.src.as_slice(), p + 18, p + 18 + cdata_len);

        let uncompressed = match inflate(cdata) {
            Ok(u) => u,
            Err(_) => {
                return Err(DecodeError::InvalidData);
            },
        };

        if uncompressed.len() > MAX_UNCOMPRESSED_SIZE {
            return Err(DecodeError::InvalidData);
        }

        block.data = uncompressed;
        block.c_offset = self.position;
        block.position = 0;

        self.position = (p + 26 + cdata_len) as u64;

        Ok(bsize + 1)
    }

    /// Seeks to a virtual position: moves to its compressed offset, decodes
    /// the block there, and places the block cursor at its uncompressed
    /// offset.
    ///
    /// Fails with invalid data when the intra-block offset lies outside the
    /// decoded payload, or when no block starts at the compressed offset.
    pub fn seek(&mut self, pos: u64, block: &mut Block) -> (r: Result<u64, DecodeError>)
        ensures
            final(self).spec_src() == old(self).spec_src(),
            ({
                let c = spec_compressed_offset(pos);
                let u = spec_uncompressed_offset(pos);
                match spec_read_block(old(self).spec_src(), c as int) {
                    BlockOutcome::Eof => {
                        &&& u == 0 ==> r == Ok::<u64, DecodeError>(pos)
                        &&& u != 0 ==> r == Err::<u64, DecodeError>(DecodeError::InvalidData)
                        &&& final(self).spec_position() == c
                        &&& *final(block) == *old(block)
                    },
                    BlockOutcome::Fail(e) => {
                        &&& r == Err::<u64, DecodeError>(e)
                        &&& final(self).spec_position() == c
                        &&& *final(block) == *old(block)
                    },
                    BlockOutcome::Decoded { payload, next } => {
                        &&& final(self).spec_position() == next
                        &&& final(block).spec_data() == payload
                        &&& final(block).spec_c_offset() == c
                        &&& u <= payload.len() ==> r == Ok::<u64, DecodeError>(pos)
                            && final(block).spec_position() == u
                        &&& u > payload.len() ==> r == Err::<u64, DecodeError>(
                            DecodeError::InvalidData,
                        ) && final(block).spec_position() == 0
                        &&& final(block).wf()
                    },
                }
            }),
    {
        let c_offset = compressed_offset(pos);
        let u_offset = uncompressed_offset(pos);

        self.position = c_offset;

        let n = self.read_block(block)?;

        if n == 0 {
            if u_offset == 0 {
                return Ok(pos);
            } else {
                return Err(DecodeError::InvalidData);
            }
        }

        if u_offset > block.data.len() as u64 {
            return Err(DecodeError::InvalidData);
        }

        block.position = u_offset;

        Ok(pos)
    }
}

/// The fixed gzip header framing a block whose compressed payload is
/// `cdata_len` bytes long: magic, deflate method, extra-field flag, zero
/// timestamp, unknown operating system, and the 6-byte extra subfield
/// `BC` holding the total block size minus one, little-endian.
pub open spec fn spec_block_header(cdata_len: int) -> Seq<u8> {
    seq![
        0x1fu8,
        0x8bu8,
        0x08u8,
        0x04u8,
        0u8,
        0u8,
        0u8,
        0u8,
        0u8,
        0xffu8,
        0x06u8,
        0x00u8,
        0x42u8,
        0x43u8,
        0x02u8,
        0x00u8,
        ((cdata_len + 25) % 256) as u8,
        ((cdata_len + 25) / 256) as u8,
    ]
}

/// The full on-disk image of one block: header, compressed payload, and
/// the trailer holding the payload's CRC-32 and uncompressed size.
pub open spec fn spec_block_bytes(cdata: Seq<u8>, crc: u32, isize_val: int) -> Seq<u8> {
    spec_block_header(cdata.len() as int) + cdata + spec_le32_bytes(crc as int)
        + spec_le32_bytes(isize_val)
}

/// Appends the little-endian image of a 32-bit value.
pub(crate) fn push_le32(dst: &mut Vec<u8>, v: u32)
    ensures
        final(dst)@ == old(dst)@ + spec_le32_bytes(v as int),
{
    let ghost pre = dst@;
    dst.push((v % 256) as u8);
    dst.push((v / 256 % 256) as u8);
    dst.push((v / 65536 % 256) as u8);
    dst.push((v / 16777216 % 256) as u8);
    proof {
        assert(dst@ =~= pre + spec_le32_bytes(v as int));
    }
}

/// Appends one block framing `payload` to `dst`: the payload is deflated,
/// its checksum and size are written into the trailer, and the size field
/// pins the block's total on-disk length.
///
/// Fails exactly when the compressed payload would overflow the 16-bit
/// size field, which real payloads never do; `dst` is unchanged then.
pub fn write_block(dst: &mut Vec<u8>, payload: &[u8]) -> (r: Result<(), DecodeError>)
    requires
        payload@.len() <= MAX_UNCOMPRESSED_SIZE,
    ensures
        r is Ok <==> deflate_of(payload@).len() <= MAX_COMPRESSED_SIZE,
        r is Err ==> r == Err::<(), DecodeError>(DecodeError::InvalidData),
        r is Ok ==> ({
            let cdata = deflate_of(payload@);
            &&& cdata.len() <= MAX_COMPRESSED_SIZE
            &&& inflate_of(cdata) == Some(payload@)
            &&& final(dst)@ == old(dst)@ + spec_block_bytes(
                cdata,
                crc32_of(payload@),
                payload@.len() as int,
            )
        }),
        r is Err ==> final(dst)@ == old(dst)@,
{
    let cdata = match deflate_compress(payload) {
        Ok(v) => v,
        Err(e) => {
            return Err(e);
        },
    };

    if cdata.len() > MAX_COMPRESSED_SIZE {
        return Err(DecodeError::InvalidData);
    }

    let crc = crc32(payload);
    let bsize: usize = cdata.len() + 25;

    let ghost pre = dst@;

    dst.push(0x1f);
    dst.push(0x8b);
    dst.push(0x08);
    dst.push(0x04);
    dst.push(0);
    dst.push(0);
    dst.push(0);
    dst.push(0);
    dst.push(0);
    dst.push(0xff);
    dst.push(0x06);
    dst.push(0x00);
    dst.push(0x42);
    dst.push(0x43);
    dst.push(0x02);
    dst.push(0x00);
    dst.push((bsize % 256) as u8);
    dst.push((bsize / 256) as u8);

    proof {
        assert(dst@ =~= pre + spec_block_header(cdata@.len() as int));
    }

    let ghost with_header = dst@;

    dst.extend_from_slice(cdata.as_slice());

    proof {
        assert(dst@ =~= with_header + cdata@);
    }

    push_le32(dst, crc);
    push_le32(dst, payload.len() as u32);

    proof {
        assert(dst@ =~= pre + spec_block_bytes(
            cdata@,
            crc32_of(payload@),
            payload@.len() as int,
        ));
    }

    Ok(())
}

/// A stream holding one block per payload, in order.
pub open spec fn spec_stream_of(payloads: Seq<Seq<u8>>) -> Seq<u8>
    decreases payloads.len(),
{
    if payloads.len() == 0 {
        Seq::empty()
    } else {
        spec_block_bytes(
            deflate_of(payloads[0]),
            crc32_of(payloads[0]),
            payloads[0].len() as int,
        ) + spec_stream_of(payloads.drop_first())
    }
}

/// The payloads that repeated block decoding yields from offset `p` on,
/// stopping at the first end of stream or failure.
pub open spec fn spec_payloads_read(s: Seq<u8>, p: int) -> Seq<Seq<u8>>
    decreases s.len() - p,
    when 0 <= p <= s.len()
{
    match spec_read_block(s, p) {
        BlockOutcome::Decoded { payload, next } => if p < next <= s.len() {
            seq![payload] + spec_payloads_read(s, next)
        } else {
            Seq::empty()
        },
        _ => Seq::empty(),
    }
}

/// Whether repeated block decoding from offset `p` on runs into no
/// malformed block: every block decodes until a clean end of stream.
pub open spec fn spec_reads_cleanly(s: Seq<u8>, p: int) -> bool
    decreases s.len() - p,
    when 0 <= p <= s.len()
{
    match spec_read_block(s, p) {
        BlockOutcome::Eof => true,
        BlockOutcome::Fail(_) => false,
        BlockOutcome::Decoded { payload, next } => if p < next <= s.len() {
            spec_reads_cleanly(s, next)
        } else {
            true
        },
    }
}

/// Decodes every remaining block of the stream and collects the
/// uncompressed payloads, in order, stopping at a clean end of stream.
/// It succeeds exactly when no block on the way is malformed.
///
/// Together with [`lemma_stream_round_trip`], this ties the whole loop to
/// the writer: reading a stream that [`write_block`] produced yields
/// exactly the payloads that were written.
pub fn read_all_blocks(reader: &mut Reader) -> (res: Result<Vec<Vec<u8>>, DecodeError>)
    requires
        old(reader).spec_position() <= old(reader).spec_src().len(),
    ensures
        final(reader).spec_src() == old(reader).spec_src(),
        res is Ok <==> spec_reads_cleanly(
            old(reader).spec_src(),
            old(reader).spec_position() as int,
        ),
        res matches Ok(payloads) ==> payloads@.map_values(|v: Vec<u8>| v@)
            == spec_payloads_read(
            old(reader).spec_src(),
            old(reader).spec_position() as int,
        ),
{
    let ghost src = reader.spec_src();
    let ghost start = reader.spec_position() as int;

    let mut out: Vec<Vec<u8>> = Vec::new();
    let mut block = Block::new();

    proof {
        assert(out@.map_values(|v: Vec<u8>| v@) =~= Seq::<Seq<u8>>::empty());
    }

    loop
        invariant
            src == old(reader).spec_src(),
            start == old(reader).spec_position() as int,
            reader.spec_src() == src,
            reader.spec_position() <= src.len(),
            spec_payloads_read(src, start) == out@.map_values(|v: Vec<u8>| v@)
                + spec_payloads_read(src, reader.spec_position() as int),
            spec_reads_cleanly(src, start) == spec_reads_cleanly(
                src,
                reader.spec_position() as int,
            ),
        decreases src.len() - reader.spec_position(),
    {
        let ghost pos = reader.spec_position() as int;
        let ghost out_pre = out@;

        let n = match reader.read_block(&mut block) {
            Ok(n) => n,
            Err(e) => {
                return Err(e);
            },
        };

        if n == 0 {
            proof {
                assert(spec_read_block(src, pos) is Eof);
                assert(spec_payloads_read(src, pos) =~= Seq::<Seq<u8>>::empty());
                assert(out@.map_values(|v: Vec<u8>| v@) + spec_payloads_read(src, pos)
                    =~= out@.map_values(|v: Vec<u8>| v@));
            }
            return Ok(out);
        }

        let payload = vstd::slice::slice_to_vec(block.data().as_slice());
        out.push(payload);

        proof {
            let u = spec_read_block(src, pos)->Decoded_payload;
            let next = spec_read_block(src, pos)->Decoded_next;
            assert(pos < next <= src.len());
            assert(out@.map_values(|v: Vec<u8>| v@) =~= out_pre.map_values(
                |v: Vec<u8>| v@,
            ).push(u));
            assert(spec_payloads_read(src, pos) =~= seq![u] + spec_payloads_read(src, next));
            assert(out_pre.map_values(|v: Vec<u8>| v@) + (seq![u] + spec_payloads_read(
                src,
                next,
            )) =~= out@.map_values(|v: Vec<u8>| v@) + spec_payloads_read(src, next));
        }
    }
}

/// A well-formed block image decodes back to its payload and consumes
/// exactly its frame.
pub proof fn lemma_block_round_trip(s: Seq<u8>, p: int, payload: Seq<u8>)
    requires
        0 <= p,
        payload.len() <= MAX_UNCOMPRESSED_SIZE,
        deflate_of(payload).len() <= MAX_COMPRESSED_SIZE,
        inflate_of(deflate_of(payload)) == Some(payload),
        p + 26 + deflate_of(payload).len() <= s.len(),
        s.subrange(p, p + 26 + deflate_of(payload).len() as int) == spec_block_bytes(
            deflate_of(payload),
            crc32_of(payload),
            payload.len() as int,
        ),
    ensures
        spec_read_block(s, p) == (BlockOutcome::Decoded {
            payload,
            next: p + 26 + deflate_of(payload).len(),
        }),
{
    let cdata = deflate_of(payload);
    let cl = cdata.len() as int;
    let frame = spec_block_bytes(cdata, crc32_of(payload), payload.len() as int);

    assert(frame.len() == 26 + cl);
    assert(forall|i: int| 0 <= i < 26 + cl ==> s[p + i] == #[trigger] frame[i]) by {
        assert(forall|i: int|
            0 <= i < 26 + cl ==> s.subrange(p, p + 26 + cl)[i] == #[trigger] s[p + i]);
    };

    let header = spec_block_header(cl);
    let tail = cdata + (spec_le32_bytes(crc32_of(payload) as int) + spec_le32_bytes(
        payload.len() as int,
    ));
    assert(frame =~= header + tail);

    assert(frame[16] == header[16] && frame[17] == header[17]);
    assert(header[16] == ((cl + 25) % 256) as u8);
    assert(header[17] == ((cl + 25) / 256) as u8);
    assert(spec_le16(s, p + 16) == cl + 25);

    assert forall|j: int| 0 <= j < cl implies s.subrange(p + 18, p + 18 + cl)[j]
        == #[trigger] cdata[j] by {
        assert(s.subrange(p + 18, p + 18 + cl)[j] == s[p + 18 + j]);
        assert(s[p + (18 + j)] == frame[18 + j]);
        assert(frame[18 + j] == tail[j]);
        assert(tail[j] == cdata[j]);
    };
    assert(s.subrange(p + 18, p + 18 + cl) =~= cdata);
}

/// Decoding a block looks only at the stream from its offset on, so a
/// common prefix shifts the outcome without changing it.
pub proof fn lemma_read_block_shift(a: Seq<u8>, b: Seq<u8>, q: int)
    requires
        0 <= q,
    ensures
        ({
            let s = a + b;
            let p = a.len() + q;
            match spec_read_block(b, q) {
                BlockOutcome::Eof => spec_read_block(s, p) == BlockOutcome::Eof,
                BlockOutcome::Fail(e) => spec_read_block(s, p) == BlockOutcome::Fail(e),
                BlockOutcome::Decoded { payload, next } => spec_read_block(s, p)
                    == (BlockOutcome::Decoded { payload, next: a.len() + next }),
            }
        }),
{
    let s = a + b;
    let p = a.len() + q;

    if q + 18 <= b.len() {
        assert(s[p + 16] == b[q + 16]);
        assert(s[p + 17] == b[q + 17]);
        let bsize = spec_le16(b, q + 16);
        assert(spec_le16(s, p + 16) == bsize);

        if bsize >= 25 {
            let cl = bsize + 1 - 26;
            if q + 26 + cl <= b.len() {
                assert(s.subrange(p + 18, p + 18 + cl) =~= b.subrange(q + 18, q + 18 + cl));
            }
        }
    }
}

/// Repeated decoding behind a common prefix yields the same payloads.
pub proof fn lemma_payloads_read_shift(a: Seq<u8>, b: Seq<u8>, q: int)
    requires
        0 <= q <= b.len(),
    ensures
        spec_payloads_read(a + b, a.len() + q) == spec_payloads_read(b, q),
    decreases b.len() - q,
{
    lemma_read_block_shift(a, b, q);

    match spec_read_block(b, q) {
        BlockOutcome::Decoded { payload, next } => {
            if q < next <= b.len() {
                lemma_payloads_read_shift(a, b, next);
                assert(spec_payloads_read(a + b, a.len() + q) =~= spec_payloads_read(b, q));
            }
        },
        _ => {},
    }
}

/// Writing any sequence of payloads as consecutive blocks and decoding
/// the stream back yields exactly those payloads, in order: the
/// concatenation of what is read equals what was written.
///
/// The hypotheses are the facts the block writer establishes for every
/// payload it accepts: the payload fits a block, its compressed image
/// fits the size field, and inflating that image gives the payload back.
pub proof fn lemma_stream_round_trip(payloads: Seq<Seq<u8>>)
    requires
        forall|i: int|
            0 <= i < payloads.len() ==> (#[trigger] payloads[i]).len() <= MAX_UNCOMPRESSED_SIZE,
        forall|i: int|
            0 <= i < payloads.len() ==> deflate_of(#[trigger] payloads[i]).len()
                <= MAX_COMPRESSED_SIZE,
        forall|i: int|
            0 <= i < payloads.len() ==> inflate_of(deflate_of(#[trigger] payloads[i]))
                == Some(payloads[i]),
    ensures
        spec_payloads_read(spec_stream_of(payloads), 0) == payloads,
    decreases payloads.len(),
{
    if payloads.len() == 0 {
        assert(spec_payloads_read(spec_stream_of(payloads), 0) =~= payloads);
    } else {
        let p0 = payloads[0];
        let frame = spec_block_bytes(deflate_of(p0), crc32_of(p0), p0.len() as int);
        let rest = spec_stream_of(payloads.drop_first());
        let s = spec_stream_of(payloads);

        assert(s == frame + rest);
        assert(frame.len() == 26 + deflate_of(p0).len());
        assert(s.subrange(0, frame.len() as int) =~= frame);

        lemma_block_round_trip(s, 0, p0);
        lemma_payloads_read_shift(frame, rest, 0);

        assert(forall|i: int|
            0 <= i < payloads.drop_first().len() ==> #[trigger] payloads.drop_first()[i]
                == payloads[i + 1]);
        lemma_stream_round_trip(payloads.drop_first());

        assert(spec_payloads_read(s, 0) =~= seq![p0] + payloads.drop_first());
        assert(seq![p0] + payloads.drop_first() =~= payloads);
    }
}

} // verus!
