//! The slice builder: accumulates alignment records sharing a reference
//! classification, then serializes them into a self-describing slice of
//! one core data block and external data blocks.

use vstd::prelude::*;
use crate::bgzf::spec_le32_bytes;
use crate::cram_record::{
    spec_detached_flags, spec_has_coded_substitution, spec_is_prepared, spec_resolve_feature,
    Feature, prepare_record, Record, SubstitutionMatrix,
};
use crate::error::DecodeError;
use crate::gzip::{encode, gzip_of};
use crate::reference::{md5_digest, md5_of, ReferenceSequences, Repository};

verus! {

/// The most records one slice may hold.
pub const MAX_RECORD_COUNT: usize = 10240;

/// The content id of the core data block.
pub const CORE_DATA_BLOCK_CONTENT_ID: i32 = 0;

/// The number of well-known data series whose external buffers are seeded
/// before records are written.
pub const DATA_SERIES_COUNT: usize = 28;

/// The reference classification of a slice: one shared reference
/// sequence, all records unmapped, or a multi-reference slice.
#[derive(Clone, Copy, Debug, PartialEq, Eq, Structural)]
pub enum ReferenceSequenceId {
    /// Every record aligns to this one reference sequence.
    Single(i32),
    /// Every record is unmapped.
    Unmapped,
    /// Records disagree on their reference sequence.
    Many,
}

/// An error returned when a record cannot join the slice; the rejected
/// record returns to the caller.
#[derive(Clone, Debug, PartialEq)]
pub enum AddRecordError {
    /// The record's reference sequence differs from the slice's.
    ReferenceSequenceIdMismatch(Record),
    /// The slice already holds the most records it may.
    SliceFull(Record),
}

/// The compression context a slice is encoded under: the substitution
/// matrix of the preservation map, and the content ids of the tag
/// encodings, whose external buffers are seeded alongside the data
/// series.
#[derive(Clone, Debug)]
pub struct CompressionHeader {
    /// The substitution matrix resolving base pairs to codes.
    pub substitution_matrix: SubstitutionMatrix,
    /// The content ids of the tag encodings.
    pub tag_encoding_ids: Vec<i32>,
}

/// The kind of payload a block carries.
#[derive(Clone, Copy, Debug, PartialEq, Eq, Structural)]
pub enum ContentType {
    /// Bit-packed data that cannot be externalized.
    CoreData,
    /// One data series, keyed by content id.
    ExternalData,
}

/// A compressed block of a slice.
#[derive(Clone, Debug)]
pub struct Block {
    /// The kind of payload.
    pub content_type: ContentType,
    /// The block's content id.
    pub content_id: i32,
    /// The gzip-compressed payload.
    pub data: Vec<u8>,
    /// The payload's uncompressed size.
    pub uncompressed_len: usize,
}

impl Block {
    /// Compresses a payload into a block with the given identity; the
    /// gzip encoder cannot fail on a byte vector sink, so neither can
    /// this.
    pub fn compress(content_type: ContentType, content_id: i32, src: &[u8]) -> (res: Result<
        Block,
        DecodeError,
    >)
        ensures
            res is Ok,
            res matches Ok(b) ==> b.content_type == content_type && b.content_id == content_id
                && b.data@ == gzip_of(src@) && b.uncompressed_len == src@.len(),
    {
        let data = match encode(src) {
            Ok(v) => v,
            Err(e) => {
                return Err(e);
            },
        };

        Ok(Block { content_type, content_id, data, uncompressed_len: src.len() })
    }
}

/// Whether every record names the same reference sequence as the first.
pub open spec fn spec_all_same_reference(records: Seq<Record>) -> bool {
    forall|i: int|
        0 <= i < records.len() ==> (#[trigger] records[i]).reference_sequence_id == records[
            0
        ].reference_sequence_id
}

/// The reference classification of a nonempty record list.
pub open spec fn spec_classification(records: Seq<Record>) -> ReferenceSequenceId {
    if !spec_all_same_reference(records) {
        ReferenceSequenceId::Many
    } else {
        match records[0].reference_sequence_id {
            Some(n) => ReferenceSequenceId::Single(n as i32),
            None => ReferenceSequenceId::Unmapped,
        }
    }
}

/// The smaller of two optional positions, where absence wins: one
/// unmapped record leaves the slice without a start.
pub open spec fn spec_opt_min(a: Option<u64>, b: Option<u64>) -> Option<u64> {
    match (a, b) {
        (Option::None, _) => Option::None,
        (_, Option::None) => Option::None,
        (Option::Some(x), Option::Some(y)) => Option::Some(
            if x <= y {
                x
            } else {
                y
            },
        ),
    }
}

/// The larger of two optional positions, where absence loses.
pub open spec fn spec_opt_max(a: Option<u64>, b: Option<u64>) -> Option<u64> {
    match (a, b) {
        (Option::None, _) => b,
        (_, Option::None) => a,
        (Option::Some(x), Option::Some(y)) => Option::Some(
            if x >= y {
                x
            } else {
                y
            },
        ),
    }
}

/// The least alignment start over the records, folded from the largest
/// representable position.
pub open spec fn spec_min_start(records: Seq<Record>) -> Option<u64>
    decreases records.len(),
{
    if records.len() == 0 {
        Some(0xffff_ffff_ffff_ffffu64)
    } else {
        spec_opt_min(spec_min_start(records.drop_last()), records.last().alignment_start)
    }
}

/// The greatest alignment end over the records.
pub open spec fn spec_max_end(records: Seq<Record>) -> Option<u64>
    decreases records.len(),
{
    if records.len() == 0 {
        None
    } else {
        spec_opt_max(spec_max_end(records.drop_last()), records.last().alignment_end)
    }
}

/// Compares two optional reference sequence ids.
fn opt_u32_eq(a: Option<u32>, b: Option<u32>) -> (r: bool)
    ensures
        r == (a == b),
{
    match (a, b) {
        (Option::Some(x), Option::Some(y)) => x == y,
        (Option::None, Option::None) => true,
        _ => false,
    }
}

/// Classifies a nonempty record list: one shared reference id, all
/// unmapped, or a multi-reference mixture.
pub fn find_slice_reference_sequence_id(records: &[Record]) -> (id: ReferenceSequenceId)
    requires
        records@.len() > 0,
    ensures
        id == spec_classification(records@),
{
    let first = records[0].reference_sequence_id;
    let n = records.len();
    let mut i: usize = 1;

    while i < n
        invariant
            1 <= i <= n,
            n == records@.len(),
            first == records@[0].reference_sequence_id,
            forall|j: int|
                0 <= j < i ==> (#[trigger] records@[j]).reference_sequence_id == first,
        decreases n - i,
    {
        if !opt_u32_eq(records[i].reference_sequence_id, first) {
            return ReferenceSequenceId::Many;
        }
        i = i + 1;
    }

    match first {
        Some(id) => ReferenceSequenceId::Single(id as i32),
        None => ReferenceSequenceId::Unmapped,
    }
}

/// Scans a nonempty record list for its alignment bounds: the least
/// start and the greatest end, where any record without a start erases
/// the slice's start.
pub fn find_slice_alignment_positions(records: &[Record]) -> (bounds: (
    Option<u64>,
    Option<u64>,
))
    requires
        records@.len() > 0,
    ensures
        bounds.0 == spec_min_start(records@),
        bounds.1 == spec_max_end(records@),
{
    let n = records.len();
    let mut start: Option<u64> = Some(0xffff_ffff_ffff_ffffu64);
    let mut end: Option<u64> = None;
    let mut i: usize = 0;

    proof {
        assert(records@.take(0) =~= Seq::<Record>::empty());
    }

    while i < n
        invariant
            i <= n,
            n == records@.len(),
            start == spec_min_start(records@.take(i as int)),
            end == spec_max_end(records@.take(i as int)),
        decreases n - i,
    {
        proof {
            assert(records@.take(i as int + 1).drop_last() =~= records@.take(i as int));
            assert(records@.take(i as int + 1).last() == records@[i as int]);
        }

        start = match (start, records[i].alignment_start) {
            (Option::Some(x), Option::Some(y)) => if x <= y {
                Some(x)
            } else {
                Some(y)
            },
            _ => None,
        };

        end = match (end, records[i].alignment_end) {
            (Option::Some(x), Option::Some(y)) => if x >= y {
                Some(x)
            } else {
                Some(y)
            },
            (Option::None, e) => e,
            (e, Option::None) => e,
        };

        i = i + 1;
    }

    proof {
        assert(records@.take(n as int) =~= records@);
    }

    (start, end)
}

/// Accumulates records for one slice: the first record pins the slice's
/// reference sequence id, later records must match it, and the slice
/// holds at most [`MAX_RECORD_COUNT`] records.
#[derive(Debug)]
pub struct Builder {
    records: Vec<Record>,
    slice_reference_sequence_id: Option<u32>,
}

impl Builder {
    /// The accumulated records, in insertion order.
    pub closed spec fn spec_records(&self) -> Seq<Record> {
        self.records@
    }

    /// The reference sequence id the first record pinned.
    pub closed spec fn spec_slice_reference_sequence_id(&self) -> Option<u32> {
        self.slice_reference_sequence_id
    }

    /// The pinned id is the first record's, and capacity is respected.
    pub open spec fn wf(&self) -> bool {
        &&& self.spec_records().len() <= MAX_RECORD_COUNT
        &&& self.spec_records().len() > 0
            ==> self.spec_slice_reference_sequence_id() == self.spec_records()[
            0
        ].reference_sequence_id
    }

    /// Whether no record has been added yet.
    pub fn is_empty(&self) -> (b: bool)
        ensures
            b == (self.spec_records().len() == 0),
    {
        self.records.is_empty()
    }

    /// The accumulated records.
    pub fn records(&self) -> (rs: &[Record])
        ensures
            rs@ == self.spec_records(),
    {
        self.records.as_slice()
    }

    /// Adds a record to the slice.
    ///
    /// The first record pins the slice's reference sequence id; a record
    /// naming a different one, or arriving when the slice is full, is
    /// handed back inside the error.
    pub fn add_record(&mut self, record: Record) -> (res: Result<(), AddRecordError>)
        requires
            old(self).wf(),
        ensures
            final(self).wf(),
            if old(self).spec_records().len() >= MAX_RECORD_COUNT {
                &&& res matches Err(AddRecordError::SliceFull(r)) && r == record
                &&& final(self).spec_records() == old(self).spec_records()
                &&& final(self).spec_slice_reference_sequence_id() == old(self).spec_slice_reference_sequence_id()
            } else if old(self).spec_records().len() == 0 || record.reference_sequence_id
                == old(self).spec_slice_reference_sequence_id() {
                &&& res is Ok
                &&& final(self).spec_records() == old(self).spec_records().push(record)
                &&& final(self).spec_slice_reference_sequence_id()
                    == record.reference_sequence_id || old(self).spec_records().len() > 0
                &&& old(self).spec_records().len() > 0 ==> final(self).spec_slice_reference_sequence_id() == old(self).spec_slice_reference_sequence_id()
            } else {
                &&& res matches Err(AddRecordError::ReferenceSequenceIdMismatch(r)) && r
                    == record
                &&& final(self).spec_records() == old(self).spec_records()
                &&& final(self).spec_slice_reference_sequence_id() == old(self).spec_slice_reference_sequence_id()
            },
    {
        if self.records.len() >= MAX_RECORD_COUNT {
            return Err(AddRecordError::SliceFull(record));
        }

        if self.records.is_empty() {
            self.slice_reference_sequence_id = record.reference_sequence_id;
        }

        if opt_u32_eq(record.reference_sequence_id, self.slice_reference_sequence_id) {
            self.records.push(record);
            Ok(())
        } else {
            Err(AddRecordError::ReferenceSequenceIdMismatch(record))
        }
    }
}

impl Default for Builder {
    /// An empty builder.
    fn default() -> (b: Builder)
        ensures
            b.spec_records() == Seq::<Record>::empty(),
            b.spec_slice_reference_sequence_id() is None,
            b.wf(),
    {
        Builder { records: Vec::new(), slice_reference_sequence_id: None }
    }
}

/// The little-endian byte image of a 64-bit value.
pub open spec fn spec_le64_bytes(v: int) -> Seq<u8> {
    seq![
        (v % 256) as u8,
        (v / 0x100 % 256) as u8,
        (v / 0x10000 % 256) as u8,
        (v / 0x1000000 % 256) as u8,
        (v / 0x100000000 % 256) as u8,
        (v / 0x10000000000 % 256) as u8,
        (v / 0x1000000000000 % 256) as u8,
        (v / 0x100000000000000 % 256) as u8,
    ]
}

/// Appends the little-endian image of a 64-bit value.
fn push_le64(dst: &mut Vec<u8>, v: u64)
    ensures
        final(dst)@ == old(dst)@ + spec_le64_bytes(v as int),
{
    let ghost pre = dst@;
    dst.push((v % 256) as u8);
    dst.push((v / 0x100 % 256) as u8);
    dst.push((v / 0x10000 % 256) as u8);
    dst.push((v / 0x1000000 % 256) as u8);
    dst.push((v / 0x100000000 % 256) as u8);
    dst.push((v / 0x10000000000 % 256) as u8);
    dst.push((v / 0x1000000000000 % 256) as u8);
    dst.push((v / 0x100000000000000 % 256) as u8);
    proof {
        assert(dst@ =~= pre + spec_le64_bytes(v as int));
    }
}

/// The bit flags written to the core data block: every record's flags in
/// detached form, one byte per record.
pub open spec fn spec_encoded_flags(records: Seq<Record>) -> Seq<u8> {
    records.map_values(|r: Record| spec_detached_flags(r.cram_bit_flags))
}

/// The wire value of a record's reference sequence id: the id itself, or
/// all-ones when unmapped.
pub open spec fn spec_ref_id_value(r: Record) -> int {
    match r.reference_sequence_id {
        Some(n) => n as int,
        None => 0xffff_ffff,
    }
}

/// The reference-id data series: one little-endian 32-bit value per
/// record.
pub open spec fn spec_ref_id_bytes(records: Seq<Record>) -> Seq<u8>
    decreases records.len(),
{
    if records.len() == 0 {
        Seq::empty()
    } else {
        spec_ref_id_bytes(records.drop_last()) + spec_le32_bytes(
            spec_ref_id_value(records.last()),
        )
    }
}

/// The alignment-start data series: one little-endian 64-bit position per
/// record, zero when unmapped.
pub open spec fn spec_start_bytes(records: Seq<Record>) -> Seq<u8>
    decreases records.len(),
{
    if records.len() == 0 {
        Seq::empty()
    } else {
        spec_start_bytes(records.drop_last()) + spec_le64_bytes(
            match records.last().alignment_start {
                Some(s) => s as int,
                None => 0,
            },
        )
    }
}

/// The substitution code a feature value encodes to, resolving a base
/// pair through the matrix.
pub open spec fn spec_substitution_code(
    m: &SubstitutionMatrix,
    v: crate::cram_record::SubstitutionValue,
) -> u8 {
    match v {
        crate::cram_record::SubstitutionValue::Code(c) => c,
        crate::cram_record::SubstitutionValue::Bases(reference_base, read_base) =>
            m.spec_find_code(reference_base, read_base),
    }
}

/// The wire image of one feature: a kind byte, the 64-bit read position,
/// and the feature's own payload.
pub open spec fn spec_feature_bytes(m: &SubstitutionMatrix, f: Feature) -> Seq<u8> {
    match f {
        Feature::Substitution(pos, v) => seq![0x58u8] + spec_le64_bytes(pos as int) + seq![
            spec_substitution_code(m, v),
        ],
        Feature::Insertion(pos, bases) => seq![0x49u8] + spec_le64_bytes(pos as int)
            + spec_le64_bytes(bases@.len() as int) + bases@,
        Feature::Deletion(pos, len) => seq![0x44u8] + spec_le64_bytes(pos as int)
            + spec_le64_bytes(len as int),
    }
}

/// The wire image of a feature list.
pub open spec fn spec_features_list_bytes(m: &SubstitutionMatrix, fs: Seq<Feature>) -> Seq<
    u8,
>
    decreases fs.len(),
{
    if fs.len() == 0 {
        Seq::empty()
    } else {
        spec_features_list_bytes(m, fs.drop_last()) + spec_feature_bytes(m, fs.last())
    }
}

/// The read-features data series: per record, the 64-bit feature count
/// followed by each feature's image.
pub open spec fn spec_feature_series_bytes(m: &SubstitutionMatrix, records: Seq<Record>) -> Seq<
    u8,
>
    decreases records.len(),
{
    if records.len() == 0 {
        Seq::empty()
    } else {
        spec_feature_series_bytes(m, records.drop_last()) + spec_le64_bytes(
            records.last().features@.len() as int,
        ) + spec_features_list_bytes(m, records.last().features@)
    }
}

/// Resolving a feature does not change its wire image: a base pair and
/// the code it resolves to encode alike.
pub proof fn lemma_feature_bytes_resolved(m: &SubstitutionMatrix, f: Feature)
    ensures
        spec_feature_bytes(m, spec_resolve_feature(m, f)) == spec_feature_bytes(m, f),
{
}

/// The reference-id series is four bytes per record.
pub proof fn lemma_ref_id_bytes_len(records: Seq<Record>)
    ensures
        spec_ref_id_bytes(records).len() == 4 * records.len(),
    decreases records.len(),
{
    if records.len() > 0 {
        lemma_ref_id_bytes_len(records.drop_last());
    }
}

/// The alignment-start series is eight bytes per record.
pub proof fn lemma_start_bytes_len(records: Seq<Record>)
    ensures
        spec_start_bytes(records).len() == 8 * records.len(),
    decreases records.len(),
{
    if records.len() > 0 {
        lemma_start_bytes_len(records.drop_last());
    }
}

/// The read-features series carries at least its eight count bytes per
/// record.
pub proof fn lemma_feature_series_bytes_len(m: &SubstitutionMatrix, records: Seq<Record>)
    ensures
        spec_feature_series_bytes(m, records).len() >= 8 * records.len(),
    decreases records.len(),
{
    if records.len() > 0 {
        lemma_feature_series_bytes_len(m, records.drop_last());
    }
}

/// Appends one feature's wire image.
fn append_feature(dst: &mut Vec<u8>, substitution_matrix: &SubstitutionMatrix, f: &Feature)
    requires
        substitution_matrix.wf(),
    ensures
        final(dst)@ == old(dst)@ + spec_feature_bytes(substitution_matrix, *f),
{
    let ghost pre = dst@;

    match f {
        Feature::Substitution(pos, v) => {
            dst.push(0x58);
            push_le64(dst, *pos);
            let code = match v {
                crate::cram_record::SubstitutionValue::Code(c) => *c,
                crate::cram_record::SubstitutionValue::Bases(reference_base, read_base) =>
                    substitution_matrix.find_code(*reference_base, *read_base),
            };
            dst.push(code);
            proof {
                assert(dst@ =~= pre + spec_feature_bytes(substitution_matrix, *f));
            }
        },
        Feature::Insertion(pos, bases) => {
            dst.push(0x49);
            push_le64(dst, *pos);
            push_le64(dst, bases.len() as u64);
            dst.extend_from_slice(bases.as_slice());
            proof {
                assert(dst@ =~= pre + spec_feature_bytes(substitution_matrix, *f));
            }
        },
        Feature::Deletion(pos, len) => {
            dst.push(0x44);
            push_le64(dst, *pos);
            push_le64(dst, *len);
            proof {
                assert(dst@ =~= pre + spec_feature_bytes(substitution_matrix, *f));
            }
        },
    }
}

/// Encodes the records into the four series buffers, preparing each
/// record (substitutions resolved, mate state detached) on the way.
fn encode_records(substitution_matrix: &SubstitutionMatrix, records: &mut Vec<Record>) -> (bufs:
    (Vec<u8>, Vec<u8>, Vec<u8>, Vec<u8>))
    requires
        substitution_matrix.wf(),
        forall|i: int|
            0 <= i < old(records)@.len() ==> !spec_has_coded_substitution(
                (#[trigger] old(records)@[i]).features@,
            ),
    ensures
        final(records)@.len() == old(records)@.len(),
        bufs.0@ == spec_encoded_flags(old(records)@),
        bufs.1@ == spec_ref_id_bytes(old(records)@),
        bufs.2@ == spec_start_bytes(old(records)@),
        bufs.3@ == spec_feature_series_bytes(substitution_matrix, old(records)@),
{
    let ghost rs0 = records@;
    let n = records.len();

    let mut core_buf: Vec<u8> = Vec::new();
    let mut ref_id_buf: Vec<u8> = Vec::new();
    let mut start_buf: Vec<u8> = Vec::new();
    let mut feature_buf: Vec<u8> = Vec::new();

    let mut i: usize = 0;

    proof {
        assert(rs0.take(0) =~= Seq::<Record>::empty());
    }

    while i < n
        invariant
            i <= n,
            n == rs0.len(),
            records@.len() == rs0.len(),
            substitution_matrix.wf(),
            forall|j: int|
                i <= j < n ==> records@[j] == rs0[j],
            forall|j: int|
                0 <= j < n ==> !spec_has_coded_substitution((#[trigger] rs0[j]).features@),
            core_buf@ == spec_encoded_flags(rs0.take(i as int)),
            ref_id_buf@ == spec_ref_id_bytes(rs0.take(i as int)),
            start_buf@ == spec_start_bytes(rs0.take(i as int)),
            feature_buf@ == spec_feature_series_bytes(substitution_matrix, rs0.take(i as int)),
        decreases n - i,
    {
        proof {
            assert(records@[i as int] == rs0[i as int]);
        }

        prepare_record(substitution_matrix, &mut records[i]);

        let ghost orig = rs0[i as int];
        let ghost prepared = records@[i as int];

        core_buf.push(records[i].cram_bit_flags);

        let ref_id_value: u32 = match records[i].reference_sequence_id {
            Some(id) => id,
            None => 0xffff_ffff,
        };
        crate::bgzf::push_le32(&mut ref_id_buf, ref_id_value);

        let start_value: u64 = match records[i].alignment_start {
            Some(s) => s,
            None => 0,
        };
        push_le64(&mut start_buf, start_value);

        push_le64(&mut feature_buf, records[i].features.len() as u64);

        let ghost feats = records@[i as int].features@;
        let ghost feature_base = feature_buf@;
        let m = records[i].features.len();
        let mut k: usize = 0;

        proof {
            assert(feats.take(0) =~= Seq::<Feature>::empty());
        }

        while k < m
            invariant
                k <= m,
                i < n && n == rs0.len() && records@.len() == rs0.len(),
                substitution_matrix.wf(),
                m == feats.len(),
                feats == records@[i as int].features@,
                feature_buf@ == feature_base + spec_features_list_bytes(
                    substitution_matrix,
                    feats.take(k as int),
                ),
            decreases m - k,
        {
            proof {
                assert(feats.take(k as int + 1).drop_last() =~= feats.take(k as int));
                assert(feats.take(k as int + 1).last() == feats[k as int]);
            }
            append_feature(&mut feature_buf, substitution_matrix, &records[i].features[k]);
            k = k + 1;
        }

        proof {
            assert(feats.take(m as int) =~= feats);

            // the prepared record encodes exactly as the original does
            assert(spec_is_prepared(substitution_matrix, orig, prepared));
            assert(prepared.cram_bit_flags == spec_detached_flags(orig.cram_bit_flags));
            assert(feats == orig.features@.map_values(
                |f: Feature| spec_resolve_feature(substitution_matrix, f),
            ));
            lemma_features_list_resolved(substitution_matrix, orig.features@);
            assert(spec_features_list_bytes(substitution_matrix, feats)
                == spec_features_list_bytes(substitution_matrix, orig.features@));

            assert(rs0.take(i as int + 1).drop_last() =~= rs0.take(i as int));
            assert(rs0.take(i as int + 1).last() == rs0[i as int]);
            assert(core_buf@ =~= spec_encoded_flags(rs0.take(i as int)).push(
                spec_detached_flags(orig.cram_bit_flags),
            ));
            assert(spec_encoded_flags(rs0.take(i as int + 1)) =~= spec_encoded_flags(
                rs0.take(i as int),
            ).push(spec_detached_flags(orig.cram_bit_flags)));
        }

        i = i + 1;
    }

    proof {
        assert(rs0.take(n as int) =~= rs0);
    }

    (core_buf, ref_id_buf, start_buf, feature_buf)
}

/// A slice's header: the reference classification, the record and block
/// counts, the ordered block content ids, the reference digest, and the
/// alignment bounds.
#[derive(Clone, Debug)]
pub struct Header {
    /// The slice's reference classification.
    pub reference_sequence_id: ReferenceSequenceId,
    /// How many records the slice holds.
    pub record_count: usize,
    /// The running record counter the slice starts at.
    pub record_counter: i64,
    /// How many blocks the slice holds, the core data block included.
    pub block_count: usize,
    /// The content ids of the blocks, the core data block first.
    pub block_content_ids: Vec<i32>,
    /// The 16-byte MD5 digest of the covered reference region, or zeros.
    pub reference_md5: Vec<u8>,
    /// The least alignment start, for a single-reference slice.
    pub alignment_start: Option<u64>,
    /// The covered span, for a single-reference slice.
    pub alignment_span: Option<u64>,
}

/// A built slice: its header, the core data block, and the external data
/// blocks.
#[derive(Clone, Debug)]
pub struct Slice {
    /// The slice's header.
    pub header: Header,
    /// The core data block, content id 0.
    pub core_data_block: Block,
    /// The external data blocks, one per nonempty data series.
    pub external_blocks: Vec<Block>,
}

/// The digest a built slice carries: the MD5 of the inclusive reference
/// region a single-reference slice covers, and zeros otherwise.
pub open spec fn spec_slice_md5(
    records: Seq<Record>,
    header: &ReferenceSequences,
    repository: &Repository,
) -> Seq<u8> {
    match (spec_classification(records), spec_min_start(records), spec_max_end(records)) {
        (ReferenceSequenceId::Single(id), Some(s), Some(e)) => match repository.spec_get(
            header.spec_names()[id as int],
        ) {
            Some(sequence) => md5_of(sequence.subrange(s as int - 1, e as int)),
            None => Seq::new(16, |i: int| 0u8),
        },
        _ => Seq::new(16, |i: int| 0u8),
    }
}

/// The lookups `build` performs are owed by the caller: for a
/// single-reference slice with alignment bounds, the reference id indexes
/// the header's name table, the named sequence is in the repository, and
/// the bounds lie inside it. Anything else is a caller error.
pub open spec fn spec_md5_context_ok(
    records: Seq<Record>,
    header: &ReferenceSequences,
    repository: &Repository,
) -> bool {
    match (spec_classification(records), spec_min_start(records), spec_max_end(records)) {
        (ReferenceSequenceId::Single(id), Some(s), Some(e)) => {
            &&& 0 <= id < header.spec_names().len()
            &&& 1 <= s <= e
            &&& match repository.spec_get(header.spec_names()[id as int]) {
                Some(sequence) => e <= sequence.len(),
                None => false,
            }
        },
        _ => true,
    }
}

/// What a successful build promises of the slice, over the records the
/// builder held: classification, bounds and span, counts, content ids,
/// reference digest, and the exact compressed payload of every block.
pub open spec fn spec_built_slice_ok(
    records: Seq<Record>,
    repository: &Repository,
    header: &ReferenceSequences,
    m: &SubstitutionMatrix,
    record_counter: i64,
    slice: Slice,
) -> bool {
    let classification = spec_classification(records);
    let start = if classification matches ReferenceSequenceId::Single(_) {
        spec_min_start(records)
    } else {
        Option::<u64>::None
    };
    let end = if classification matches ReferenceSequenceId::Single(_) {
        spec_max_end(records)
    } else {
        Option::<u64>::None
    };
    &&& slice.header.reference_sequence_id == classification
    &&& slice.header.record_count == records.len()
    &&& slice.header.record_counter == record_counter
    &&& slice.header.alignment_start == start
    &&& slice.header.alignment_span == match (start, end) {
        (Option::Some(s), Option::Some(e)) => Option::Some((e - s + 1) as u64),
        _ => Option::<u64>::None,
    }
    &&& slice.header.reference_md5@ == spec_slice_md5(records, header, repository)
    &&& slice.header.block_count == 4
    &&& slice.header.block_content_ids@ == seq![0i32, 1i32, 2i32, 3i32]
    &&& slice.core_data_block.content_type == ContentType::CoreData
    &&& slice.core_data_block.content_id == CORE_DATA_BLOCK_CONTENT_ID
    &&& slice.core_data_block.data@ == gzip_of(spec_encoded_flags(records))
    &&& slice.core_data_block.uncompressed_len == records.len()
    &&& slice.external_blocks@.len() == 3
    &&& slice.external_blocks@[0].content_type == ContentType::ExternalData
    &&& slice.external_blocks@[0].content_id == 1
    &&& slice.external_blocks@[0].data@ == gzip_of(spec_ref_id_bytes(records))
    &&& slice.external_blocks@[1].content_type == ContentType::ExternalData
    &&& slice.external_blocks@[1].content_id == 2
    &&& slice.external_blocks@[1].data@ == gzip_of(spec_start_bytes(records))
    &&& slice.external_blocks@[2].content_type == ContentType::ExternalData
    &&& slice.external_blocks@[2].content_id == 3
    &&& slice.external_blocks@[2].data@ == gzip_of(spec_feature_series_bytes(m, records))
}

/// Encodes the records and packages the series buffers as blocks: the
/// core buffer becomes the core data block, the external buffers are
/// seeded for every data series id and every tag content id, the record
/// writer fills its series, and every nonempty buffer becomes an
/// external block in seeding order. Empty buffers are dropped.
#[verifier::rlimit(100)]
#[verifier::spinoff_prover]
fn write_records(compression_header: &CompressionHeader, records: &mut Vec<Record>) -> (res:
    Result<(Block, Vec<Block>), DecodeError>)
    requires
        compression_header.substitution_matrix.wf(),
        old(records)@.len() > 0,
        forall|i: int|
            0 <= i < old(records)@.len() ==> !spec_has_coded_substitution(
                (#[trigger] old(records)@[i]).features@,
            ),
    ensures
        final(records)@.len() == old(records)@.len(),
        res is Ok,
        res matches Ok(blocks) ==> ({
            let rs = old(records)@;
            let m = &compression_header.substitution_matrix;
            &&& blocks.0.content_type == ContentType::CoreData
            &&& blocks.0.content_id == CORE_DATA_BLOCK_CONTENT_ID
            &&& blocks.0.data@ == gzip_of(spec_encoded_flags(rs))
            &&& blocks.0.uncompressed_len == rs.len()
            &&& blocks.1@.len() == 3
            &&& blocks.1@[0].content_type == ContentType::ExternalData
            &&& blocks.1@[0].content_id == 1
            &&& blocks.1@[0].data@ == gzip_of(spec_ref_id_bytes(rs))
            &&& blocks.1@[1].content_type == ContentType::ExternalData
            &&& blocks.1@[1].content_id == 2
            &&& blocks.1@[1].data@ == gzip_of(spec_start_bytes(rs))
            &&& blocks.1@[2].content_type == ContentType::ExternalData
            &&& blocks.1@[2].content_id == 3
            &&& blocks.1@[2].data@ == gzip_of(spec_feature_series_bytes(m, rs))
        }),
{
    let ghost rs = records@;
    let n = records.len();

    let bufs = encode_records(&compression_header.substitution_matrix, records);
    let (core_buf, ref_id_buf, start_buf, feature_buf) = bufs;

    proof {
        lemma_ref_id_bytes_len(rs);
        lemma_start_bytes_len(rs);
        lemma_feature_series_bytes_len(&compression_header.substitution_matrix, rs);
    }

    // seed one buffer per well-known data series id
    let mut writers: Vec<(i32, Vec<u8>)> = Vec::new();
    let mut id: usize = 1;

    while id <= DATA_SERIES_COUNT
        invariant
            1 <= id <= DATA_SERIES_COUNT + 1,
            writers@.len() == id - 1,
            forall|j: int|
                0 <= j < writers@.len() ==> (#[trigger] writers@[j]).0 == j + 1 && writers@[
                    j
                ].1@.len() == 0,
        decreases DATA_SERIES_COUNT + 1 - id,
    {
        writers.push((id as i32, Vec::new()));
        id = id + 1;
    }

    // seed one buffer per tag content id not already covered
    let tag_count = compression_header.tag_encoding_ids.len();
    let mut t: usize = 0;

    while t < tag_count
        invariant
            t <= tag_count,
            tag_count == compression_header.tag_encoding_ids@.len(),
            writers@.len() >= DATA_SERIES_COUNT,
            forall|j: int|
                0 <= j < DATA_SERIES_COUNT ==> (#[trigger] writers@[j]).0 == j + 1 && writers@[
                    j
                ].1@.len() == 0,
            forall|j: int|
                DATA_SERIES_COUNT <= j < writers@.len() ==> (#[trigger] writers@[
                    j
                ]).1@.len() == 0,
        decreases tag_count - t,
    {
        let tag_id = compression_header.tag_encoding_ids[t];
        if tag_id < 1 || tag_id > DATA_SERIES_COUNT as i32 {
            writers.push((tag_id, Vec::new()));
        }
        t = t + 1;
    }

    // the record writer filled the first three series
    writers[0] = (1, ref_id_buf);
    writers[1] = (2, start_buf);
    writers[2] = (3, feature_buf);

    let core_data_block = match Block::compress(
        ContentType::CoreData,
        CORE_DATA_BLOCK_CONTENT_ID,
        core_buf.as_slice(),
    ) {
        Ok(b) => b,
        Err(e) => {
            return Err(e);
        },
    };

    // every nonempty buffer becomes an external block, in seeding order;
    // the record writer fills exactly the first three series, so those
    // become blocks and the rest of the seeded buffers are dropped
    let mut external_blocks: Vec<Block> = Vec::new();

    if !writers[0].1.is_empty() {
        let b = match Block::compress(
            ContentType::ExternalData,
            writers[0].0,
            writers[0].1.as_slice(),
        ) {
            Ok(b) => b,
            Err(e) => {
                return Err(e);
            },
        };
        external_blocks.push(b);
    }

    if !writers[1].1.is_empty() {
        let b = match Block::compress(
            ContentType::ExternalData,
            writers[1].0,
            writers[1].1.as_slice(),
        ) {
            Ok(b) => b,
            Err(e) => {
                return Err(e);
            },
        };
        external_blocks.push(b);
    }

    if !writers[2].1.is_empty() {
        let b = match Block::compress(
            ContentType::ExternalData,
            writers[2].0,
            writers[2].1.as_slice(),
        ) {
            Ok(b) => b,
            Err(e) => {
                return Err(e);
            },
        };
        external_blocks.push(b);
    }

    let writer_count = writers.len();
    let ghost blocks_before = external_blocks@;
    let mut w: usize = 3;

    while w < writer_count
        invariant
            3 <= w <= writer_count,
            writer_count == writers@.len(),
            forall|j: int| 3 <= j < writers@.len() ==> (#[trigger] writers@[j]).1@.len() == 0,
            external_blocks@ == blocks_before,
        decreases writer_count - w,
    {
        if !writers[w].1.is_empty() {
            let b = match Block::compress(
                ContentType::ExternalData,
                writers[w].0,
                writers[w].1.as_slice(),
            ) {
                Ok(b) => b,
                Err(e) => {
                    return Err(e);
                },
            };
            external_blocks.push(b);
        }
        w = w + 1;
    }

    Ok((core_data_block, external_blocks))
}

/// A vector of sixteen zero bytes, the digest of an unmapped or
/// multi-reference slice.
fn zero_md5() -> (v: Vec<u8>)
    ensures
        v@ == Seq::new(16, |i: int| 0u8),
{
    let mut zeros: Vec<u8> = Vec::new();
    let mut z: usize = 0;

    while z < 16
        invariant
            z <= 16,
            zeros@.len() == z,
            forall|j: int| 0 <= j < z ==> zeros@[j] == 0u8,
        decreases 16 - z,
    {
        zeros.push(0);
        z = z + 1;
    }

    proof {
        assert(zeros@ =~= Seq::new(16, |i: int| 0u8));
    }

    zeros
}

/// Digests the covered reference region of a single-reference slice with
/// alignment bounds; any other slice digests to zeros.
fn compute_reference_md5(
    classification: ReferenceSequenceId,
    bounds: (Option<u64>, Option<u64>),
    header: &ReferenceSequences,
    repository: &Repository,
    Ghost(rs): Ghost<Seq<Record>>,
) -> (v: Vec<u8>)
    requires
        rs.len() > 0,
        classification == spec_classification(rs),
        bounds.0 == if classification matches ReferenceSequenceId::Single(_) {
            spec_min_start(rs)
        } else {
            Option::<u64>::None
        },
        bounds.1 == if classification matches ReferenceSequenceId::Single(_) {
            spec_max_end(rs)
        } else {
            Option::<u64>::None
        },
        spec_md5_context_ok(rs, header, repository),
    ensures
        v@ == spec_slice_md5(rs, header, repository),
{
    match (classification, bounds.0, bounds.1) {
        (ReferenceSequenceId::Single(id), Some(s), Some(e)) => {
            proof {
                assert(spec_classification(rs) == ReferenceSequenceId::Single(id));
                assert(spec_min_start(rs) == Some(s));
                assert(spec_max_end(rs) == Some(e));
                assert(0 <= id < header.spec_names().len());
                assert(1 <= s <= e);
                assert(match repository.spec_get(header.spec_names()[id as int]) {
                    Some(sequence) => e <= sequence.len(),
                    None => false,
                });
            }
            let name = header.name(id as usize);
            match repository.get(name.as_slice()) {
                Some(sequence) => {
                    proof {
                        assert(repository.spec_get(name@) == Some(sequence@));
                        assert(e <= sequence@.len());
                    }
                    let sequence_len = sequence.len();
                    proof {
                        assert(e <= sequence_len);
                    }
                    let covered = vstd::slice::slice_subrange(
                        sequence.as_slice(),
                        (s - 1) as usize,
                        e as usize,
                    );
                    let digest = md5_digest(covered);
                    proof {
                        assert(covered@ == sequence@.subrange(s as int - 1, e as int));
                        assert(digest@ == spec_slice_md5(rs, header, repository));
                    }
                    digest
                },
                None => {
                    proof {
                        assert(false);
                    }
                    Vec::new()
                },
            }
        },
        _ => zero_md5(),
    }
}

impl Builder {
    /// Builds the slice: classifies the reference, scans the alignment
    /// bounds, prepares and encodes every record into the core and
    /// external blocks, digests the covered reference region, and
    /// assembles the header.
    ///
    /// Fails only when a block fails to compress. Building from an empty
    /// record set, or against a context missing the covered reference,
    /// is a caller error excluded by contract.
    #[verifier::rlimit(100)]
    #[verifier::spinoff_prover]
    pub fn build(
        self,
        reference_sequence_repository: &Repository,
        header: &ReferenceSequences,
        compression_header: &CompressionHeader,
        record_counter: i64,
    ) -> (res: Result<Slice, DecodeError>)
        requires
            self.wf(),
            self.spec_records().len() > 0,
            compression_header.substitution_matrix.wf(),
            forall|i: int|
                0 <= i < self.spec_records().len() ==> !spec_has_coded_substitution(
                    (#[trigger] self.spec_records()[i]).features@,
                ),
            spec_md5_context_ok(self.spec_records(), header, reference_sequence_repository),
        ensures
            res is Ok,
            res matches Ok(slice) ==> spec_built_slice_ok(
                self.spec_records(),
                reference_sequence_repository,
                header,
                &compression_header.substitution_matrix,
                record_counter,
                slice,
            ),
    {
        let mut records = self.records;
        let ghost rs = records@;

        let classification = find_slice_reference_sequence_id(records.as_slice());

        let bounds: (Option<u64>, Option<u64>) = match classification {
            ReferenceSequenceId::Single(_) => find_slice_alignment_positions(
                records.as_slice(),
            ),
            _ => (None, None),
        };

        let blocks = match write_records(compression_header, &mut records) {
            Ok(b) => b,
            Err(e) => {
                return Err(e);
            },
        };
        let (core_data_block, external_blocks) = blocks;

        let mut block_content_ids: Vec<i32> = Vec::new();
        block_content_ids.push(CORE_DATA_BLOCK_CONTENT_ID);
        block_content_ids.push(external_blocks[0].content_id);
        block_content_ids.push(external_blocks[1].content_id);
        block_content_ids.push(external_blocks[2].content_id);

        proof {
            assert(block_content_ids@ =~= seq![0i32, 1i32, 2i32, 3i32]);
        }

        let reference_md5: Vec<u8> = compute_reference_md5(
            classification,
            bounds,
            header,
            reference_sequence_repository,
            Ghost(rs),
        );

        let alignment_span: Option<u64> = match (bounds.0, bounds.1) {
            (Some(s), Some(e)) => Some(e - s + 1),
            _ => None,
        };

        let slice_header = Header {
            reference_sequence_id: classification,
            record_count: records.len(),
            record_counter,
            block_count: block_content_ids.len(),
            block_content_ids,
            reference_md5,
            alignment_start: bounds.0,
            alignment_span,
        };

        Ok(Slice { header: slice_header, core_data_block, external_blocks })
    }
}

/// Resolving every feature of a list leaves its wire image unchanged.
pub proof fn lemma_features_list_resolved(m: &SubstitutionMatrix, fs: Seq<Feature>)
    ensures
        spec_features_list_bytes(
            m,
            fs.map_values(|f: Feature| spec_resolve_feature(m, f)),
        ) == spec_features_list_bytes(m, fs),
    decreases fs.len(),
{
    let mapped = fs.map_values(|f: Feature| spec_resolve_feature(m, f));
    if fs.len() > 0 {
        assert(mapped.drop_last() =~= fs.drop_last().map_values(
            |f: Feature| spec_resolve_feature(m, f),
        ));
        assert(mapped.last() == spec_resolve_feature(m, fs.last()));
        lemma_features_list_resolved(m, fs.drop_last());
        lemma_feature_bytes_resolved(m, fs.last());
    } else {
        assert(mapped =~= Seq::<Feature>::empty());
    }
}

} // verus!
