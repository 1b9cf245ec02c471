//! In-memory alignment records as the slice builder consumes them, with
//! the substitution machinery that resolves base pairs to matrix codes.

use vstd::prelude::*;

verus! {

/// The flag bit marking a record as detached from its mate pair.
pub const FLAG_DETACHED: u8 = 0x02;

/// The flag bit marking a record whose mate is downstream in the slice.
pub const FLAG_HAS_MATE_DOWNSTREAM: u8 = 0x04;

/// A base of the substitution alphabet.
#[derive(Clone, Copy, Debug, PartialEq, Eq, Structural)]
pub enum Base {
    A,
    C,
    G,
    T,
    N,
}

impl Base {
    /// The base's row (or column) in the substitution matrix.
    pub open spec fn spec_index(&self) -> int {
        match self {
            Base::A => 0,
            Base::C => 1,
            Base::G => 2,
            Base::T => 3,
            Base::N => 4,
        }
    }

    /// The base's row (or column) in the substitution matrix.
    pub fn index(&self) -> (i: usize)
        ensures
            i == self.spec_index(),
            i < 5,
    {
        match self {
            Base::A => 0,
            Base::C => 1,
            Base::G => 2,
            Base::T => 3,
            Base::N => 4,
        }
    }
}

/// The value of a substitution feature: either the observed base pair,
/// or the matrix code it resolves to.
#[derive(Clone, Copy, Debug, PartialEq, Eq, Structural)]
pub enum SubstitutionValue {
    /// The reference base and the read base.
    Bases(Base, Base),
    /// The resolved substitution code.
    Code(u8),
}

/// One feature of a record's alignment, at a 1-based read position.
#[derive(Clone, Debug, PartialEq, Eq)]
pub enum Feature {
    /// A single-base substitution.
    Substitution(u64, SubstitutionValue),
    /// An insertion of bases.
    Insertion(u64, Vec<u8>),
    /// A deletion of the given length.
    Deletion(u64, u64),
}

/// The substitution matrix of a compression header: one code for each
/// ordered pair of bases, stored row-major.
#[derive(Clone, Debug)]
pub struct SubstitutionMatrix {
    codes: Vec<u8>,
}

impl SubstitutionMatrix {
    /// The code table, row-major.
    pub closed spec fn spec_codes(&self) -> Seq<u8> {
        self.codes@
    }

    /// The table covers all ordered base pairs.
    pub open spec fn wf(&self) -> bool {
        self.spec_codes().len() == 25
    }

    /// The code of an ordered base pair.
    pub open spec fn spec_find_code(&self, reference_base: Base, read_base: Base) -> u8 {
        self.spec_codes()[reference_base.spec_index() * 5 + read_base.spec_index()]
    }

    /// Creates a matrix from its row-major code table.
    pub fn new(codes: Vec<u8>) -> (m: SubstitutionMatrix)
        requires
            codes@.len() == 25,
        ensures
            m.spec_codes() == codes@,
            m.wf(),
    {
        SubstitutionMatrix { codes }
    }

    /// Looks up the code of an ordered base pair.
    pub fn find_code(&self, reference_base: Base, read_base: Base) -> (c: u8)
        requires
            self.wf(),
        ensures
            c == self.spec_find_code(reference_base, read_base),
    {
        self.codes[reference_base.index() * 5 + read_base.index()]
    }
}

/// An in-memory alignment record.
#[derive(Clone, Debug, PartialEq, Eq)]
pub struct Record {
    /// The reference sequence the record aligns to, if any.
    pub reference_sequence_id: Option<u32>,
    /// The 1-based alignment start, if mapped.
    pub alignment_start: Option<u64>,
    /// The 1-based alignment end, if mapped.
    pub alignment_end: Option<u64>,
    /// The record's alignment features.
    pub features: Vec<Feature>,
    /// The record's CRAM bit flags.
    pub cram_bit_flags: u8,
    /// The distance to the next fragment of the template, if attached.
    pub distance_to_next_fragment: Option<i32>,
}

/// Whether any feature already carries a resolved substitution code.
pub open spec fn spec_has_coded_substitution(features: Seq<Feature>) -> bool {
    exists|i: int|
        0 <= i < features.len() && (#[trigger] features[i]) matches Feature::Substitution(
            _,
            SubstitutionValue::Code(_),
        )
}

/// A feature with its substitution pair resolved to a matrix code; other
/// features are untouched.
pub open spec fn spec_resolve_feature(m: &SubstitutionMatrix, f: Feature) -> Feature {
    match f {
        Feature::Substitution(pos, SubstitutionValue::Bases(reference_base, read_base)) =>
            Feature::Substitution(
            pos,
            SubstitutionValue::Code(m.spec_find_code(reference_base, read_base)),
        ),
        _ => f,
    }
}

/// Rewrites every substitution feature in base-pair form to its matrix
/// code. A feature already in code form is a caller error, excluded by
/// contract.
pub fn update_substitution_features(
    substitution_matrix: &SubstitutionMatrix,
    features: &mut Vec<Feature>,
)
    requires
        substitution_matrix.wf(),
        !spec_has_coded_substitution(old(features)@),
    ensures
        final(features)@ == old(features)@.map_values(
            |f: Feature| spec_resolve_feature(substitution_matrix, f),
        ),
{
    let ghost fs0 = features@;
    let n = features.len();
    let mut i: usize = 0;

    while i < n
        invariant
            i <= n,
            n == fs0.len(),
            features@.len() == fs0.len(),
            substitution_matrix.wf(),
            forall|j: int|
                0 <= j < i ==> features@[j] == spec_resolve_feature(
                    substitution_matrix,
                    fs0[j],
                ),
            forall|j: int| i <= j < n ==> features@[j] == fs0[j],
            !spec_has_coded_substitution(fs0),
        decreases n - i,
    {
        let replacement = match &features[i] {
            Feature::Substitution(pos, SubstitutionValue::Bases(reference_base, read_base)) => {
                let code = substitution_matrix.find_code(*reference_base, *read_base);
                Some(Feature::Substitution(*pos, SubstitutionValue::Code(code)))
            },
            _ => None,
        };

        if let Some(f) = replacement {
            features[i] = f;
        }

        i = i + 1;
    }

    proof {
        assert(features@ =~= fs0.map_values(
            |f: Feature| spec_resolve_feature(substitution_matrix, f),
        ));
    }
}

/// The bit flags of a record forced to detached form: the detached flag
/// set, the downstream-mate flag cleared.
pub open spec fn spec_detached_flags(flags: u8) -> u8 {
    (flags | FLAG_DETACHED) & !FLAG_HAS_MATE_DOWNSTREAM
}

/// How a record prepared for encoding relates to its original: alignment
/// fields kept, substitutions resolved, mate state forced to detached.
pub open spec fn spec_is_prepared(m: &SubstitutionMatrix, r0: Record, r: Record) -> bool {
    &&& r.reference_sequence_id == r0.reference_sequence_id
    &&& r.alignment_start == r0.alignment_start
    &&& r.alignment_end == r0.alignment_end
    &&& r.features@ == r0.features@.map_values(|f: Feature| spec_resolve_feature(m, f))
    &&& r.cram_bit_flags == spec_detached_flags(r0.cram_bit_flags)
    &&& r.distance_to_next_fragment is None
}

/// Prepares one record for encoding: rewrites its substitution features
/// to matrix codes and forces it to detached form, dropping the link to
/// the next fragment.
pub fn prepare_record(substitution_matrix: &SubstitutionMatrix, record: &mut Record)
    requires
        substitution_matrix.wf(),
        !spec_has_coded_substitution(old(record).features@),
    ensures
        spec_is_prepared(substitution_matrix, *old(record), *final(record)),
{
    update_substitution_features(substitution_matrix, &mut record.features);
    record.cram_bit_flags = (record.cram_bit_flags | FLAG_DETACHED) & !FLAG_HAS_MATE_DOWNSTREAM;
    record.distance_to_next_fragment = None;
}

} // verus!
