//! The reference-sequence context a slice is built against: the header's
//! id-to-name table, a name-keyed repository of sequences, and the MD5
//! digest of the covered region.

use vstd::prelude::*;
use md5::Digest;

verus! {

/// What the MD5 digest of a byte sequence is.
pub uninterp spec fn md5_of(data: Seq<u8>) -> Seq<u8>;

/// Relies on the `Md5` hasher of the `md-5` crate: the 16-byte digest of
/// the input bytes, a pure function of those bytes.
#[verifier::external_body]
pub(crate) fn md5_digest(data: &[u8]) -> (r: Vec<u8>)
    ensures
        r@ == md5_of(data@),
        r@.len() == 16,
{
    let mut hasher = md5::Md5::new();
    hasher.update(data);
    hasher.finalize().to_vec()
}

/// Compares two byte strings.
pub fn bytes_eq(a: &[u8], b: &[u8]) -> (r: bool)
    ensures
        r == (a@ == b@),
{
    if a.len() != b.len() {
        proof {
            assert(a@ != b@);
        }
        return false;
    }

    let n = a.len();
    let mut i: usize = 0;

    while i < n
        invariant
            i <= n,
            n == a@.len() == b@.len(),
            forall|j: int| 0 <= j < i ==> a@[j] == b@[j],
        decreases n - i,
    {
        if a[i] != b[i] {
            return false;
        }
        i = i + 1;
    }

    proof {
        assert(a@ =~= b@);
    }
    true
}

/// The reference-sequence names of an alignment header, indexed by
/// reference sequence id.
#[derive(Clone, Debug)]
pub struct ReferenceSequences {
    /// The names, in id order.
    pub names: Vec<Vec<u8>>,
}

impl ReferenceSequences {
    /// The name table as sequences.
    pub open spec fn spec_names(&self) -> Seq<Seq<u8>> {
        self.names@.map_values(|n: Vec<u8>| n@)
    }

    /// Creates a name table.
    pub fn new(names: Vec<Vec<u8>>) -> (r: ReferenceSequences)
        ensures
            r.names@ == names@,
    {
        ReferenceSequences { names }
    }

    /// The number of reference sequences.
    pub fn len(&self) -> (n: usize)
        ensures
            n == self.spec_names().len(),
    {
        self.names.len()
    }

    /// The name of the reference sequence with the given id.
    pub fn name(&self, id: usize) -> (n: &Vec<u8>)
        requires
            id < self.spec_names().len(),
        ensures
            n@ == self.spec_names()[id as int],
    {
        &self.names[id]
    }
}

/// A repository of reference sequences keyed by name.
#[derive(Clone, Debug)]
pub struct Repository {
    entries: Vec<(Vec<u8>, Vec<u8>)>,
}

/// The first sequence stored under `name`, if any.
pub open spec fn spec_lookup(entries: Seq<(Vec<u8>, Vec<u8>)>, name: Seq<u8>) -> Option<
    Seq<u8>,
>
    decreases entries.len(),
{
    if entries.len() == 0 {
        None
    } else if entries[0].0@ == name {
        Some(entries[0].1@)
    } else {
        spec_lookup(entries.drop_first(), name)
    }
}

impl Repository {
    /// The stored entries, in insertion order.
    pub closed spec fn spec_entries(&self) -> Seq<(Vec<u8>, Vec<u8>)> {
        self.entries@
    }

    /// The sequence stored under `name`, if any.
    pub open spec fn spec_get(&self, name: Seq<u8>) -> Option<Seq<u8>> {
        spec_lookup(self.spec_entries(), name)
    }

    /// An empty repository.
    pub fn new() -> (r: Repository)
        ensures
            r.spec_entries() == Seq::<(Vec<u8>, Vec<u8>)>::empty(),
    {
        Repository { entries: Vec::new() }
    }

    /// Stores a sequence under a name.
    pub fn insert(&mut self, name: Vec<u8>, sequence: Vec<u8>)
        ensures
            final(self).spec_entries() == old(self).spec_entries().push((name, sequence)),
    {
        self.entries.push((name, sequence));
    }

    /// Looks a sequence up by name.
    pub fn get(&self, name: &[u8]) -> (r: Option<&Vec<u8>>)
        ensures
            match r {
                Some(sequence) => self.spec_get(name@) == Some(sequence@),
                None => self.spec_get(name@) is None,
            },
    {
        let n = self.entries.len();
        let mut i: usize = 0;

        proof {
            assert(self.spec_entries().skip(0) =~= self.spec_entries());
        }

        while i < n
            invariant
                i <= n,
                n == self.spec_entries().len(),
                spec_lookup(self.spec_entries(), name@) == spec_lookup(
                    self.spec_entries().skip(i as int),
                    name@,
                ),
            decreases n - i,
        {
            proof {
                assert(self.spec_entries().skip(i as int).drop_first() =~= self.spec_entries()
                    .skip(i as int + 1));
                assert(self.spec_entries().skip(i as int)[0] == self.spec_entries()[i as int]);
            }
            if bytes_eq(self.entries[i].0.as_slice(), name) {
                return Some(&self.entries[i].1);
            }
            i = i + 1;
        }

        proof {
            assert(self.spec_entries().skip(n as int) =~= Seq::<(Vec<u8>, Vec<u8>)>::empty());
        }
        None
    }
}

} // verus!
