//! The adaptive symbol model of the CRAM range coder.
//!
//! The model keeps a self-organizing symbol table with per-symbol
//! frequencies. Decoding takes the scaled frequency target the range coder
//! drew, selects the symbol whose cumulative frequency range covers it,
//! boosts that symbol, renormalizes when the total grows too large, and
//! bubbles the symbol one slot forward when it overtakes its neighbor.
//! The range coder itself is an outside collaborator: the caller draws the
//! target from it and hands the decoded bounds back to it.

use vstd::prelude::*;

verus! {

/// The largest total frequency the model tolerates before renormalizing.
pub const MAX_TOTAL_FREQUENCY: u32 = 65519;

/// The amount a decoded symbol's frequency is boosted by.
pub const FREQUENCY_BOOST: u32 = 16;

/// The largest slack by which the true sum of the table may exceed the
/// running total: the skewed initial table starts with at most this much.
pub const MAX_FREQUENCY_SLACK: u32 = 32385;

/// The sum of a frequency table.
pub open spec fn sum_freqs(s: Seq<u32>) -> int
    decreases s.len(),
{
    if s.len() == 0 {
        0
    } else {
        sum_freqs(s.drop_last()) + s.last()
    }
}

/// The sum of the first `i` entries of a frequency table.
pub open spec fn prefix_sum(s: Seq<u32>, i: int) -> int {
    sum_freqs(s.take(i))
}

/// Extending a prefix by one entry adds that entry to its sum.
pub proof fn lemma_prefix_sum_step(s: Seq<u32>, i: int)
    requires
        0 <= i < s.len(),
    ensures
        prefix_sum(s, i + 1) == prefix_sum(s, i) + s[i],
{
    assert(s.take(i + 1).drop_last() =~= s.take(i));
    assert(s.take(i + 1).last() == s[i]);
}

/// The sum of a full table equals the prefix sum over its whole length.
pub proof fn lemma_prefix_sum_all(s: Seq<u32>)
    ensures
        prefix_sum(s, s.len() as int) == sum_freqs(s),
{
    assert(s.take(s.len() as int) =~= s);
}

/// Every entry is nonnegative, so prefix sums never decrease.
pub proof fn lemma_prefix_sum_monotonic(s: Seq<u32>, i: int, j: int)
    requires
        0 <= i <= j <= s.len(),
    ensures
        prefix_sum(s, i) <= prefix_sum(s, j),
    decreases j - i,
{
    if i < j {
        lemma_prefix_sum_step(s, j - 1);
        lemma_prefix_sum_monotonic(s, i, j - 1);
    }
}

/// Updating one entry changes the sum by the difference at that entry.
pub proof fn lemma_sum_update(s: Seq<u32>, i: int, v: u32)
    requires
        0 <= i < s.len(),
    ensures
        sum_freqs(s.update(i, v)) == sum_freqs(s) - s[i] + v,
    decreases s.len(),
{
    if i == s.len() - 1 {
        assert(s.update(i, v).drop_last() =~= s.drop_last());
        assert(s.update(i, v).last() == v);
    } else {
        assert(s.update(i, v).drop_last() =~= s.drop_last().update(i, v));
        assert(s.update(i, v).last() == s.last());
        lemma_sum_update(s.drop_last(), i, v);
    }
}

/// Swapping two entries leaves the sum unchanged.
pub proof fn lemma_sum_swap(s: Seq<u32>, i: int, j: int)
    requires
        0 <= i < s.len(),
        0 <= j < s.len(),
        i != j,
    ensures
        sum_freqs(s.update(i, s[j]).update(j, s[i])) == sum_freqs(s),
{
    lemma_sum_update(s, i, s[j]);
    lemma_sum_update(s.update(i, s[j]), j, s[i]);
}

/// A table where every frequency was halved, rounding up.
pub open spec fn halve_freqs(s: Seq<u32>) -> Seq<u32> {
    Seq::new(s.len(), |i: int| (s[i] - s[i] / 2) as u32)
}

/// The index the linear scan selects: the least `x` whose cumulative
/// frequency range `[prefix_sum(x), prefix_sum(x + 1))` lies above `f`.
pub open spec fn spec_decode_index(s: Seq<u32>, f: int, x: int) -> int
    decreases s.len() - x,
{
    if x < 0 || x >= s.len() {
        x
    } else if prefix_sum(s, x) + s[x] > f {
        x
    } else {
        spec_decode_index(s, f, x + 1)
    }
}

/// The outcome of decoding one symbol: the symbol itself and the bounds
/// the range coder advances by.
#[derive(Clone, Copy, Debug, PartialEq, Eq, Structural)]
pub struct DecodedSymbol {
    /// The decoded symbol.
    pub symbol: u8,
    /// The cumulative frequency of all symbols before the decoded one.
    pub cumulative_frequency: u32,
    /// The frequency of the decoded symbol.
    pub frequency: u32,
}

/// An adaptive range-coder symbol model.
#[derive(Clone, Debug)]
pub struct Model {
    total_freq: u32,
    symbols: Vec<u8>,
    frequencies: Vec<u32>,
}

impl Model {
    /// The symbol table.
    pub closed spec fn spec_symbols(&self) -> Seq<u8> {
        self.symbols@
    }

    /// The frequency table.
    pub closed spec fn spec_frequencies(&self) -> Seq<u32> {
        self.frequencies@
    }

    /// The running total frequency.
    pub closed spec fn spec_total_freq(&self) -> u32 {
        self.total_freq
    }

    /// Well-formedness: the two tables run in parallel, the total never
    /// exceeds the renormalization bound, the total never exceeds the true
    /// sum (so a target below the total always selects a symbol), and the
    /// true sum exceeds the total by at most the initial slack.
    pub open spec fn wf(&self) -> bool {
        &&& self.spec_symbols().len() == self.spec_frequencies().len()
        &&& self.spec_frequencies().len() <= 255
        &&& self.spec_total_freq() <= MAX_TOTAL_FREQUENCY
        &&& self.spec_total_freq() as int <= sum_freqs(self.spec_frequencies())
        &&& sum_freqs(self.spec_frequencies()) <= self.spec_total_freq() as int
            + MAX_FREQUENCY_SLACK
    }

    /// Creates a model over the alphabet `0..num_sym` with the skewed
    /// initial frequencies `frequencies[i] == i` and total `num_sym`.
    ///
    /// The initial table undersells symbols `0` and `1`, so the model is
    /// well-formed (and thus decodable) only for alphabets of at least
    /// three symbols; this skew is part of the wire contract.
    pub fn new(num_sym: u8) -> (m: Model)
        ensures
            m.spec_symbols() == Seq::new(num_sym as nat, |i: int| i as u8),
            m.spec_frequencies() == Seq::new(num_sym as nat, |i: int| i as u32),
            m.spec_total_freq() == num_sym as u32,
            num_sym == 0 || num_sym >= 3 ==> m.wf(),
    {
        let len = num_sym as usize;
        let mut symbols: Vec<u8> = Vec::with_capacity(len);
        let mut frequencies: Vec<u32> = Vec::with_capacity(len);

        let mut i: usize = 0;

        while i < len
            invariant
                i <= len,
                len == num_sym as usize,
                symbols@ == Seq::new(i as nat, |k: int| k as u8),
                frequencies@ == Seq::new(i as nat, |k: int| k as u32),
                2 * sum_freqs(frequencies@) == i as int * (i as int - 1),
            decreases len - i,
        {
            let ghost pre = frequencies@;
            symbols.push(i as u8);
            frequencies.push(i as u32);
            proof {
                assert(symbols@ =~= Seq::new((i + 1) as nat, |k: int| k as u8));
                assert(frequencies@ =~= Seq::new((i + 1) as nat, |k: int| k as u32));
                assert(frequencies@.drop_last() =~= pre);
                assert(i as int * (i as int - 1) + 2 * i as int == (i as int + 1) * (i as int
                    + 1 - 1)) by (nonlinear_arith);
            }
            i = i + 1;
        }

        let m = Model { total_freq: num_sym as u32, symbols, frequencies };

        proof {
            let n = num_sym as int;
            if num_sym >= 3 {
                assert(2 * n <= n * (n - 1) && n * (n - 1) <= 255 * 254) by (nonlinear_arith)
                    requires
                        3 <= n <= 255,
                ;
            }
        }

        m
    }

    /// The number of symbols in the alphabet.
    pub fn len(&self) -> (n: usize)
        ensures
            n == self.spec_symbols().len(),
    {
        self.symbols.len()
    }

    /// The running total frequency, which the caller hands to the range
    /// coder to draw the next scaled frequency target.
    pub fn total_freq(&self) -> (t: u32)
        ensures
            t == self.spec_total_freq(),
    {
        self.total_freq
    }

    /// Halves every frequency (rounding up, so nonzero frequencies stay
    /// nonzero) and recomputes the total as the exact sum.
    fn renormalize(&mut self)
        requires
            old(self).spec_frequencies().len() <= 255,
            sum_freqs(old(self).spec_frequencies()) <= 0xffff_ffff,
        ensures
            final(self).spec_symbols() == old(self).spec_symbols(),
            final(self).spec_frequencies() == halve_freqs(old(self).spec_frequencies()),
            final(self).spec_total_freq() as int == sum_freqs(final(self).spec_frequencies()),
            2 * final(self).spec_total_freq() as int <= sum_freqs(
                old(self).spec_frequencies(),
            ) + old(self).spec_frequencies().len(),
    {
        let ghost fs0 = self.frequencies@;
        let len = self.frequencies.len();
        let mut total: u32 = 0;
        let mut i: usize = 0;

        proof {
            lemma_prefix_sum_all(fs0);
            assert(fs0.take(0) =~= Seq::<u32>::empty());
        }

        while i < len
            invariant
                i <= len,
                len == fs0.len(),
                fs0.len() <= 255,
                self.symbols@ == old(self).symbols@,
                self.total_freq == old(self).total_freq,
                self.frequencies@.len() == fs0.len(),
                forall|j: int| 0 <= j < i ==> self.frequencies@[j] == halve_freqs(fs0)[j],
                forall|j: int| i <= j < len ==> self.frequencies@[j] == fs0[j],
                total as int == sum_freqs(self.frequencies@.take(i as int)),
                2 * total as int <= prefix_sum(fs0, i as int) + i,
                prefix_sum(fs0, fs0.len() as int) == sum_freqs(fs0),
                sum_freqs(fs0) <= 0xffff_ffff,
            decreases len - i,
        {
            proof {
                lemma_prefix_sum_step(fs0, i as int);
                lemma_prefix_sum_monotonic(fs0, i as int + 1, fs0.len() as int);
            }
            let ghost pre = self.frequencies@;
            let v = self.frequencies[i];
            let halved = v - v / 2;
            self.frequencies[i] = halved;
            proof {
                assert(self.frequencies@.take(i as int) =~= pre.take(i as int));
                assert(self.frequencies@.take(i as int + 1).drop_last() =~= pre.take(i as int));
                assert(self.frequencies@.take(i as int + 1).last() == halved);
                assert(v == fs0[i as int]);
                assert(2 * (halved as int) <= v as int + 1);
                assert(2 * (total as int + halved as int) <= prefix_sum(fs0, i as int + 1) + i
                    + 1);
                assert(prefix_sum(fs0, i as int + 1) <= sum_freqs(fs0));
                assert(total as int + halved as int <= 0xffff_ffff);
            }
            total = total + halved;
            i = i + 1;
        }

        self.total_freq = total;

        proof {
            assert(self.frequencies@ =~= halve_freqs(fs0));
            assert(self.frequencies@.take(len as int) =~= self.frequencies@);
        }
    }

    /// Decodes one symbol from the scaled frequency target `f` the range
    /// coder drew for the current total.
    ///
    /// Returns the symbol together with the cumulative-frequency bounds
    /// that the caller hands back to the range coder's decode step. The
    /// decoded symbol's frequency is boosted, the table is renormalized
    /// when the total would pass the bound, and the symbol trades places
    /// with its left neighbor when its frequency has overtaken it. After
    /// the decode the total still respects the renormalization bound, and
    /// a table whose total was the exact sum keeps that exactness.
    ///
    /// The model commits its update here, before the caller runs the
    /// range coder's own decode step: should that step fail, the model
    /// keeps the updated table, and decoder synchronization is lost
    /// either way.
    pub fn decode(&mut self, f: u32) -> (d: DecodedSymbol)
        requires
            old(self).wf(),
            f < old(self).spec_total_freq(),
        ensures
            ({
                let fs0 = old(self).spec_frequencies();
                let syms0 = old(self).spec_symbols();
                let idx = spec_decode_index(fs0, f as int, 0);
                let bumped = fs0.update(idx, (fs0[idx] + FREQUENCY_BOOST) as u32);
                let renormed = if old(self).spec_total_freq() + FREQUENCY_BOOST
                    > MAX_TOTAL_FREQUENCY {
                    halve_freqs(bumped)
                } else {
                    bumped
                };
                let swap = idx > 0 && renormed[idx] > renormed[idx - 1];
                &&& 0 <= idx < fs0.len()
                &&& d.symbol == syms0[idx]
                &&& d.cumulative_frequency as int == prefix_sum(fs0, idx)
                &&& d.frequency == fs0[idx]
                &&& prefix_sum(fs0, idx) <= f as int
                &&& prefix_sum(fs0, idx) + fs0[idx] > f as int
                &&& final(self).spec_frequencies() == if swap {
                    renormed.update(idx - 1, renormed[idx]).update(idx, renormed[idx - 1])
                } else {
                    renormed
                }
                &&& final(self).spec_symbols() == if swap {
                    syms0.update(idx - 1, syms0[idx]).update(idx, syms0[idx - 1])
                } else {
                    syms0
                }
                &&& idx > 0 ==> final(self).spec_frequencies()[idx - 1]
                    >= final(self).spec_frequencies()[idx]
            }),
            final(self).wf(),
            final(self).spec_total_freq() <= MAX_TOTAL_FREQUENCY,
            sum_freqs(old(self).spec_frequencies()) == old(self).spec_total_freq() as int
                ==> sum_freqs(final(self).spec_frequencies())
                    == final(self).spec_total_freq() as int,
    {
        let ghost fs0 = self.frequencies@;
        let ghost idx = spec_decode_index(fs0, f as int, 0);

        proof {
            lemma_prefix_sum_all(fs0);
            if fs0.len() == 0 {
                assert(sum_freqs(fs0) == 0);
                assert(false);
            }
            assert(fs0.take(0) =~= Seq::<u32>::empty());
            lemma_prefix_sum_step(fs0, 0);
            lemma_prefix_sum_monotonic(fs0, 1, fs0.len() as int);
        }

        let mut acc: u32 = 0;
        let mut x: usize = 0;

        while acc + self.frequencies[x] <= f
            invariant
                self == old(self),
                fs0 == self.frequencies@,
                self.wf(),
                f < self.total_freq,
                0 <= x < fs0.len(),
                acc as int == prefix_sum(fs0, x as int),
                acc <= f,
                prefix_sum(fs0, x as int) + fs0[x as int] <= sum_freqs(fs0),
                spec_decode_index(fs0, f as int, x as int) == idx,
                prefix_sum(fs0, fs0.len() as int) == sum_freqs(fs0),
            decreases fs0.len() - x,
        {
            proof {
                lemma_prefix_sum_step(fs0, x as int);
                if x as int + 1 == fs0.len() {
                    assert(false);
                }
                lemma_prefix_sum_step(fs0, x as int + 1);
                lemma_prefix_sum_monotonic(fs0, x as int + 2, fs0.len() as int);
            }
            acc = acc + self.frequencies[x];
            x = x + 1;
        }

        proof {
            assert(idx == x as int);
            lemma_prefix_sum_monotonic(fs0, 0, x as int);
            assert(fs0.take(0) =~= Seq::<u32>::empty());
        }

        let d = DecodedSymbol {
            symbol: self.symbols[x],
            cumulative_frequency: acc,
            frequency: self.frequencies[x],
        };

        let bumped = self.frequencies[x] + FREQUENCY_BOOST;
        self.frequencies[x] = bumped;
        self.total_freq = self.total_freq + FREQUENCY_BOOST;

        proof {
            lemma_sum_update(fs0, x as int, bumped);
        }

        if self.total_freq > MAX_TOTAL_FREQUENCY {
            self.renormalize();
        }

        let ghost renormed = self.frequencies@;

        if x > 0 {
            let left = self.frequencies[x - 1];
            let right = self.frequencies[x];
            if right > left {
                self.frequencies[x - 1] = right;
                self.frequencies[x] = left;
                let sym_left = self.symbols[x - 1];
                let sym_right = self.symbols[x];
                self.symbols[x - 1] = sym_right;
                self.symbols[x] = sym_left;
                proof {
                    assert(self.frequencies@ =~= renormed.update(
                        x as int - 1,
                        renormed[x as int],
                    ).update(x as int, renormed[x as int - 1]));
                    lemma_sum_swap(renormed, x as int - 1, x as int);
                }
            }
        }

        d
    }
}

} // verus!
