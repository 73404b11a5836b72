//! Shannon-entropy accumulator over byte streams.
//!
//! A [`Calculator`] owns a 256-bucket frequency histogram over byte values
//! together with a running total of bytes seen. Bytes are fed in with
//! [`Calculator::write`]; [`Calculator::compute_and_reset`] hands the
//! histogram out and clears the accumulator for the next measurement window.
//! The entropy value itself is a floating-point quantity and is derived from
//! the histogram by the (unverified) presentation layer; everything that
//! determines it — which byte occurred how often — is pinned down here.

use vstd::prelude::*;

pub mod colour;

verus! {

/// Number of distinct byte values, and so the number of histogram buckets.
pub const BUCKETS: usize = 256;

/// How often the byte value `v` occurs in `s`.
pub open spec fn occurrences(s: Seq<u8>, v: u8) -> nat
    decreases s.len(),
{
    if s.len() == 0 {
        0
    } else {
        occurrences(s.drop_last(), v) + if s.last() == v {
            1nat
        } else {
            0nat
        }
    }
}

/// Sum of all bucket counts of a histogram.
pub open spec fn count_sum(s: Seq<u64>) -> int
    decreases s.len(),
{
    if s.len() == 0 {
        0
    } else {
        count_sum(s.drop_last()) + s.last()
    }
}

/// The histogram of an accumulator that has seen nothing: all buckets zero.
pub open spec fn zero_buckets() -> Seq<u64> {
    Seq::new(BUCKETS as nat, |i: int| 0u64)
}

/// Every bucket count is bounded by the sum of all of them.
proof fn lemma_bucket_le_sum(s: Seq<u64>, i: int)
    requires
        0 <= i < s.len(),
    ensures
        s[i] <= count_sum(s),
    decreases s.len(),
{
    if i == s.len() - 1 {
        assert(count_sum(s.drop_last()) >= 0) by {
            lemma_sum_nonneg(s.drop_last());
        }
    } else {
        lemma_bucket_le_sum(s.drop_last(), i);
    }
}

/// A sum of unsigned counts is never negative.
proof fn lemma_sum_nonneg(s: Seq<u64>)
    ensures
        count_sum(s) >= 0,
    decreases s.len(),
{
    if s.len() > 0 {
        lemma_sum_nonneg(s.drop_last());
    }
}

/// Raising one bucket changes the sum by exactly the difference.
proof fn lemma_sum_update(s: Seq<u64>, i: int, v: u64)
    requires
        0 <= i < s.len(),
    ensures
        count_sum(s.update(i, v)) == count_sum(s) - s[i] + v,
    decreases s.len(),
{
    let t = s.update(i, v);
    if i == s.len() - 1 {
        assert(t.drop_last() =~= s.drop_last());
    } else {
        assert(t.drop_last() =~= s.drop_last().update(i, v));
        lemma_sum_update(s.drop_last(), i, v);
    }
}

/// A histogram whose buckets are all zero sums to zero.
proof fn lemma_sum_zero_buckets(s: Seq<u64>)
    requires
        forall|i: int| 0 <= i < s.len() ==> s[i] == 0,
    ensures
        count_sum(s) == 0,
    decreases s.len(),
{
    if s.len() > 0 {
        lemma_sum_zero_buckets(s.drop_last());
    }
}

/// `occurrences` is exactly the multiset count: how often a byte value
/// occurs in a sequence depends only on the multiset of its elements.
pub proof fn lemma_occurrences_is_multiset_count(s: Seq<u8>, v: u8)
    ensures
        occurrences(s, v) == s.to_multiset().count(v),
    decreases s.len(),
{
    broadcast use vstd::seq_lib::group_to_multiset_ensures;
    broadcast use vstd::multiset::group_multiset_axioms;

    if s.len() == 0 {
        assert(!s.contains(v));
    } else {
        lemma_occurrences_is_multiset_count(s.drop_last(), v);
        assert(s =~= s.drop_last().push(s.last()));
    }
}

/// Order independence: two byte sequences made of the same bytes in any
/// order — equal as multisets — fill the histogram identically.
pub proof fn lemma_order_independent(s: Seq<u8>, t: Seq<u8>)
    requires
        s.to_multiset() == t.to_multiset(),
    ensures
        forall|v: u8| occurrences(s, v) == occurrences(t, v),
{
    assert forall|v: u8| occurrences(s, v) == occurrences(t, v) by {
        lemma_occurrences_is_multiset_count(s, v);
        lemma_occurrences_is_multiset_count(t, v);
    }
}

/// Chunking independence: ingesting `s + t` in one call raises each bucket
/// as much as ingesting `s` and then `t` in two calls.
pub proof fn lemma_split_ingest(s: Seq<u8>, t: Seq<u8>)
    ensures
        forall|v: u8| occurrences(s + t, v) == occurrences(s, v) + occurrences(t, v),
{
    broadcast use vstd::multiset::group_multiset_axioms;

    vstd::seq_lib::lemma_multiset_commutative(s, t);
    assert forall|v: u8| occurrences(s + t, v) == occurrences(s, v) + occurrences(t, v) by {
        lemma_occurrences_is_multiset_count(s + t, v);
        lemma_occurrences_is_multiset_count(s, v);
        lemma_occurrences_is_multiset_count(t, v);
    }
}

/// Idempotent reuse: reading a calculator out leaves it in the empty state
/// (`compute_and_reset` ensures `final(self)` has `zero_buckets` and total
/// 0), and reading that state out in turn returns the empty measurement —
/// total 0, every bucket 0, the empty sum. Here `c1` is the state one
/// read-out leaves behind and `h2` what the next read-out returns for it,
/// both as the contract of `compute_and_reset` describes them.
pub proof fn lemma_second_read_is_zero(c1: Calculator, h2: Histogram)
    requires
        c1.buckets() == zero_buckets(),
        c1.total() == 0,
        h2.counts@ == c1.buckets(),
        h2.total == c1.total(),
    ensures
        h2.total == 0,
        forall|v: u8| h2.counts@[v as int] == 0,
{
}

/// One-shot equivalence: a histogram whose buckets rose from the empty
/// state by the occurrence counts of `s` — the manual construct, ingest,
/// read-out path, as the contracts of `new`, `write` and
/// `compute_and_reset` describe it — is exactly the histogram that
/// `slice_histogram` promises for `s`.
pub proof fn lemma_one_shot_matches_manual(s: Seq<u8>, manual: Histogram, one_shot: Histogram)
    requires
        manual.counts@.len() == BUCKETS,
        manual.total == s.len(),
        forall|v: u8|
            manual.counts@[v as int] == zero_buckets()[v as int] + occurrences(s, v),
        one_shot.counts@.len() == BUCKETS,
        one_shot.total == s.len(),
        forall|v: u8| one_shot.counts@[v as int] == occurrences(s, v),
    ensures
        manual.total == one_shot.total,
        manual.counts@ == one_shot.counts@,
{
    assert forall|i: int| 0 <= i < BUCKETS implies manual.counts@[i] == one_shot.counts@[i] by {
        let v = i as u8;
        assert(manual.counts@[v as int] == zero_buckets()[v as int] + occurrences(s, v));
        assert(one_shot.counts@[v as int] == occurrences(s, v));
    }
    assert(manual.counts@ =~= one_shot.counts@);
}

/// Refused increment: one more byte would push a counter past what a
/// 64-bit bucket can represent. With realistic inputs this never happens;
/// it is a defensive guard, not a normal path.
#[derive(Debug, Clone, Copy, PartialEq, Eq, Structural)]
pub struct CounterOverflow;

/// A frequency histogram read out of a [`Calculator`]: bucket `v` holds the
/// number of times byte value `v` was ingested, and `total` their sum.
pub struct Histogram {
    pub counts: Vec<u64>,
    pub total: u64,
}

impl Histogram {
    /// 256 buckets whose counts add up to `total`.
    pub open spec fn wf(&self) -> bool {
        &&& self.counts@.len() == BUCKETS
        &&& count_sum(self.counts@) == self.total
    }
}

/// An entropy accumulator: a byte-frequency histogram plus the count of
/// bytes ingested since the last reset.
pub struct Calculator {
    counts: Vec<u64>,
    nbytes: u64,
}

impl Calculator {
    /// The histogram: bucket `v` holds the occurrence count of byte value `v`.
    pub closed spec fn buckets(&self) -> Seq<u64> {
        self.counts@
    }

    /// Bytes ingested since the last reset.
    pub closed spec fn total(&self) -> u64 {
        self.nbytes
    }

    /// Internal consistency: 256 buckets, and the running total is exactly
    /// their sum. Established by [`Calculator::new`] and preserved by every
    /// operation.
    pub open spec fn wf(&self) -> bool {
        &&& self.buckets().len() == BUCKETS
        &&& count_sum(self.buckets()) == self.total()
    }

    /// Instantiate a new calculator: empty histogram, zero total.
    pub fn new() -> (c: Calculator)
        ensures
            c.wf(),
            c.buckets() == zero_buckets(),
            c.total() == 0,
    {
        let counts: Vec<u64> = vec![0u64; BUCKETS];
        proof {
            assert(counts@ =~= zero_buckets());
            lemma_sum_zero_buckets(counts@);
        }
        Calculator { counts, nbytes: 0 }
    }

    /// Ingest a sequence of bytes: each byte value's bucket rises by its
    /// number of occurrences, the total by the input length. Succeeds exactly
    /// when the new total still fits a 64-bit counter (and then every single
    /// bucket fits too, since no bucket can exceed the total); otherwise the
    /// accumulator is left untouched and `CounterOverflow` comes back.
    pub fn write(&mut self, input: &[u8]) -> (r: Result<usize, CounterOverflow>)
        requires
            old(self).wf(),
        ensures
            final(self).wf(),
            r is Ok <==> old(self).total() + input@.len() <= u64::MAX,
            r is Ok ==> {
                &&& r == Ok::<usize, CounterOverflow>(input@.len() as usize)
                &&& final(self).total() == old(self).total() + input@.len()
                &&& forall|v: u8|
                    final(self).buckets()[v as int] == old(self).buckets()[v as int]
                        + occurrences(input@, v)
            },
            r is Err ==> {
                &&& r == Err::<usize, CounterOverflow>(CounterOverflow)
                &&& final(self).buckets() == old(self).buckets()
                &&& final(self).total() == old(self).total()
            },
    {
        let len = input.len();
        if (len as u64) > u64::MAX - self.nbytes {
            return Err(CounterOverflow);
        }
        let ghost counts0 = self.counts@;
        let ghost total0 = self.nbytes;
        let mut i: usize = 0;
        while i < len
            invariant
                i <= len,
                len == input@.len(),
                total0 + len <= u64::MAX,
                self.counts@.len() == BUCKETS,
                self.nbytes == total0 + i,
                count_sum(self.counts@) == self.nbytes,
                counts0.len() == BUCKETS,
                forall|v: u8|
                    self.counts@[v as int] == counts0[v as int]
                        + occurrences(input@.take(i as int), v),
            decreases len - i,
        {
            let b = input[i];
            let c = self.counts[b as usize];
            proof {
                lemma_bucket_le_sum(self.counts@, b as int);
            }
            let ghost before = self.counts@;
            self.counts[b as usize] = c + 1;
            self.nbytes = self.nbytes + 1;
            proof {
                lemma_sum_update(before, b as int, (c + 1) as u64);
                let pre = input@.take(i as int);
                let post = input@.take(i as int + 1);
                assert(post.drop_last() =~= pre);
                assert(post.last() == input@[i as int]);
                assert(forall|v: u8|
                    occurrences(post, v) == occurrences(pre, v) + if input@[i as int] == v {
                        1nat
                    } else {
                        0nat
                    });
            }
            i = i + 1;
        }
        proof {
            assert(input@.take(len as int) =~= input@);
        }
        Ok(len)
    }

    /// Read the measurement out and start the next window: returns the
    /// histogram accumulated since the last reset and unconditionally clears
    /// every bucket and the total, whatever they held. The entropy of the
    /// window is a pure function of the returned histogram.
    pub fn compute_and_reset(&mut self) -> (h: Histogram)
        requires
            old(self).wf(),
        ensures
            final(self).wf(),
            final(self).buckets() == zero_buckets(),
            final(self).total() == 0,
            h.wf(),
            h.counts@ == old(self).buckets(),
            h.total == old(self).total(),
    {
        let mut fresh: Vec<u64> = vec![0u64; BUCKETS];
        proof {
            assert(fresh@ =~= zero_buckets());
            lemma_sum_zero_buckets(fresh@);
        }
        core::mem::swap(&mut self.counts, &mut fresh);
        let total = self.nbytes;
        self.nbytes = 0;
        Histogram { counts: fresh, total }
    }
}

/// One-shot convenience: the histogram of a whole byte slice, as a fresh
/// [`Calculator`] would report it after ingesting the slice once. A fresh
/// accumulator starts at total zero, so a single slice can never overflow
/// its counters.
pub fn slice_histogram(input: &[u8]) -> (h: Histogram)
    ensures
        h.wf(),
        h.total == input@.len(),
        forall|v: u8| h.counts@[v as int] == occurrences(input@, v),
{
    let mut c = Calculator::new();
    let n = input.len();
    let r = c.write(input);
    proof {
        assert(n == input@.len());
        assert(r is Ok);
    }
    c.compute_and_reset()
}

} // verus!
