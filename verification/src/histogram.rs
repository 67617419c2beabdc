//! Win-streak histograms: a mapping from streak length to occurrence
//! count, with an implicit count of zero for absent lengths.
//!
//! The histogram is backed by a vector indexed by streak length; the
//! model of a histogram is its count function `spec_count`, which is
//! zero outside the stored range, so the merge operation and its laws
//! are independent of the representation.

use vstd::prelude::*;
use vstd::assert_seqs_equal;

verus! {

/// A frequency histogram of win-streak lengths.
///
/// Streak lengths are positive, so index 0 of the backing vector is
/// never used; `counts[k]` holds the number of observed streaks of
/// length `k`.
#[derive(Debug)]
pub struct Histogram {
    counts: Vec<u64>,
}

impl Histogram {
    /// Streak lengths are positive: slot 0 stays empty.
    pub closed spec fn wf(self) -> bool {
        self.counts@.len() > 0 ==> self.counts@[0] == 0
    }

    /// The count recorded for streak length `k`; zero for any length
    /// not stored, and zero for non-positive `k`.
    pub closed spec fn spec_count(self, k: int) -> int {
        if 0 <= k < self.counts@.len() {
            self.counts@[k] as int
        } else {
            0
        }
    }

    /// The backing vector's contents; two histograms with the same
    /// counts and the same extent are the same value.
    pub closed spec fn spec_counts(self) -> Seq<u64> {
        self.counts@
    }

    /// An empty histogram: every length has count zero.
    pub fn new() -> (h: Histogram)
        ensures
            h.wf(),
            forall|k: int| h.spec_count(k) == 0,
            h.spec_counts().len() == 0,
    {
        Histogram { counts: Vec::new() }
    }

    /// The count for streak length `k`, zero when `k` was never
    /// recorded.
    pub fn count(&self, k: usize) -> (c: u64)
        ensures
            c == self.spec_count(k as int),
    {
        if k < self.counts.len() {
            self.counts[k]
        } else {
            0
        }
    }

    /// One more index than the longest recorded streak length.
    pub fn extent(&self) -> (n: usize)
        ensures
            n == self.spec_counts().len(),
    {
        self.counts.len()
    }

    /// Records one occurrence of a streak of length `streak`.
    pub fn record(&mut self, streak: usize)
        requires
            streak >= 1,
            old(self).spec_count(streak as int) < u64::MAX,
            old(self).wf(),
        ensures
            final(self).wf(),
            final(self).spec_count(streak as int) == old(self).spec_count(streak as int) + 1,
            forall|k: int| k != streak ==> final(self).spec_count(k) == old(self).spec_count(k),
    {
        while self.counts.len() <= streak
            invariant
                old(self).wf(),
                streak >= 1,
                forall|k: int| self.spec_count(k) == old(self).spec_count(k),
                self.counts@.len() > 0 ==> self.counts@[0] == 0,
                self.counts@.len() >= old(self).counts@.len(),
            decreases streak + 1 - self.counts.len(),
        {
            self.counts.push(0);
        }
        let c = self.counts[streak];
        self.counts.set(streak, c + 1);
    }

    /// Pointwise sum of two histograms: the count for every length `k`
    /// is the sum of the two counts for `k`.
    pub fn merge(&self, other: &Histogram) -> (r: Histogram)
        requires
            self.wf(),
            other.wf(),
            forall|k: int| self.spec_count(k) + other.spec_count(k) <= u64::MAX,
        ensures
            r.wf(),
            forall|k: int|
                #[trigger] r.spec_count(k) == self.spec_count(k) + other.spec_count(k),
            r.spec_counts().len() == spec_max(
                self.spec_counts().len() as int,
                other.spec_counts().len() as int,
            ),
    {
        let n_self = self.counts.len();
        let n_other = other.counts.len();
        let n = if n_self >= n_other {
            n_self
        } else {
            n_other
        };
        let mut counts: Vec<u64> = Vec::new();
        let mut i: usize = 0;
        while i < n
            invariant
                counts@.len() == i,
                0 <= i <= n,
                n == spec_max(self.spec_counts().len() as int, other.spec_counts().len() as int),
                forall|k: int|
                    0 <= k < i ==> counts@[k] == self.spec_count(k) + other.spec_count(k),
                forall|k: int| self.spec_count(k) + other.spec_count(k) <= u64::MAX,
            decreases n - i,
        {
            let a = self.count(i);
            let b = other.count(i);
            counts.push(a + b);
            i += 1;
        }
        let r = Histogram { counts };
        proof {
            assert(r.spec_counts().len() > 0 ==> r.spec_counts()[0] == 0) by {
                if r.spec_counts().len() > 0 {
                    assert(r.spec_counts()[0] == self.spec_count(0) + other.spec_count(0));
                }
            }
        }
        r
    }

    /// Pointwise sum, refusing the (astronomically unlikely) case where
    /// some length's summed count would not fit in a counter: the merge
    /// succeeds exactly when every pointwise sum fits.
    pub fn merge_checked(&self, other: &Histogram) -> (r: Option<Histogram>)
        requires
            self.wf(),
            other.wf(),
        ensures
            (r is Some) <==> (forall|k: int|
                self.spec_count(k) + other.spec_count(k) <= u64::MAX),
            r is Some ==> r->Some_0.wf() && (forall|k: int|
                #[trigger] r->Some_0.spec_count(k) == self.spec_count(k) + other.spec_count(k)),
    {
        let n_self = self.counts.len();
        let n_other = other.counts.len();
        let n = if n_self >= n_other {
            n_self
        } else {
            n_other
        };
        let mut i: usize = 0;
        while i < n
            invariant
                0 <= i <= n,
                n == spec_max(self.spec_counts().len() as int, other.spec_counts().len() as int),
                forall|k: int| 0 <= k < i ==> self.spec_count(k) + other.spec_count(k) <= u64::MAX,
            decreases n - i,
        {
            let a = self.count(i);
            let b = other.count(i);
            if a > u64::MAX - b {
                proof {
                    assert(self.spec_count(i as int) + other.spec_count(i as int) > u64::MAX);
                }
                return None;
            }
            i += 1;
        }
        proof {
            assert forall|k: int| self.spec_count(k) + other.spec_count(k) <= u64::MAX by {
                if 0 <= k < n {
                } else {
                    assert(self.spec_count(k) == 0 || other.spec_count(k) == 0);
                }
            }
        }
        Some(self.merge(other))
    }
}

/// The larger of two integers.
pub open spec fn spec_max(a: int, b: int) -> int {
    if a >= b {
        a
    } else {
        b
    }
}

/// Merging is commutative: two histograms whose counts are the pointwise
/// sums of the same pair, taken in either order, are the same value.
pub proof fn lemma_merge_commutes(a: Histogram, b: Histogram, ab: Histogram, ba: Histogram)
    requires
        forall|k: int| #[trigger] ab.spec_count(k) == a.spec_count(k) + b.spec_count(k),
        forall|k: int| #[trigger] ba.spec_count(k) == b.spec_count(k) + a.spec_count(k),
        ab.spec_counts().len() == spec_max(
            a.spec_counts().len() as int,
            b.spec_counts().len() as int,
        ),
        ba.spec_counts().len() == spec_max(
            b.spec_counts().len() as int,
            a.spec_counts().len() as int,
        ),
    ensures
        ab.spec_counts() == ba.spec_counts(),
        forall|k: int| #[trigger] ab.spec_count(k) == ba.spec_count(k),
{
    assert_seqs_equal!(ab.spec_counts() == ba.spec_counts(), k => {
        assert(ab.spec_count(k) == ba.spec_count(k));
    });
}

/// Merging is associative: summing three histograms pointwise gives the
/// same value whichever pair is merged first.
pub proof fn lemma_merge_associates(
    a: Histogram,
    b: Histogram,
    c: Histogram,
    ab: Histogram,
    bc: Histogram,
    ab_c: Histogram,
    a_bc: Histogram,
)
    requires
        forall|k: int| #[trigger] ab.spec_count(k) == a.spec_count(k) + b.spec_count(k),
        forall|k: int| #[trigger] bc.spec_count(k) == b.spec_count(k) + c.spec_count(k),
        forall|k: int| #[trigger] ab_c.spec_count(k) == ab.spec_count(k) + c.spec_count(k),
        forall|k: int| #[trigger] a_bc.spec_count(k) == a.spec_count(k) + bc.spec_count(k),
        ab.spec_counts().len() == spec_max(
            a.spec_counts().len() as int,
            b.spec_counts().len() as int,
        ),
        bc.spec_counts().len() == spec_max(
            b.spec_counts().len() as int,
            c.spec_counts().len() as int,
        ),
        ab_c.spec_counts().len() == spec_max(
            ab.spec_counts().len() as int,
            c.spec_counts().len() as int,
        ),
        a_bc.spec_counts().len() == spec_max(
            a.spec_counts().len() as int,
            bc.spec_counts().len() as int,
        ),
    ensures
        ab_c.spec_counts() == a_bc.spec_counts(),
        forall|k: int|
            #[trigger] ab_c.spec_count(k) == a.spec_count(k) + b.spec_count(k) + c.spec_count(k),
{
    assert_seqs_equal!(ab_c.spec_counts() == a_bc.spec_counts(), k => {
        assert(ab_c.spec_count(k) == a_bc.spec_count(k));
    });
}

} // verus!
