//! Histogram flow: running counts per bucket over fixed boundary levels.
//!
//! The boundary levels are fixed at creation and never re-sorted: the core
//! does not validate monotonicity, so the bucketing rule is fixed purely by
//! scan order.  A sample lands in the first bucket whose boundary it is
//! strictly below: bucket 0 holds samples with `value < levels[0]`, bucket
//! `i` (for `0 < i < levels.len()`) holds samples with
//! `levels[i-1] <= value < levels[i]` once every earlier boundary has been
//! passed, and the final open-ended bucket `levels.len()` holds samples not
//! below any boundary.  With monotone levels this is the usual half-open
//! rule `[levels[i-1], levels[i])`.
//!
//! Bucket counts and the running total saturate at `u64::MAX` instead of
//! overflowing; that policy is fixed here and stated in every contract.

use vstd::prelude::*;

verus! {

/// The bucket a sample falls into: the index of the first level the sample
/// is strictly below, or `levels.len()` when there is none.
pub open spec fn bucket_spec(levels: Seq<i64>, value: i64) -> int
    decreases levels.len(),
{
    if levels.len() == 0 {
        0
    } else if value < levels[0] {
        0
    } else {
        1 + bucket_spec(levels.subrange(1, levels.len() as int), value)
    }
}

/// A count increment, saturating at `u64::MAX`.
pub open spec fn sat_inc(c: u64) -> u64 {
    if c == u64::MAX {
        u64::MAX
    } else {
        (c + 1) as u64
    }
}

/// State of a histogram flow: one count per bucket (`levels.len() + 1`
/// buckets) plus the running count of all samples added.
pub struct HistogramState {
    pub levels: Vec<i64>,
    pub counts: Vec<u64>,
    pub total: u64,
}

impl HistogramState {
    /// The shape invariant: one count for each gap between boundaries plus
    /// the two open ends.
    pub open spec fn wf(self) -> bool {
        self.counts@.len() == self.levels@.len() + 1
    }

    /// A fresh histogram over the given boundary levels: all counts 0.
    pub fn new(levels: Vec<i64>) -> (r: HistogramState)
        ensures
            r.wf(),
            r.levels@ == levels@,
            r.total == 0,
            forall|i: int| 0 <= i < r.counts@.len() ==> r.counts@[i] == 0,
    {
        let n = levels.len();
        let mut counts: Vec<u64> = Vec::new();
        let mut i: usize = 0;
        while i < n
            invariant
                i <= n,
                n == levels@.len(),
                counts@.len() == i,
                forall|j: int| 0 <= j < i ==> counts@[j] == 0,
            decreases n - i,
        {
            counts.push(0);
            i = i + 1;
        }
        counts.push(0);
        HistogramState { levels, counts, total: 0 }
    }

    /// The bucket index the scan finds agrees with `bucket_spec`.
    proof fn lemma_bucket_at(levels: Seq<i64>, value: i64, i: int)
        requires
            0 <= i <= levels.len(),
            forall|j: int| 0 <= j < i ==> value >= levels[j],
            i < levels.len() ==> value < levels[i],
        ensures
            bucket_spec(levels, value) == i,
        decreases levels.len(),
    {
        if levels.len() > 0 && i > 0 {
            Self::lemma_bucket_at(levels.subrange(1, levels.len() as int), value, i - 1);
        }
    }

    /// Record one sample: the count of its bucket and the running total
    /// both go up by one, saturating; nothing else changes.
    pub fn add(self, value: i64) -> (r: HistogramState)
        requires
            self.wf(),
        ensures
            r.wf(),
            r.levels@ == self.levels@,
            r.total == sat_inc(self.total),
            r.counts@ == self.counts@.update(
                bucket_spec(self.levels@, value),
                sat_inc(self.counts@[bucket_spec(self.levels@, value)]),
            ),
    {
        let n = self.levels.len();
        let mut b: usize = 0;
        while b < n && value >= self.levels[b]
            invariant
                0 <= b <= n,
                n == self.levels@.len(),
                forall|j: int| 0 <= j < b ==> value >= self.levels@[j],
            decreases n - b,
        {
            b = b + 1;
        }
        proof {
            Self::lemma_bucket_at(self.levels@, value, b as int);
        }
        let mut counts = self.counts;
        let c = counts[b];
        let bumped = if c == u64::MAX {
            u64::MAX
        } else {
            c + 1
        };
        counts[b] = bumped;
        let total = if self.total == u64::MAX {
            u64::MAX
        } else {
            self.total + 1
        };
        HistogramState { levels: self.levels, counts, total }
    }
}

} // verus!
