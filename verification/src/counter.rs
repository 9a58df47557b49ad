//! Counter flow: a signed 64-bit accumulator.
//!
//! The overflow policy is fixed as two's-complement wrap-around: an
//! increment that leaves the `i64` range wraps modulo 2^64.  Every contract
//! states the result through [`inc_spec`], and [`lemma_counter_sum`] shows
//! that a whole run of increments lands on the wrapped mathematical sum.

use vstd::arithmetic::div_mod::{
    lemma_mod_add_multiples_vanish, lemma_mod_bound, lemma_mod_sub_multiples_vanish,
    lemma_small_mod,
};
use vstd::prelude::*;

verus! {

/// State of a counter flow; starts at 0.
pub struct CounterState {
    pub value: i64,
}

/// One increment, wrapping around in two's complement.
pub open spec fn inc_spec(value: i64, delta: i64) -> i64 {
    vstd::wrapping::i64_specs::wrapping_add(value, delta)
}

/// The exact (unbounded) sum of a sequence of increments.
pub open spec fn sum_of(ds: Seq<i64>) -> int
    decreases ds.len(),
{
    if ds.len() == 0 {
        0
    } else {
        ds[0] + sum_of(ds.subrange(1, ds.len() as int))
    }
}

/// The accumulator after running a sequence of increments from `value`.
pub open spec fn run_incs(value: i64, ds: Seq<i64>) -> i64
    decreases ds.len(),
{
    if ds.len() == 0 {
        value
    } else {
        run_incs(inc_spec(value, ds[0]), ds.subrange(1, ds.len() as int))
    }
}

impl CounterState {
    /// A fresh counter holds 0.
    pub fn new() -> (r: CounterState)
        ensures
            r.value == 0,
    {
        CounterState { value: 0 }
    }

    /// Add `delta` (possibly negative) to the accumulator, wrapping.
    pub fn inc(self, delta: i64) -> (r: CounterState)
        ensures
            r.value == inc_spec(self.value, delta),
    {
        CounterState { value: self.value.wrapping_add(delta) }
    }
}

/// An integer already in `i64` range is its own wrapped image.
proof fn lemma_crop_id(x: int)
    requires
        i64::MIN <= x <= i64::MAX,
    ensures
        vstd::wrapping::i64_specs::signed_crop(x) == x,
{
    let m = 0x1_0000_0000_0000_0000int;
    if x >= 0 {
        lemma_small_mod(x as nat, m as nat);
    } else {
        lemma_mod_add_multiples_vanish(x, m);
        lemma_small_mod((x + m) as nat, m as nat);
    }
}

/// Shifting by one full period does not change the wrapped image.
proof fn lemma_crop_shift(x: int)
    ensures
        vstd::wrapping::i64_specs::signed_crop(x + 0x1_0000_0000_0000_0000)
            == vstd::wrapping::i64_specs::signed_crop(x),
        vstd::wrapping::i64_specs::signed_crop(x - 0x1_0000_0000_0000_0000)
            == vstd::wrapping::i64_specs::signed_crop(x),
{
    let m = 0x1_0000_0000_0000_0000int;
    lemma_mod_add_multiples_vanish(x, m);
    lemma_mod_sub_multiples_vanish(x, m);
}

/// A run of increments from `value` is the wrapped image of the exact sum.
proof fn lemma_run_incs_crop(value: i64, ds: Seq<i64>)
    ensures
        run_incs(value, ds) == vstd::wrapping::i64_specs::signed_crop(value + sum_of(ds)),
    decreases ds.len(),
{
    let m = 0x1_0000_0000_0000_0000int;
    if ds.len() == 0 {
        lemma_crop_id(value as int);
    } else {
        let d0 = ds[0];
        let rest = ds.subrange(1, ds.len() as int);
        let v1 = inc_spec(value, d0);
        lemma_run_incs_crop(v1, rest);
        // v1 differs from value + d0 by a multiple of the period.
        if value + d0 > i64::MAX {
            lemma_crop_shift(v1 + sum_of(rest));
            assert(v1 == value + d0 - m);
        } else if value + d0 < i64::MIN {
            lemma_crop_shift(v1 + sum_of(rest) - m);
            assert(v1 == value + d0 + m);
        } else {
            assert(v1 == value + d0);
        }
        assert(value + sum_of(ds) == value + d0 + sum_of(rest));
    }
}

/// Law: for any sequence of increments on a fresh counter, the final state
/// is the exact sum of the deltas under the wrap-around overflow policy.
pub proof fn lemma_counter_sum(ds: Seq<i64>)
    ensures
        run_incs(0, ds) == vstd::wrapping::i64_specs::signed_crop(sum_of(ds)),
{
    lemma_run_incs_crop(0, ds);
}

} // verus!
