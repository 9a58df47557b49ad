//! Pulse flow: a lightweight scalar-push stream.
//!
//! The state is the most recent pushed values, retained in push order in a
//! bounded ring: once [`HISTORY_BOUND`] values are held, each push evicts
//! the oldest value.  The current value is the last element of the history.
//! [`lemma_pulse_retention`] states the ring-buffer law: after any run of
//! pushes longer than the bound, the history is exactly the most recent
//! `HISTORY_BOUND` values, in push order.

use vstd::prelude::*;

verus! {

/// Retention bound of the pulse history ring.  A tunable of this core, not
/// caller-supplied.
pub const HISTORY_BOUND: usize = 8;

/// State of a pulse flow; starts with an empty history.
pub struct PulseState {
    pub history: Vec<i64>,
}

/// One push: append, evicting the oldest value if the ring is full.
pub open spec fn push_spec(h: Seq<i64>, v: i64) -> Seq<i64> {
    if h.len() < HISTORY_BOUND {
        h.push(v)
    } else {
        h.subrange(1, h.len() as int).push(v)
    }
}

/// The history after running a sequence of pushes from `h`.
pub open spec fn run_pushes(h: Seq<i64>, vs: Seq<i64>) -> Seq<i64>
    decreases vs.len(),
{
    if vs.len() == 0 {
        h
    } else {
        run_pushes(push_spec(h, vs[0]), vs.subrange(1, vs.len() as int))
    }
}

/// The suffix of at most [`HISTORY_BOUND`] most recent values of `s`.
pub open spec fn retained(s: Seq<i64>) -> Seq<i64> {
    if s.len() <= HISTORY_BOUND {
        s
    } else {
        s.subrange(s.len() - HISTORY_BOUND, s.len() as int)
    }
}

impl PulseState {
    /// A fresh pulse has no history.
    pub fn new() -> (r: PulseState)
        ensures
            r.history@ == Seq::<i64>::empty(),
    {
        PulseState { history: Vec::new() }
    }

    /// Append `value`; when the ring is full the oldest entry leaves first.
    pub fn push(self, value: i64) -> (r: PulseState)
        requires
            self.history@.len() <= HISTORY_BOUND,
        ensures
            r.history@ == push_spec(self.history@, value),
            r.history@.len() <= HISTORY_BOUND,
            r.history@.last() == value,
    {
        let ghost h0 = self.history@;
        let mut h = self.history;
        if h.len() >= HISTORY_BOUND {
            h.remove(0);
            assert(h@ == h0.subrange(1, h0.len() as int));
        }
        h.push(value);
        PulseState { history: h }
    }
}

/// Pushing onto a trimmed history retains the same values as pushing onto
/// the full history: only the last [`HISTORY_BOUND`] values ever matter.
proof fn lemma_retained_absorb(x: Seq<i64>, y: Seq<i64>)
    ensures
        retained(retained(x) + y) == retained(x + y),
    decreases y.len(),
{
    if x.len() <= HISTORY_BOUND {
        assert(retained(x) + y == x + y);
    } else {
        assert(retained(retained(x) + y) =~= retained(x + y));
    }
}

/// A run of pushes lands on the retained suffix of everything ever held.
proof fn lemma_run_pushes_retained(h: Seq<i64>, vs: Seq<i64>)
    requires
        h.len() <= HISTORY_BOUND,
    ensures
        run_pushes(h, vs) == retained(h + vs),
    decreases vs.len(),
{
    if vs.len() == 0 {
        assert(h + vs =~= h);
    } else {
        let v0 = vs[0];
        let rest = vs.subrange(1, vs.len() as int);
        let h1 = push_spec(h, v0);
        assert(h1 =~= retained(h.push(v0)));
        lemma_run_pushes_retained(h1, rest);
        lemma_retained_absorb(h.push(v0), rest);
        assert(h.push(v0) + rest =~= h + vs);
    }
}

/// Law: after a run of pushes longer than the bound on a fresh pulse, the
/// retained history is exactly the most recent [`HISTORY_BOUND`] values in
/// push order, oldest evicted first.
pub proof fn lemma_pulse_retention(vs: Seq<i64>)
    requires
        vs.len() >= HISTORY_BOUND,
    ensures
        run_pushes(Seq::<i64>::empty(), vs)
            == vs.subrange(vs.len() - HISTORY_BOUND, vs.len() as int),
{
    lemma_run_pushes_retained(Seq::<i64>::empty(), vs);
    assert(Seq::<i64>::empty() + vs =~= vs);
    if vs.len() == HISTORY_BOUND {
        assert(retained(vs) =~= vs.subrange(vs.len() - HISTORY_BOUND, vs.len() as int));
    }
}

} // verus!
