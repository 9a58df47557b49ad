//! Tracer handles: the per-type surface a caller mutates flows through.
//!
//! A handle is bound to exactly one path.  Construction parses the path,
//! builds the initial state from the spec, and binds it in the registry
//! (replace policy: see [`crate::registry::Registry::bind`]).  Every
//! mutation finds the entry, applies the typed operation, and queues the
//! describing delta for each subscriber — the whole effect is captured by
//! [`mutated`].  Mutations are synchronous and never wait on delivery:
//! subscribers read their queues later, on the delivery side.
//!
//! A handle addresses whatever flow is currently bound at its path; after
//! its binding is dropped or replaced, mutations through it fail with
//! `UnknownPath`.  Handles are released with `close`, which unbinds the
//! path and hands back the entry so the delivery layer can signal its
//! subscribers that the stream ended.

use crate::assoc::{a_has, a_unique};
use crate::board::BoardState;
use crate::counter::CounterState;
use crate::flow::{apply, state_wf, DeltaV, FlowDelta, FlowMode, FlowState, FlowV};
use crate::gauge::{GaugeOpts, GaugeState};
use crate::histogram::HistogramState;
use crate::path::{segments_ok, split_spec, Path};
use crate::pulse::PulseState;
use crate::registry::{emit, emit_rel, entry_wf, sub_wf, Entry, Registry};
use crate::table::{cells_view, TableState};
use crate::FlowError;
use vstd::prelude::*;

verus! {

/// The full effect of one successful mutation at path `p`: the state
/// advances by exactly the emitted delta, the delta is queued for every
/// subscriber of `p` (or the subscriber is marked for resync), and no
/// other entry changes.
pub open spec fn mutated(r0: Registry, r1: Registry, p: Seq<Seq<char>>, d: DeltaV) -> bool {
    let i = r0.idx_of(p);
    &&& r0.has_path(p)
    &&& r1.has_path(p)
    &&& r1.entries@.len() == r0.entries@.len()
    &&& r1.idx_of(p) == i
    &&& r1.state_at(p) == apply(r0.state_at(p), d)
    &&& forall|j: int| 0 <= j < r1.entries@.len() && j != i ==> r1.entries@[j] == r0.entries@[j]
    &&& r1.entries@[i].path@ == p
    &&& r1.entries@[i].mode == r0.entries@[i].mode
    &&& r1.entries@[i].next_sub_id == r0.entries@[i].next_sub_id
    &&& r1.entries@[i].subs@.len() == r0.entries@[i].subs@.len()
    &&& forall|k: int|
        0 <= k < r1.entries@[i].subs@.len() ==> emit_rel(
            r0.entries@[i].subs@[k],
            #[trigger] r1.entries@[i].subs@[k],
            d,
        )
}

/// Put a mutated entry back at its slot and restore the registry
/// invariant.  `prev` is the entry sequence before the entry was taken
/// out, `d` the delta that was emitted to the entry's subscribers.
#[verifier::loop_isolation(false)]
fn commit_at(reg: &mut Registry, i: usize, e: Entry, Ghost(prev): Ghost<Seq<Entry>>, Ghost(
    d,
): Ghost<DeltaV>)
    requires
        0 <= i < prev.len(),
        old(reg).entries@ == prev.remove(i as int),
        forall|a: int, b: int| 0 <= a < b < prev.len() ==> prev[a].path@ != prev[b].path@,
        forall|j: int| 0 <= j < prev.len() ==> entry_wf(#[trigger] prev[j]),
        state_wf(e.state@),
        e.path@ == prev[i as int].path@,
        e.mode == prev[i as int].mode,
        e.next_sub_id == prev[i as int].next_sub_id,
        e.state@ == apply(prev[i as int].state@, d),
        e.subs@.len() == prev[i as int].subs@.len(),
        forall|k: int| 0 <= k < e.subs@.len() ==> sub_wf(#[trigger] e.subs@[k], e.state@),
        forall|k: int|
            0 <= k < e.subs@.len() ==> emit_rel(prev[i as int].subs@[k], #[trigger] e.subs@[k], d),
    ensures
        final(reg).wf(),
        final(reg).entries@ == prev.update(i as int, e),
{
    reg.entries.insert(i, e);
    proof {
        assert(reg.entries@ =~= prev.update(i as int, e));
        assert forall|a: int, b: int|
            0 <= a < b < reg.entries@.len() implies reg.entries@[a].path@
            != reg.entries@[b].path@ by {
            assert(reg.entries@[a].path@ == prev[a].path@);
            assert(reg.entries@[b].path@ == prev[b].path@);
        }
        assert forall|j: int| 0 <= j < reg.entries@.len() implies entry_wf(
            #[trigger] reg.entries@[j],
        ) by {
            if j != i as int {
                assert(reg.entries@[j] == prev[j]);
            }
        }
    }
}

/// A counter flow handle: a wrapping signed 64-bit accumulator.
pub struct Counter {
    pub path: Path,
}

impl Counter {
    /// Create (and bind) a counter at `path`, starting at 0.  Fails with
    /// `InvalidPath` exactly when the path is empty or has an empty
    /// segment; under the replace policy any prior binding at the path is
    /// discarded, so the new flow starts fresh.
    pub fn new(reg: &mut Registry, path: &str, mode: FlowMode) -> (r: Result<Counter, FlowError>)
        requires
            old(reg).wf(),
        ensures
            final(reg).wf(),
            r is Ok <==> segments_ok(split_spec(path@)),
            match r {
                Ok(c) => {
                    &&& c.path@ == split_spec(path@)
                    &&& final(reg).has_path(c.path@)
                    &&& final(reg).state_at(c.path@) == (FlowV::Counter { value: 0 })
                    &&& final(reg).entries@[final(reg).idx_of(c.path@)].subs@.len() == 0
                    &&& final(reg).entries@[final(reg).idx_of(split_spec(path@))].mode == mode
                    &&& final(reg).entries@.drop_last() == (if old(reg).has_path(
                        split_spec(path@),
                    ) {
                        old(reg).entries@.remove(old(reg).idx_of(split_spec(path@)))
                    } else {
                        old(reg).entries@
                    })
                },
                Err(e) => e == FlowError::InvalidPath && *final(reg) == *old(reg),
            },
    {
        let p = match Path::parse(path) {
            Ok(p) => p,
            Err(e) => {
                return Err(e);
            },
        };
        reg.bind(&p, mode, FlowState::Counter(CounterState::new()));
        Ok(Counter { path: p })
    }

    /// Add `delta` (possibly negative, wrapping) to the counter at this
    /// handle's path and queue the increment for every subscriber.
    /// Fails with `UnknownPath`, changing nothing, exactly when no
    /// counter is currently bound there.
    pub fn inc(&self, reg: &mut Registry, delta: i64) -> (r: Result<(), FlowError>)
        requires
            old(reg).wf(),
        ensures
            final(reg).wf(),
            r is Ok <==> old(reg).has_path(self.path@) && old(reg).state_at(self.path@) is Counter,
            r is Ok ==> mutated(
                *old(reg),
                *final(reg),
                self.path@,
                DeltaV::CounterInc { delta },
            ),
            r is Err ==> final(reg).entries@ == old(reg).entries@ && r == Err::<(), FlowError>(
                FlowError::UnknownPath,
            ),
    {
        let found = reg.find(&self.path);
        let i = match found {
            Some(i) => i,
            None => {
                return Err(FlowError::UnknownPath);
            },
        };
        proof {
            reg.lemma_idx_at(i as int);
        }
        let ghost prev = reg.entries@;
        let mut e = reg.entries.remove(i);
        let ghost s0 = e.state@;
        let st = e.state;
        match st {
            FlowState::Counter(c) => {
                let c2 = c.inc(delta);
                let d = FlowDelta::CounterInc { delta };
                e.state = FlowState::Counter(c2);
                proof {
                    assert(e.state@ == apply(s0, d@));
                }
                emit(&mut e.subs, &d, Ghost(s0), Ghost(e.state@));
                commit_at(reg, i, e, Ghost(prev), Ghost(d@));
                proof {
                    reg.lemma_idx_at(i as int);
                }
                Ok(())
            },
            other => {
                e.state = other;
                reg.entries.insert(i, e);
                proof {
                    assert(reg.entries@ =~= prev);
                }
                Err(FlowError::UnknownPath)
            },
        }
    }

    /// Release the handle: unbind the path, handing back the entry so
    /// subscribers can be told the stream ended.
    pub fn close(self, reg: &mut Registry) -> (r: Option<Entry>)
        requires
            old(reg).wf(),
        ensures
            final(reg).wf(),
            !final(reg).has_path(self.path@),
            r is Some <==> old(reg).has_path(self.path@),
            match r {
                Some(e) => e == old(reg).entries@[old(reg).idx_of(self.path@)]
                    && final(reg).entries@ == old(reg).entries@.remove(
                    old(reg).idx_of(self.path@),
                ),
                None => final(reg).entries@ == old(reg).entries@,
            },
    {
        reg.unbind(&self.path)
    }
}

/// A gauge flow handle: a scalar with advisory bounds.
pub struct Gauge {
    pub path: Path,
}

impl Gauge {
    /// Create (and bind) a gauge at `path` under the given advisory
    /// bounds, starting at 0.  Fails with `InvalidPath` exactly when the
    /// path is malformed; a prior binding at the path is replaced.
    pub fn new(reg: &mut Registry, path: &str, mode: FlowMode, opts: GaugeOpts) -> (r: Result<Gauge, FlowError>)
        requires
            old(reg).wf(),
        ensures
            final(reg).wf(),
            r is Ok <==> segments_ok(split_spec(path@)),
            match r {
                Ok(g) => {
                    &&& g.path@ == split_spec(path@)
                    &&& final(reg).has_path(g.path@)
                    &&& final(reg).state_at(g.path@) == (FlowV::Gauge { opts, value: 0 })
                    &&& final(reg).entries@[final(reg).idx_of(g.path@)].subs@.len() == 0
                    &&& final(reg).entries@[final(reg).idx_of(split_spec(path@))].mode == mode
                    &&& final(reg).entries@.drop_last() == (if old(reg).has_path(
                        split_spec(path@),
                    ) {
                        old(reg).entries@.remove(old(reg).idx_of(split_spec(path@)))
                    } else {
                        old(reg).entries@
                    })
                },
                Err(e) => e == FlowError::InvalidPath && *final(reg) == *old(reg),
            },
    {
        let p = match Path::parse(path) {
            Ok(p) => p,
            Err(e) => {
                return Err(e);
            },
        };
        reg.bind(&p, mode, FlowState::Gauge(GaugeState::new(opts)));
        Ok(Gauge { path: p })
    }

    /// Replace the gauge's value unconditionally — the declared bounds
    /// are advisory and never gate the write — and queue the new value
    /// for every subscriber.  Fails with `UnknownPath`, changing nothing,
    /// exactly when no gauge is currently bound at this handle's path.
    pub fn set(&self, reg: &mut Registry, value: i64) -> (r: Result<(), FlowError>)
        requires
            old(reg).wf(),
        ensures
            final(reg).wf(),
            r is Ok <==> old(reg).has_path(self.path@) && old(reg).state_at(self.path@) is Gauge,
            r is Ok ==> mutated(*old(reg), *final(reg), self.path@, DeltaV::GaugeSet { value }),
            r is Err ==> final(reg).entries@ == old(reg).entries@ && r == Err::<(), FlowError>(
                FlowError::UnknownPath,
            ),
    {
        let found = reg.find(&self.path);
        let i = match found {
            Some(i) => i,
            None => {
                return Err(FlowError::UnknownPath);
            },
        };
        proof {
            reg.lemma_idx_at(i as int);
        }
        let ghost prev = reg.entries@;
        let mut e = reg.entries.remove(i);
        let ghost s0 = e.state@;
        let st = e.state;
        match st {
            FlowState::Gauge(g) => {
                let g2 = g.set(value);
                let d = FlowDelta::GaugeSet { value };
                e.state = FlowState::Gauge(g2);
                proof {
                    assert(e.state@ == apply(s0, d@));
                }
                emit(&mut e.subs, &d, Ghost(s0), Ghost(e.state@));
                commit_at(reg, i, e, Ghost(prev), Ghost(d@));
                proof {
                    reg.lemma_idx_at(i as int);
                }
                Ok(())
            },
            other => {
                e.state = other;
                reg.entries.insert(i, e);
                proof {
                    assert(reg.entries@ =~= prev);
                }
                Err(FlowError::UnknownPath)
            },
        }
    }

    /// Release the handle: unbind the path, handing back the entry so
    /// subscribers can be told the stream ended.
    pub fn close(self, reg: &mut Registry) -> (r: Option<Entry>)
        requires
            old(reg).wf(),
        ensures
            final(reg).wf(),
            !final(reg).has_path(self.path@),
            r is Some <==> old(reg).has_path(self.path@),
            match r {
                Some(e) => e == old(reg).entries@[old(reg).idx_of(self.path@)]
                    && final(reg).entries@ == old(reg).entries@.remove(
                    old(reg).idx_of(self.path@),
                ),
                None => final(reg).entries@ == old(reg).entries@,
            },
    {
        reg.unbind(&self.path)
    }
}

/// A pulse flow handle: a bounded stream of pushed scalars.
pub struct Pulse {
    pub path: Path,
}

impl Pulse {
    /// Create (and bind) a pulse at `path` with an empty history.  Fails
    /// with `InvalidPath` exactly when the path is malformed; a prior
    /// binding at the path is replaced.
    pub fn new(reg: &mut Registry, path: &str, mode: FlowMode) -> (r: Result<Pulse, FlowError>)
        requires
            old(reg).wf(),
        ensures
            final(reg).wf(),
            r is Ok <==> segments_ok(split_spec(path@)),
            match r {
                Ok(p) => {
                    &&& p.path@ == split_spec(path@)
                    &&& final(reg).has_path(p.path@)
                    &&& final(reg).state_at(p.path@) == (FlowV::Pulse {
                        history: Seq::<i64>::empty(),
                    })
                    &&& final(reg).entries@[final(reg).idx_of(p.path@)].subs@.len() == 0
                    &&& final(reg).entries@[final(reg).idx_of(split_spec(path@))].mode == mode
                    &&& final(reg).entries@.drop_last() == (if old(reg).has_path(
                        split_spec(path@),
                    ) {
                        old(reg).entries@.remove(old(reg).idx_of(split_spec(path@)))
                    } else {
                        old(reg).entries@
                    })
                },
                Err(e) => e == FlowError::InvalidPath && *final(reg) == *old(reg),
            },
    {
        let p = match Path::parse(path) {
            Ok(p) => p,
            Err(e) => {
                return Err(e);
            },
        };
        reg.bind(&p, mode, FlowState::Pulse(PulseState::new()));
        Ok(Pulse { path: p })
    }

    /// Append `value` to the pulse history (evicting the oldest entry
    /// when the ring is full) and queue the push for every subscriber.
    /// Fails with `UnknownPath`, changing nothing, exactly when no pulse
    /// is currently bound at this handle's path.
    pub fn push(&self, reg: &mut Registry, value: i64) -> (r: Result<(), FlowError>)
        requires
            old(reg).wf(),
        ensures
            final(reg).wf(),
            r is Ok <==> old(reg).has_path(self.path@) && old(reg).state_at(self.path@) is Pulse,
            r is Ok ==> mutated(*old(reg), *final(reg), self.path@, DeltaV::PulsePush { value }),
            r is Err ==> final(reg).entries@ == old(reg).entries@ && r == Err::<(), FlowError>(
                FlowError::UnknownPath,
            ),
    {
        let found = reg.find(&self.path);
        let i = match found {
            Some(i) => i,
            None => {
                return Err(FlowError::UnknownPath);
            },
        };
        proof {
            reg.lemma_idx_at(i as int);
        }
        let ghost prev = reg.entries@;
        let mut e = reg.entries.remove(i);
        let ghost s0 = e.state@;
        let st = e.state;
        match st {
            FlowState::Pulse(p) => {
                proof {
                    assert(state_wf(s0));
                }
                let p2 = p.push(value);
                let d = FlowDelta::PulsePush { value };
                e.state = FlowState::Pulse(p2);
                proof {
                    assert(e.state@ == apply(s0, d@));
                }
                emit(&mut e.subs, &d, Ghost(s0), Ghost(e.state@));
                commit_at(reg, i, e, Ghost(prev), Ghost(d@));
                proof {
                    reg.lemma_idx_at(i as int);
                }
                Ok(())
            },
            other => {
                e.state = other;
                reg.entries.insert(i, e);
                proof {
                    assert(reg.entries@ =~= prev);
                }
                Err(FlowError::UnknownPath)
            },
        }
    }

    /// Release the handle: unbind the path, handing back the entry so
    /// subscribers can be told the stream ended.
    pub fn close(self, reg: &mut Registry) -> (r: Option<Entry>)
        requires
            old(reg).wf(),
        ensures
            final(reg).wf(),
            !final(reg).has_path(self.path@),
            r is Some <==> old(reg).has_path(self.path@),
            match r {
                Some(e) => e == old(reg).entries@[old(reg).idx_of(self.path@)]
                    && final(reg).entries@ == old(reg).entries@.remove(
                    old(reg).idx_of(self.path@),
                ),
                None => final(reg).entries@ == old(reg).entries@,
            },
    {
        reg.unbind(&self.path)
    }
}

/// A histogram flow handle: bucketed counts over fixed levels.
pub struct Histogram {
    pub path: Path,
}

impl Histogram {
    /// Create (and bind) a histogram at `path` over the given boundary
    /// levels, all counts zero.  The levels are taken as given — never
    /// re-sorted or validated for monotonicity.  Fails with
    /// `InvalidPath` exactly when the path is malformed; a prior binding
    /// at the path is replaced.
    pub fn new(reg: &mut Registry, path: &str, mode: FlowMode, levels: Vec<i64>) -> (r: Result<
        Histogram,
        FlowError,
    >)
        requires
            old(reg).wf(),
        ensures
            final(reg).wf(),
            r is Ok <==> segments_ok(split_spec(path@)),
            match r {
                Ok(h) => {
                    &&& h.path@ == split_spec(path@)
                    &&& final(reg).has_path(h.path@)
                    &&& final(reg).state_at(h.path@) == (FlowV::Histogram {
                        levels: levels@,
                        counts: Seq::<u64>::new((levels@.len() + 1) as nat, |j: int| 0u64),
                        total: 0,
                    })
                    &&& final(reg).entries@[final(reg).idx_of(h.path@)].subs@.len() == 0
                    &&& final(reg).entries@[final(reg).idx_of(split_spec(path@))].mode == mode
                    &&& final(reg).entries@.drop_last() == (if old(reg).has_path(
                        split_spec(path@),
                    ) {
                        old(reg).entries@.remove(old(reg).idx_of(split_spec(path@)))
                    } else {
                        old(reg).entries@
                    })
                },
                Err(e) => e == FlowError::InvalidPath && *final(reg) == *old(reg),
            },
    {
        let p = match Path::parse(path) {
            Ok(p) => p,
            Err(e) => {
                return Err(e);
            },
        };
        let h = HistogramState::new(levels);
        proof {
            assert(h.counts@ =~= Seq::<u64>::new((h.levels@.len() + 1) as nat, |j: int| 0u64));
        }
        reg.bind(&p, mode, FlowState::Histogram(h));
        Ok(Histogram { path: p })
    }

    /// Record one sample in its bucket and queue it for every
    /// subscriber.  Fails with `UnknownPath`, changing nothing, exactly
    /// when no histogram is currently bound at this handle's path.
    pub fn add(&self, reg: &mut Registry, value: i64) -> (r: Result<(), FlowError>)
        requires
            old(reg).wf(),
        ensures
            final(reg).wf(),
            r is Ok <==> old(reg).has_path(self.path@) && old(reg).state_at(
                self.path@,
            ) is Histogram,
            r is Ok ==> mutated(
                *old(reg),
                *final(reg),
                self.path@,
                DeltaV::HistogramAdd { value },
            ),
            r is Err ==> final(reg).entries@ == old(reg).entries@ && r == Err::<(), FlowError>(
                FlowError::UnknownPath,
            ),
    {
        let found = reg.find(&self.path);
        let i = match found {
            Some(i) => i,
            None => {
                return Err(FlowError::UnknownPath);
            },
        };
        proof {
            reg.lemma_idx_at(i as int);
        }
        let ghost prev = reg.entries@;
        let mut e = reg.entries.remove(i);
        let ghost s0 = e.state@;
        let st = e.state;
        match st {
            FlowState::Histogram(h) => {
                proof {
                    assert(state_wf(s0));
                }
                let h2 = h.add(value);
                let d = FlowDelta::HistogramAdd { value };
                e.state = FlowState::Histogram(h2);
                proof {
                    assert(e.state@ == apply(s0, d@));
                }
                emit(&mut e.subs, &d, Ghost(s0), Ghost(e.state@));
                commit_at(reg, i, e, Ghost(prev), Ghost(d@));
                proof {
                    reg.lemma_idx_at(i as int);
                }
                Ok(())
            },
            other => {
                e.state = other;
                reg.entries.insert(i, e);
                proof {
                    assert(reg.entries@ =~= prev);
                }
                Err(FlowError::UnknownPath)
            },
        }
    }

    /// Release the handle: unbind the path, handing back the entry so
    /// subscribers can be told the stream ended.
    pub fn close(self, reg: &mut Registry) -> (r: Option<Entry>)
        requires
            old(reg).wf(),
        ensures
            final(reg).wf(),
            !final(reg).has_path(self.path@),
            r is Some <==> old(reg).has_path(self.path@),
            match r {
                Some(e) => e == old(reg).entries@[old(reg).idx_of(self.path@)]
                    && final(reg).entries@ == old(reg).entries@.remove(
                    old(reg).idx_of(self.path@),
                ),
                None => final(reg).entries@ == old(reg).entries@,
            },
    {
        reg.unbind(&self.path)
    }
}

/// A board flow handle: a free-form text key/value map.
pub struct Board {
    pub path: Path,
}

impl Board {
    /// Create (and bind) an empty board at `path`.  Fails with
    /// `InvalidPath` exactly when the path is malformed; a prior binding
    /// at the path is replaced.
    pub fn new(reg: &mut Registry, path: &str, mode: FlowMode) -> (r: Result<Board, FlowError>)
        requires
            old(reg).wf(),
        ensures
            final(reg).wf(),
            r is Ok <==> segments_ok(split_spec(path@)),
            match r {
                Ok(b) => {
                    &&& b.path@ == split_spec(path@)
                    &&& final(reg).has_path(b.path@)
                    &&& final(reg).state_at(b.path@) == (FlowV::Board {
                        entries: Seq::<(Seq<char>, Seq<char>)>::empty(),
                    })
                    &&& final(reg).entries@[final(reg).idx_of(b.path@)].subs@.len() == 0
                    &&& final(reg).entries@[final(reg).idx_of(split_spec(path@))].mode == mode
                    &&& final(reg).entries@.drop_last() == (if old(reg).has_path(
                        split_spec(path@),
                    ) {
                        old(reg).entries@.remove(old(reg).idx_of(split_spec(path@)))
                    } else {
                        old(reg).entries@
                    })
                },
                Err(e) => e == FlowError::InvalidPath && *final(reg) == *old(reg),
            },
    {
        let p = match Path::parse(path) {
            Ok(p) => p,
            Err(e) => {
                return Err(e);
            },
        };
        reg.bind(&p, mode, FlowState::Board(BoardState::new()));
        Ok(Board { path: p })
    }

    /// Bind `key` to `value` on the board (insert or overwrite, last
    /// write wins) and queue the single-key delta for every subscriber.
    /// Fails with `UnknownPath`, changing nothing, exactly when no board
    /// is currently bound at this handle's path.
    pub fn set(&self, reg: &mut Registry, key: String, value: String) -> (r: Result<
        (),
        FlowError,
    >)
        requires
            old(reg).wf(),
        ensures
            final(reg).wf(),
            r is Ok <==> old(reg).has_path(self.path@) && old(reg).state_at(self.path@) is Board,
            r is Ok ==> mutated(
                *old(reg),
                *final(reg),
                self.path@,
                DeltaV::BoardSet { key: key@, value: value@ },
            ),
            r is Err ==> final(reg).entries@ == old(reg).entries@ && r == Err::<(), FlowError>(
                FlowError::UnknownPath,
            ),
    {
        let found = reg.find(&self.path);
        let i = match found {
            Some(i) => i,
            None => {
                return Err(FlowError::UnknownPath);
            },
        };
        proof {
            reg.lemma_idx_at(i as int);
        }
        let ghost prev = reg.entries@;
        let mut e = reg.entries.remove(i);
        let ghost s0 = e.state@;
        let st = e.state;
        match st {
            FlowState::Board(b) => {
                proof {
                    assert(state_wf(s0));
                }
                let k2 = key.clone();
                let v2 = value.clone();
                let d = FlowDelta::BoardSet { key, value };
                let b2 = b.set(k2, v2);
                e.state = FlowState::Board(b2);
                proof {
                    assert(e.state@ == apply(s0, d@));
                }
                emit(&mut e.subs, &d, Ghost(s0), Ghost(e.state@));
                commit_at(reg, i, e, Ghost(prev), Ghost(d@));
                proof {
                    reg.lemma_idx_at(i as int);
                }
                Ok(())
            },
            other => {
                e.state = other;
                reg.entries.insert(i, e);
                proof {
                    assert(reg.entries@ =~= prev);
                }
                Err(FlowError::UnknownPath)
            },
        }
    }

    /// Release the handle: unbind the path, handing back the entry so
    /// subscribers can be told the stream ended.
    pub fn close(self, reg: &mut Registry) -> (r: Option<Entry>)
        requires
            old(reg).wf(),
        ensures
            final(reg).wf(),
            !final(reg).has_path(self.path@),
            r is Some <==> old(reg).has_path(self.path@),
            match r {
                Some(e) => e == old(reg).entries@[old(reg).idx_of(self.path@)]
                    && final(reg).entries@ == old(reg).entries@.remove(
                    old(reg).idx_of(self.path@),
                ),
                None => final(reg).entries@ == old(reg).entries@,
            },
    {
        reg.unbind(&self.path)
    }
}

/// The rows of a table state (empty for any other shape).
pub open spec fn table_rows_of(s: FlowV) -> Seq<(u64, Seq<(u64, Seq<char>)>)> {
    match s {
        FlowV::Table { rows, .. } => rows,
        _ => Seq::empty(),
    }
}

/// The declared columns of a table state (empty for any other shape).
pub open spec fn table_cols_of(s: FlowV) -> Seq<(u64, Seq<char>)> {
    match s {
        FlowV::Table { columns, .. } => columns,
        _ => Seq::empty(),
    }
}

/// A table flow handle: rows of text cells under fixed columns.
pub struct Table {
    pub path: Path,
}

impl Table {
    /// Create (and bind) a table at `path` over the given columns, with
    /// no rows.  Fails with `InvalidPath` exactly when the path is
    /// malformed, and with `SpecViolation` exactly when the path is fine
    /// but two columns share an id; a prior binding at the path is
    /// replaced.
    pub fn new(reg: &mut Registry, path: &str, mode: FlowMode, columns: Vec<(u64, String)>) -> (r: Result<
        Table,
        FlowError,
    >)
        requires
            old(reg).wf(),
        ensures
            final(reg).wf(),
            r is Ok <==> segments_ok(split_spec(path@)) && a_unique(cells_view(columns@)),
            match r {
                Ok(t) => {
                    &&& t.path@ == split_spec(path@)
                    &&& final(reg).has_path(t.path@)
                    &&& final(reg).state_at(t.path@) == (FlowV::Table {
                        columns: cells_view(columns@),
                        rows: Seq::<(u64, Seq<(u64, Seq<char>)>)>::empty(),
                    })
                    &&& final(reg).entries@[final(reg).idx_of(t.path@)].subs@.len() == 0
                    &&& final(reg).entries@[final(reg).idx_of(split_spec(path@))].mode == mode
                    &&& final(reg).entries@.drop_last() == (if old(reg).has_path(
                        split_spec(path@),
                    ) {
                        old(reg).entries@.remove(old(reg).idx_of(split_spec(path@)))
                    } else {
                        old(reg).entries@
                    })
                },
                Err(e) => {
                    &&& *final(reg) == *old(reg)
                    &&& (!segments_ok(split_spec(path@)) ==> e == FlowError::InvalidPath)
                    &&& (segments_ok(split_spec(path@)) ==> e == FlowError::SpecViolation)
                },
            },
    {
        let p = match Path::parse(path) {
            Ok(p) => p,
            Err(e) => {
                return Err(e);
            },
        };
        let t = match TableState::new(columns) {
            Ok(t) => t,
            Err(e) => {
                return Err(e);
            },
        };
        proof {
            assert(crate::table::rows_view(t.rows@) =~= Seq::<(u64, Seq<(u64, Seq<char>)>)>::empty());
        }
        reg.bind(&p, mode, FlowState::Table(t));
        Ok(Table { path: p })
    }

    /// Insert an empty row keyed by `row` if absent (idempotent re-add)
    /// and queue the delta for every subscriber.  Fails with
    /// `UnknownPath`, changing nothing, exactly when no table is
    /// currently bound at this handle's path.
    pub fn add_row(&self, reg: &mut Registry, row: u64) -> (r: Result<(), FlowError>)
        requires
            old(reg).wf(),
        ensures
            final(reg).wf(),
            r is Ok <==> old(reg).has_path(self.path@) && old(reg).state_at(self.path@) is Table,
            r is Ok ==> mutated(*old(reg), *final(reg), self.path@, DeltaV::TableAddRow { row }),
            r is Err ==> final(reg).entries@ == old(reg).entries@ && r == Err::<(), FlowError>(
                FlowError::UnknownPath,
            ),
    {
        let found = reg.find(&self.path);
        let i = match found {
            Some(i) => i,
            None => {
                return Err(FlowError::UnknownPath);
            },
        };
        proof {
            reg.lemma_idx_at(i as int);
        }
        let ghost prev = reg.entries@;
        let mut e = reg.entries.remove(i);
        let ghost s0 = e.state@;
        let st = e.state;
        match st {
            FlowState::Table(t) => {
                proof {
                    assert(state_wf(s0));
                }
                let t2 = t.add_row(row);
                let d = FlowDelta::TableAddRow { row };
                e.state = FlowState::Table(t2);
                proof {
                    assert(e.state@ == apply(s0, d@));
                }
                emit(&mut e.subs, &d, Ghost(s0), Ghost(e.state@));
                commit_at(reg, i, e, Ghost(prev), Ghost(d@));
                proof {
                    reg.lemma_idx_at(i as int);
                }
                Ok(())
            },
            other => {
                e.state = other;
                reg.entries.insert(i, e);
                proof {
                    assert(reg.entries@ =~= prev);
                }
                Err(FlowError::UnknownPath)
            },
        }
    }

    /// Remove the row keyed by `row` (a no-op when absent) and queue the
    /// delta for every subscriber.  Fails with `UnknownPath`, changing
    /// nothing, exactly when no table is currently bound at this
    /// handle's path.
    pub fn del_row(&self, reg: &mut Registry, row: u64) -> (r: Result<(), FlowError>)
        requires
            old(reg).wf(),
        ensures
            final(reg).wf(),
            r is Ok <==> old(reg).has_path(self.path@) && old(reg).state_at(self.path@) is Table,
            r is Ok ==> mutated(*old(reg), *final(reg), self.path@, DeltaV::TableDelRow { row }),
            r is Err ==> final(reg).entries@ == old(reg).entries@ && r == Err::<(), FlowError>(
                FlowError::UnknownPath,
            ),
    {
        let found = reg.find(&self.path);
        let i = match found {
            Some(i) => i,
            None => {
                return Err(FlowError::UnknownPath);
            },
        };
        proof {
            reg.lemma_idx_at(i as int);
        }
        let ghost prev = reg.entries@;
        let mut e = reg.entries.remove(i);
        let ghost s0 = e.state@;
        let st = e.state;
        match st {
            FlowState::Table(t) => {
                proof {
                    assert(state_wf(s0));
                }
                let t2 = t.del_row(row);
                let d = FlowDelta::TableDelRow { row };
                e.state = FlowState::Table(t2);
                proof {
                    assert(e.state@ == apply(s0, d@));
                }
                emit(&mut e.subs, &d, Ghost(s0), Ghost(e.state@));
                commit_at(reg, i, e, Ghost(prev), Ghost(d@));
                proof {
                    reg.lemma_idx_at(i as int);
                }
                Ok(())
            },
            other => {
                e.state = other;
                reg.entries.insert(i, e);
                proof {
                    assert(reg.entries@ =~= prev);
                }
                Err(FlowError::UnknownPath)
            },
        }
    }

    /// Write `value` into cell (`row`, `col`) and queue the delta for
    /// every subscriber.  Fails, changing nothing: with `UnknownPath`
    /// when no table is bound at this handle's path; with `UnknownRow`
    /// when the row was never added (or was deleted); with
    /// `UnknownColumn` when the row exists but the column was never
    /// declared.  It never creates the row or the column silently.
    pub fn set_cell(&self, reg: &mut Registry, row: u64, col: u64, value: String) -> (r: Result<
        (),
        FlowError,
    >)
        requires
            old(reg).wf(),
        ensures
            final(reg).wf(),
            r is Ok <==> old(reg).has_path(self.path@) && old(reg).state_at(self.path@) is Table
                && a_has(table_rows_of(old(reg).state_at(self.path@)), row) && a_has(
                table_cols_of(old(reg).state_at(self.path@)),
                col,
            ),
            r is Ok ==> mutated(
                *old(reg),
                *final(reg),
                self.path@,
                DeltaV::TableSetCell { row, col, value: value@ },
            ),
            r is Err ==> final(reg).entries@ == old(reg).entries@,
            !(old(reg).has_path(self.path@) && old(reg).state_at(self.path@) is Table) ==> r
                == Err::<(), FlowError>(FlowError::UnknownPath),
            old(reg).has_path(self.path@) && old(reg).state_at(self.path@) is Table && !a_has(
                table_rows_of(old(reg).state_at(self.path@)),
                row,
            ) ==> r == Err::<(), FlowError>(FlowError::UnknownRow),
            old(reg).has_path(self.path@) && old(reg).state_at(self.path@) is Table && a_has(
                table_rows_of(old(reg).state_at(self.path@)),
                row,
            ) && !a_has(table_cols_of(old(reg).state_at(self.path@)), col) ==> r == Err::<
                (),
                FlowError,
            >(FlowError::UnknownColumn),
    {
        let found = reg.find(&self.path);
        let i = match found {
            Some(i) => i,
            None => {
                return Err(FlowError::UnknownPath);
            },
        };
        proof {
            reg.lemma_idx_at(i as int);
        }
        let ghost prev = reg.entries@;
        let mut e = reg.entries.remove(i);
        let ghost s0 = e.state@;
        let st = e.state;
        match st {
            FlowState::Table(t) => {
                proof {
                    assert(state_wf(s0));
                }
                let v2 = value.clone();
                let d = FlowDelta::TableSetCell { row, col, value };
                let (t2, res) = t.set_cell(row, col, v2);
                match res {
                    Ok(()) => {
                        e.state = FlowState::Table(t2);
                        proof {
                            assert(e.state@ == apply(s0, d@));
                        }
                        emit(&mut e.subs, &d, Ghost(s0), Ghost(e.state@));
                        commit_at(reg, i, e, Ghost(prev), Ghost(d@));
                        proof {
                            reg.lemma_idx_at(i as int);
                        }
                        Ok(())
                    },
                    Err(err) => {
                        e.state = FlowState::Table(t2);
                        reg.entries.insert(i, e);
                        proof {
                            assert(reg.entries@ =~= prev);
                        }
                        Err(err)
                    },
                }
            },
            other => {
                e.state = other;
                reg.entries.insert(i, e);
                proof {
                    assert(reg.entries@ =~= prev);
                }
                Err(FlowError::UnknownPath)
            },
        }
    }

    /// Release the handle: unbind the path, handing back the entry so
    /// subscribers can be told the stream ended.
    pub fn close(self, reg: &mut Registry) -> (r: Option<Entry>)
        requires
            old(reg).wf(),
        ensures
            final(reg).wf(),
            !final(reg).has_path(self.path@),
            r is Some <==> old(reg).has_path(self.path@),
            match r {
                Some(e) => e == old(reg).entries@[old(reg).idx_of(self.path@)]
                    && final(reg).entries@ == old(reg).entries@.remove(
                    old(reg).idx_of(self.path@),
                ),
                None => final(reg).entries@ == old(reg).entries@,
            },
    {
        reg.unbind(&self.path)
    }
}

} // verus!
