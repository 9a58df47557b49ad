//! The process-wide registry: path → live flow state + subscriber list.
//!
//! Every mutation of a flow goes through its registry entry: the state is
//! replaced and the describing delta is queued for each current
//! subscriber.  A subscriber joins by taking a full snapshot; from then on
//! its pending queue, applied to what it has already seen, is exactly the
//! entry's current state — the central consistency invariant, stated in
//! [`sub_wf`] and exposed as the law [`lemma_subscriber_sync`].  So every
//! mutation is observed exactly once and in mutation order (per path).
//!
//! Queues are bounded: rather than queue without limit for a subscriber
//! that cannot keep up, the registry drops that subscriber's pending
//! deltas and marks it for a snapshot resync ([`Registry::resync`]).
//!
//! Binding an already-bound path *replaces* the prior binding: the old
//! entry, with its state and subscribers, is discarded and the flow starts
//! fresh.  Callers that must not lose a binding check first; the policy is
//! fixed here so a dropped-and-recreated flow never inherits state.

use crate::flow::{
    apply, apply_all, lemma_apply_all_push, state_wf, DeltaV, FlowDelta, FlowMode, FlowState,
    FlowV,
};
use crate::path::Path;
use crate::FlowError;
use vstd::prelude::*;

verus! {

/// Bound on each subscriber's pending-delta queue.  A tunable of this
/// core: when a queue is full the subscriber is marked for resync instead
/// of queueing without limit.
pub const QUEUE_BOUND: usize = 16;

/// One remote observer of a flow, identified by `id` within its entry.
///
/// `delivered` is bookkeeping, not payload: the state the subscriber has
/// reconstructed so far (its join-time snapshot advanced by every delta
/// already drained to it).
pub struct Subscriber {
    pub id: u64,
    pub delivered: Ghost<FlowV>,
    pub queue: Vec<FlowDelta>,
    pub needs_resync: bool,
}

/// The spec image of a delta queue.
pub open spec fn deltas_view(q: Seq<FlowDelta>) -> Seq<DeltaV> {
    q.map_values(|d: FlowDelta| d@)
}

/// The subscriber invariant against the current state of its entry: the
/// queue is bounded, and unless the subscriber awaits a resync, what it
/// has seen plus what is pending is exactly the current state.
pub open spec fn sub_wf(sub: Subscriber, state: FlowV) -> bool {
    &&& sub.queue@.len() <= QUEUE_BOUND
    &&& (sub.needs_resync ==> sub.queue@.len() == 0)
    &&& (!sub.needs_resync ==> apply_all(sub.delivered@, deltas_view(sub.queue@)) == state)
}

/// How one emission changes one subscriber: already awaiting resync —
/// untouched; queue full — pending deltas dropped and marked for resync;
/// otherwise the delta is appended.
pub open spec fn emit_rel(o: Subscriber, n: Subscriber, d: DeltaV) -> bool {
    if o.needs_resync {
        n == o
    } else if o.queue@.len() == QUEUE_BOUND {
        &&& n.id == o.id
        &&& n.needs_resync
        &&& n.queue@.len() == 0
        &&& n.delivered == o.delivered
    } else {
        &&& n.id == o.id
        &&& !n.needs_resync
        &&& n.delivered == o.delivered
        &&& deltas_view(n.queue@) == deltas_view(o.queue@).push(d)
    }
}

/// One registered flow: its path, delivery mode, state, and current
/// subscribers.
pub struct Entry {
    pub path: Path,
    pub mode: FlowMode,
    pub state: FlowState,
    pub subs: Vec<Subscriber>,
    pub next_sub_id: u64,
}

/// A well-formed entry: the state satisfies its shape invariant and every
/// subscriber is consistent with it.
pub open spec fn entry_wf(e: Entry) -> bool {
    &&& state_wf(e.state@)
    &&& forall|k: int| 0 <= k < e.subs@.len() ==> sub_wf(#[trigger] e.subs@[k], e.state@)
}

/// The process-wide path → flow table.  Explicit state handed to every
/// operation; never ambient.
pub struct Registry {
    pub entries: Vec<Entry>,
}

impl Registry {
    /// No two live entries share a path.
    pub open spec fn paths_distinct(self) -> bool {
        forall|i: int, j: int|
            0 <= i < j < self.entries@.len() ==> self.entries@[i].path@ != self.entries@[j].path@
    }

    /// The registry invariant.
    pub open spec fn wf(self) -> bool {
        &&& self.paths_distinct()
        &&& forall|i: int| 0 <= i < self.entries@.len() ==> entry_wf(#[trigger] self.entries@[i])
    }

    /// Whether some entry is bound at `p`.
    pub open spec fn has_path(self, p: Seq<Seq<char>>) -> bool {
        exists|i: int|
            0 <= i < self.entries@.len() && (#[trigger] self.entries@[i]).path@ == p
    }

    /// The index of the entry bound at `p` (meaningful when `has_path`).
    pub open spec fn idx_of(self, p: Seq<Seq<char>>) -> int {
        choose|i: int|
            0 <= i < self.entries@.len() && (#[trigger] self.entries@[i]).path@ == p
    }

    /// The state bound at `p` (meaningful when `has_path`).
    pub open spec fn state_at(self, p: Seq<Seq<char>>) -> FlowV {
        self.entries@[self.idx_of(p)].state@
    }

    /// Under distinct paths, the entry holding `p` is unique, so the
    /// chosen index is the found one.
    pub proof fn lemma_idx_at(self, i: int)
        requires
            self.paths_distinct(),
            0 <= i < self.entries@.len(),
        ensures
            self.has_path(self.entries@[i].path@),
            self.idx_of(self.entries@[i].path@) == i,
        {
        let p = self.entries@[i].path@;
        assert(self.has_path(p));
        let j = self.idx_of(p);
        assert(0 <= j < self.entries@.len() && self.entries@[j].path@ == p);
        if i < j {
            assert(self.entries@[i].path@ != self.entries@[j].path@);
        } else if j < i {
            assert(self.entries@[j].path@ != self.entries@[i].path@);
        }
    }

    /// An empty registry: nothing bound.
    pub fn new() -> (r: Registry)
        ensures
            r.wf(),
            r.entries@.len() == 0,
    {
        Registry { entries: Vec::new() }
    }

    /// The index of the entry bound at `path`, if any.
    #[verifier::loop_isolation(false)]
    pub fn find(&self, path: &Path) -> (r: Option<usize>)
        ensures
            match r {
                Some(i) => i < self.entries@.len() && self.entries@[i as int].path@ == path@
                    && self.has_path(path@),
                None => !self.has_path(path@),
            },
    {
        let n = self.entries.len();
        let mut i: usize = 0;
        while i < n
            invariant
                i <= n,
                forall|j: int| 0 <= j < i ==> self.entries@[j].path@ != path@,
            decreases n - i,
        {
            if self.entries[i].path.eq_path(path) {
                return Some(i);
            }
            i = i + 1;
        }
        None
    }

    /// Bind `state` at `path` under the replace policy: any prior binding
    /// — its state and its subscribers — is discarded and the flow starts
    /// fresh, with no subscribers.
    #[verifier::loop_isolation(false)]
    pub fn bind(&mut self, path: &Path, mode: FlowMode, state: FlowState)
        requires
            old(self).wf(),
            state_wf(state@),
        ensures
            final(self).wf(),
            final(self).has_path(path@),
            final(self).state_at(path@) == state@,
            final(self).entries@[final(self).idx_of(path@)].subs@.len() == 0,
            final(self).entries@.last().path@ == path@,
            final(self).entries@.last().mode == mode,
            final(self).idx_of(path@) == final(self).entries@.len() - 1,
            final(self).entries@.drop_last() == if old(self).has_path(path@) {
                old(self).entries@.remove(old(self).idx_of(path@))
            } else {
                old(self).entries@
            },
    {
        let found = self.find(path);
        match found {
            Some(i) => {
                proof {
                    self.lemma_idx_at(i as int);
                }
                self.entries.remove(i);
                proof {
                    assert forall|a: int, b: int|
                        0 <= a < b < self.entries@.len() implies self.entries@[a].path@
                        != self.entries@[b].path@ by {
                        let a2 = if a < i as int {
                            a
                        } else {
                            a + 1
                        };
                        let b2 = if b < i as int {
                            b
                        } else {
                            b + 1
                        };
                        assert(self.entries@[a] == old(self).entries@[a2]);
                        assert(self.entries@[b] == old(self).entries@[b2]);
                    }
                    assert forall|j: int| 0 <= j < self.entries@.len() implies self.entries@[
                        j
                    ].path@ != path@ by {
                        let j2 = if j < i as int {
                            j
                        } else {
                            j + 1
                        };
                        assert(self.entries@[j] == old(self).entries@[j2]);
                    }
                }
            },
            None => {},
        }
        let ghost mid = self.entries@;
        let e = Entry { path: path.dup(), mode, state, subs: Vec::new(), next_sub_id: 0 };
        self.entries.push(e);
        proof {
            assert(self.entries@.drop_last() =~= mid);
            let m = self.entries@.len() - 1;
            assert(self.entries@[m].path@ == path@);
            self.lemma_idx_at(m);
        }
    }

    /// Drop the binding at `path`, handing back the whole entry so the
    /// caller can signal its subscribers that the stream has ended.
    /// A no-op returning `None` when the path is not bound.
    pub fn unbind(&mut self, path: &Path) -> (r: Option<Entry>)
        requires
            old(self).wf(),
        ensures
            final(self).wf(),
            !final(self).has_path(path@),
            r is Some <==> old(self).has_path(path@),
            match r {
                Some(e) => e == old(self).entries@[old(self).idx_of(path@)]
                    && final(self).entries@ == old(self).entries@.remove(old(self).idx_of(path@)),
                None => final(self).entries@ == old(self).entries@,
            },
    {
        let found = self.find(path);
        match found {
            Some(i) => {
                proof {
                    self.lemma_idx_at(i as int);
                }
                let e = self.entries.remove(i);
                proof {
                    assert forall|a: int, b: int|
                        0 <= a < b < self.entries@.len() implies self.entries@[a].path@
                        != self.entries@[b].path@ by {
                        let a2 = if a < i as int {
                            a
                        } else {
                            a + 1
                        };
                        let b2 = if b < i as int {
                            b
                        } else {
                            b + 1
                        };
                        assert(self.entries@[a] == old(self).entries@[a2]);
                        assert(self.entries@[b] == old(self).entries@[b2]);
                    }
                    assert forall|j: int| 0 <= j < self.entries@.len() implies self.entries@[
                        j
                    ].path@ != path@ by {
                        let j2 = if j < i as int {
                            j
                        } else {
                            j + 1
                        };
                        assert(self.entries@[j] == old(self).entries@[j2]);
                    }
                }
                Some(e)
            },
            None => None,
        }
    }

    /// Attach a new subscriber to the flow at `path`.  The returned
    /// snapshot reflects every mutation made so far — the subscriber's
    /// queue starts empty, so it will see each later mutation exactly
    /// once, in order, and no earlier one again.
    pub fn subscribe(&mut self, path: &Path) -> (r: Result<(u64, FlowState), FlowError>)
        requires
            old(self).wf(),
        ensures
            final(self).wf(),
            r is Ok <==> old(self).has_path(path@),
            final(self).entries@.len() == old(self).entries@.len(),
            forall|j: int|
                0 <= j < final(self).entries@.len() && final(self).entries@[j].path@ != path@
                    ==> final(self).entries@[j] == old(self).entries@[j],
            forall|j: int|
                0 <= j < final(self).entries@.len() ==> (#[trigger] final(self).entries@[j]).path@
                    == old(self).entries@[j].path@ && final(self).entries@[j].state@ == old(
                    self,
                ).entries@[j].state@,
            match r {
                Ok((id, snap)) => {
                    let i = old(self).idx_of(path@);
                    let subs0 = old(self).entries@[i].subs@;
                    let subs1 = final(self).entries@[i].subs@;
                    &&& old(self).has_path(path@)
                    &&& snap@ == old(self).state_at(path@)
                    &&& subs1.len() == subs0.len() + 1
                    &&& forall|k: int| 0 <= k < subs0.len() ==> subs1[k] == subs0[k]
                    &&& subs1.last().id == id
                    &&& subs1.last().delivered@ == old(self).state_at(path@)
                    &&& subs1.last().queue@.len() == 0
                    &&& !subs1.last().needs_resync
                },
                Err(e) => e == FlowError::UnknownPath && *final(self) == *old(self),
            },
    {
        let found = self.find(path);
        let i = match found {
            Some(i) => i,
            None => {
                return Err(FlowError::UnknownPath);
            },
        };
        proof {
            self.lemma_idx_at(i as int);
        }
        let mut e = self.entries.remove(i);
        let snap = e.state.snapshot();
        let id = e.next_sub_id;
        e.next_sub_id = e.next_sub_id.wrapping_add(1);
        let ghost st = e.state@;
        e.subs.push(
            Subscriber {
                id,
                delivered: Ghost(st),
                queue: Vec::new(),
                needs_resync: false,
            },
        );
        proof {
            assert(deltas_view(Seq::<FlowDelta>::empty()) =~= Seq::<DeltaV>::empty());
            assert(apply_all(st, Seq::<DeltaV>::empty()) == st);
        }
        self.entries.insert(i, e);
        proof {
            assert(self.entries@ =~= old(self).entries@.update(i as int, self.entries@[i as int]));
            assert forall|j: int| 0 <= j < self.entries@.len() implies entry_wf(
                #[trigger] self.entries@[j],
            ) by {
                if j != i as int {
                    assert(self.entries@[j] == old(self).entries@[j]);
                } else {
                    let sub1 = self.entries@[j].subs@.last();
                    assert(deltas_view(sub1.queue@) =~= Seq::<DeltaV>::empty());
                }
            }
        }
        Ok((id, snap))
    }

    /// Hand out the oldest pending delta for subscriber `sub_id` of the
    /// flow at `path`, advancing what that subscriber has seen.  Returns
    /// `Ok(None)` when nothing is pending.  The caller transmits the
    /// delta; per-path order is the queue order, which is mutation order.
    pub fn drain(&mut self, path: &Path, sub_id: u64) -> (r: Result<
        Option<FlowDelta>,
        FlowError,
    >)
        requires
            old(self).wf(),
        ensures
            final(self).wf(),
            final(self).entries@.len() == old(self).entries@.len(),
            forall|j: int|
                0 <= j < final(self).entries@.len() && final(self).entries@[j].path@ != path@
                    ==> final(self).entries@[j] == old(self).entries@[j],
            forall|j: int|
                0 <= j < final(self).entries@.len() ==> (#[trigger] final(self).entries@[j]).path@
                    == old(self).entries@[j].path@ && final(self).entries@[j].state@ == old(
                    self,
                ).entries@[j].state@,
            r is Err ==> final(self).entries@ == old(self).entries@,
            match r {
                Ok(opt) => {
                    let i = old(self).idx_of(path@);
                    let subs0 = old(self).entries@[i].subs@;
                    let subs1 = final(self).entries@[i].subs@;
                    &&& old(self).has_path(path@)
                    &&& subs1.len() == subs0.len()
                    &&& exists|k: int|
                        {
                            &&& 0 <= k < subs0.len()
                            &&& (#[trigger] subs0[k]).id == sub_id
                            &&& forall|j: int| 0 <= j < subs1.len() && j != k ==> subs1[j]
                                == subs0[j]
                            &&& match opt {
                                Some(d) => {
                                    &&& subs0[k].queue@.len() > 0
                                    &&& d == subs0[k].queue@[0]
                                    &&& subs1[k].queue@ == subs0[k].queue@.subrange(
                                        1,
                                        subs0[k].queue@.len() as int,
                                    )
                                    &&& subs1[k].delivered@ == apply(subs0[k].delivered@, d@)
                                    &&& subs1[k].id == sub_id
                                    &&& subs1[k].needs_resync == subs0[k].needs_resync
                                },
                                None => subs0[k].queue@.len() == 0 && subs1[k] == subs0[k],
                            }
                        }
                },
                Err(e) => {
                    ||| (e == FlowError::UnknownPath && !old(self).has_path(path@))
                    ||| (e == FlowError::UnknownSubscriber && old(self).has_path(path@)
                        && (forall|k: int|
                            0 <= k < old(self).entries@[old(self).idx_of(path@)].subs@.len()
                                ==> (#[trigger] old(self).entries@[old(self).idx_of(
                                path@,
                            )].subs@[k]).id != sub_id))
                },
            },
    {
        let found = self.find(path);
        let i = match found {
            Some(i) => i,
            None => {
                return Err(FlowError::UnknownPath);
            },
        };
        proof {
            self.lemma_idx_at(i as int);
        }
        let mut e = self.entries.remove(i);
        let ghost st = e.state@;
        let ghost subs0 = e.subs@;
        let m = e.subs.len();
        let mut k: usize = 0;
        let mut found_sub = m;
        #[verifier::loop_isolation(false)]
        while k < m
            invariant
                k <= m,
                found_sub == m,
                forall|j: int| 0 <= j < k ==> subs0[j].id != sub_id,
            decreases m - k,
        {
            if e.subs[k].id == sub_id {
                found_sub = k;
                break;
            }
            k = k + 1;
        }
        if found_sub == m {
            self.entries.insert(i, e);
            proof {
                assert(self.entries@ =~= old(self).entries@);
            }
            return Err(FlowError::UnknownSubscriber);
        }
        let k = found_sub;
        let opt: Option<FlowDelta>;
        if e.subs[k].queue.len() == 0 {
            opt = None;
        } else {
            let sub = &mut e.subs[k];
            let d = sub.queue.remove(0);
            proof {
                let q0 = subs0[k as int].queue@;
                assert(deltas_view(sub.queue@) =~= deltas_view(q0).subrange(
                    1,
                    q0.len() as int,
                ));
                if !sub.needs_resync {
                    assert(apply_all(subs0[k as int].delivered@, deltas_view(q0)) == st);
                    assert(deltas_view(q0)[0] == d@);
                }
            }
            sub.delivered = Ghost(apply(sub.delivered@, d@));
            opt = Some(d);
        }
        self.entries.insert(i, e);
        proof {
            assert(self.entries@ =~= old(self).entries@.update(i as int, self.entries@[i as int]));
            assert forall|j: int| 0 <= j < self.entries@.len() implies entry_wf(
                #[trigger] self.entries@[j],
            ) by {
                if j != i as int {
                    assert(self.entries@[j] == old(self).entries@[j]);
                }
            }
        }
        Ok(opt)
    }

    /// Refresh subscriber `sub_id` of the flow at `path` with a fresh
    /// full snapshot, clearing its pending queue and its resync mark.
    /// This is how a subscriber that fell behind rejoins the stream.
    pub fn resync(&mut self, path: &Path, sub_id: u64) -> (r: Result<FlowState, FlowError>)
        requires
            old(self).wf(),
        ensures
            final(self).wf(),
            final(self).entries@.len() == old(self).entries@.len(),
            forall|j: int|
                0 <= j < final(self).entries@.len() && final(self).entries@[j].path@ != path@
                    ==> final(self).entries@[j] == old(self).entries@[j],
            forall|j: int|
                0 <= j < final(self).entries@.len() ==> (#[trigger] final(self).entries@[j]).path@
                    == old(self).entries@[j].path@ && final(self).entries@[j].state@ == old(
                    self,
                ).entries@[j].state@,
            r is Err ==> final(self).entries@ == old(self).entries@,
            match r {
                Ok(snap) => {
                    let i = old(self).idx_of(path@);
                    let subs0 = old(self).entries@[i].subs@;
                    let subs1 = final(self).entries@[i].subs@;
                    &&& old(self).has_path(path@)
                    &&& snap@ == old(self).state_at(path@)
                    &&& subs1.len() == subs0.len()
                    &&& exists|k: int|
                        {
                            &&& 0 <= k < subs0.len()
                            &&& (#[trigger] subs0[k]).id == sub_id
                            &&& forall|j: int| 0 <= j < subs1.len() && j != k ==> subs1[j]
                                == subs0[j]
                            &&& subs1[k].id == sub_id
                            &&& subs1[k].delivered@ == old(self).state_at(path@)
                            &&& subs1[k].queue@.len() == 0
                            &&& !subs1[k].needs_resync
                        }
                },
                Err(e) => {
                    ||| (e == FlowError::UnknownPath && !old(self).has_path(path@))
                    ||| (e == FlowError::UnknownSubscriber && old(self).has_path(path@)
                        && (forall|k: int|
                            0 <= k < old(self).entries@[old(self).idx_of(path@)].subs@.len()
                                ==> (#[trigger] old(self).entries@[old(self).idx_of(
                                path@,
                            )].subs@[k]).id != sub_id))
                },
            },
    {
        let found = self.find(path);
        let i = match found {
            Some(i) => i,
            None => {
                return Err(FlowError::UnknownPath);
            },
        };
        proof {
            self.lemma_idx_at(i as int);
        }
        let mut e = self.entries.remove(i);
        let ghost st = e.state@;
        let ghost subs0 = e.subs@;
        let m = e.subs.len();
        let mut k: usize = 0;
        let mut found_sub = m;
        #[verifier::loop_isolation(false)]
        while k < m
            invariant
                k <= m,
                found_sub == m,
                forall|j: int| 0 <= j < k ==> subs0[j].id != sub_id,
            decreases m - k,
        {
            if e.subs[k].id == sub_id {
                found_sub = k;
                break;
            }
            k = k + 1;
        }
        if found_sub == m {
            self.entries.insert(i, e);
            proof {
                assert(self.entries@ =~= old(self).entries@);
            }
            return Err(FlowError::UnknownSubscriber);
        }
        let k = found_sub;
        let snap = e.state.snapshot();
        let sub = &mut e.subs[k];
        sub.queue = Vec::new();
        sub.needs_resync = false;
        sub.delivered = Ghost(st);
        proof {
            assert(deltas_view(Seq::<FlowDelta>::empty()) =~= Seq::<DeltaV>::empty());
        }
        self.entries.insert(i, e);
        proof {
            assert(self.entries@ =~= old(self).entries@.update(i as int, self.entries@[i as int]));
            assert forall|j: int| 0 <= j < self.entries@.len() implies entry_wf(
                #[trigger] self.entries@[j],
            ) by {
                if j != i as int {
                    assert(self.entries@[j] == old(self).entries@[j]);
                }
            }
        }
        Ok(snap)
    }

    /// A fresh snapshot of the state at `path`, for the delivery layer.
    pub fn snapshot(&self, path: &Path) -> (r: Result<FlowState, FlowError>)
        requires
            self.wf(),
        ensures
            r is Ok <==> self.has_path(path@),
            match r {
                Ok(snap) => snap@ == self.state_at(path@),
                Err(e) => e == FlowError::UnknownPath,
            },
    {
        let found = self.find(path);
        match found {
            Some(i) => {
                proof {
                    self.lemma_idx_at(i as int);
                }
                Ok(self.entries[i].state.snapshot())
            },
            None => Err(FlowError::UnknownPath),
        }
    }
}

/// Queue `d` for every subscriber whose queue has room; a full queue is
/// dropped and its subscriber marked for resync.  `s0` is the state the
/// delta was produced against, `s1` the state after it.
#[verifier::loop_isolation(false)]
pub(crate) fn emit(subs: &mut Vec<Subscriber>, d: &FlowDelta, Ghost(s0): Ghost<FlowV>, Ghost(
    s1,
): Ghost<FlowV>)
    requires
        forall|k: int| 0 <= k < old(subs)@.len() ==> sub_wf(#[trigger] old(subs)@[k], s0),
        s1 == apply(s0, d@),
    ensures
        final(subs)@.len() == old(subs)@.len(),
        forall|k: int| 0 <= k < final(subs)@.len() ==> sub_wf(#[trigger] final(subs)@[k], s1),
        forall|k: int| 0 <= k < final(subs)@.len() ==> emit_rel(old(subs)@[k], #[trigger] final(subs)@[k], d@),
{
    let ghost subs0 = subs@;
    let m = subs.len();
    let mut k: usize = 0;
    while k < m
        invariant
            k <= m,
            subs@.len() == m,
            forall|j: int| k <= j < m ==> subs@[j] == subs0[j],
            forall|j: int| 0 <= j < k ==> sub_wf(#[trigger] subs@[j], s1),
            forall|j: int| 0 <= j < k ==> emit_rel(subs0[j], #[trigger] subs@[j], d@),
        decreases m - k,
    {
        let ghost pre = subs@[k as int];
        proof {
            assert(sub_wf(old(subs)@[k as int], s0));
            assert(pre == subs0[k as int]);
            assert(subs0[k as int] == old(subs)@[k as int]);
        }
        if subs[k].needs_resync {
            proof {
                assert(subs@[k as int] == pre);
                assert(sub_wf(subs@[k as int], s1));
                assert(emit_rel(pre, subs@[k as int], d@));
            }
        } else if subs[k].queue.len() >= QUEUE_BOUND {
            let sub = &mut subs[k];
            sub.queue = Vec::new();
            sub.needs_resync = true;
            proof {
                assert(subs@[k as int].queue@.len() == 0);
                assert(sub_wf(subs@[k as int], s1));
                assert(emit_rel(pre, subs@[k as int], d@));
            }
        } else {
            let sub = &mut subs[k];
            sub.queue.push(d.dup());
            proof {
                assert(deltas_view(sub.queue@) =~= deltas_view(pre.queue@).push(d@));
                lemma_apply_all_push(pre.delivered@, deltas_view(pre.queue@), d@);
            }
            proof {
                assert(apply_all(pre.delivered@, deltas_view(pre.queue@)) == s0);
                assert(apply_all(subs@[k as int].delivered@, deltas_view(subs@[k as int].queue@))
                    == s1);
                assert(sub_wf(subs@[k as int], s1));
                assert(emit_rel(pre, subs@[k as int], d@));
            }
        }
        k = k + 1;
    }
}

/// Law: a subscriber in good standing reconstructs the current state
/// exactly — the snapshot it joined with (or last resynced to), advanced
/// by its pending deltas in order, is the entry's state.  No mutation is
/// duplicated and none is missing.
pub proof fn lemma_subscriber_sync(r: Registry, i: int, k: int)
    requires
        r.wf(),
        0 <= i < r.entries@.len(),
        0 <= k < r.entries@[i].subs@.len(),
        !r.entries@[i].subs@[k].needs_resync,
    ensures
        apply_all(
            r.entries@[i].subs@[k].delivered@,
            deltas_view(r.entries@[i].subs@[k].queue@),
        ) == r.entries@[i].state@,
{
    assert(entry_wf(r.entries@[i]));
    assert(sub_wf(r.entries@[i].subs@[k], r.entries@[i].state@));
}

} // verus!
