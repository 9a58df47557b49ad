//! The closed set of flow variants, their spec-level images, and deltas.
//!
//! A [`FlowState`] is the current value of one flow instance; a
//! [`FlowDelta`] is the minimal description of one state transition, the
//! unit sent to subscribers in place of a full snapshot.  [`apply`] is the
//! single spec-level meaning of a delta; every mutation of the registry
//! produces a delta whose application reproduces the mutation, which is
//! what keeps subscribers in lock-step with the owner.

use crate::assoc::{a_remove, a_set, a_unique};
use crate::board::{board_view, BoardState};
use crate::counter::{inc_spec, CounterState};
use crate::gauge::{GaugeOpts, GaugeState};
use crate::histogram::{bucket_spec, sat_inc, HistogramState};
use crate::pulse::{push_spec, PulseState, HISTORY_BOUND};
use crate::table::{
    add_row_spec, cells_view, row_ok, rows_view, set_cell_spec, TableState,
};
use vstd::prelude::*;

verus! {

/// Delivery semantics of a flow.  `Realtime` delivers every delta as it
/// is produced, without batching.  Future semantics (buffered or batched
/// delivery) become further enumerants; carrying the mode on every entry
/// keeps them from restructuring the registry.
#[derive(Clone, Copy, Debug, PartialEq, Eq, Structural)]
pub enum FlowMode {
    Realtime,
}

/// The current value of one flow instance, owned by its registry entry.
pub enum FlowState {
    Counter(CounterState),
    Gauge(GaugeState),
    Pulse(PulseState),
    Histogram(HistogramState),
    Board(BoardState),
    Table(TableState),
}

/// The spec-level image of a flow state.
pub enum FlowV {
    Counter { value: i64 },
    Gauge { opts: GaugeOpts, value: i64 },
    Pulse { history: Seq<i64> },
    Histogram { levels: Seq<i64>, counts: Seq<u64>, total: u64 },
    Board { entries: Seq<(Seq<char>, Seq<char>)> },
    Table { columns: Seq<(u64, Seq<char>)>, rows: Seq<(u64, Seq<(u64, Seq<char>)>)> },
}

impl View for FlowState {
    type V = FlowV;

    open spec fn view(&self) -> FlowV {
        match self {
            FlowState::Counter(c) => FlowV::Counter { value: c.value },
            FlowState::Gauge(g) => FlowV::Gauge { opts: g.opts, value: g.value },
            FlowState::Pulse(p) => FlowV::Pulse { history: p.history@ },
            FlowState::Histogram(h) => FlowV::Histogram {
                levels: h.levels@,
                counts: h.counts@,
                total: h.total,
            },
            FlowState::Board(b) => FlowV::Board { entries: board_view(b.entries@) },
            FlowState::Table(t) => FlowV::Table {
                columns: cells_view(t.columns@),
                rows: rows_view(t.rows@),
            },
        }
    }
}

/// The shape invariant of a flow state, per variant.
pub open spec fn state_wf(v: FlowV) -> bool {
    match v {
        FlowV::Counter { .. } => true,
        FlowV::Gauge { .. } => true,
        FlowV::Pulse { history } => history.len() <= HISTORY_BOUND,
        FlowV::Histogram { levels, counts, .. } => counts.len() == levels.len() + 1,
        FlowV::Board { entries } => a_unique(entries),
        FlowV::Table { columns, rows } => a_unique(columns) && a_unique(rows) && forall|i: int|
            0 <= i < rows.len() ==> row_ok(columns, #[trigger] rows[i].1),
    }
}

/// One state transition, as sent to subscribers.
pub enum FlowDelta {
    CounterInc { delta: i64 },
    GaugeSet { value: i64 },
    PulsePush { value: i64 },
    HistogramAdd { value: i64 },
    BoardSet { key: String, value: String },
    TableAddRow { row: u64 },
    TableDelRow { row: u64 },
    TableSetCell { row: u64, col: u64, value: String },
}

/// The spec-level image of a delta.
pub enum DeltaV {
    CounterInc { delta: i64 },
    GaugeSet { value: i64 },
    PulsePush { value: i64 },
    HistogramAdd { value: i64 },
    BoardSet { key: Seq<char>, value: Seq<char> },
    TableAddRow { row: u64 },
    TableDelRow { row: u64 },
    TableSetCell { row: u64, col: u64, value: Seq<char> },
}

impl View for FlowDelta {
    type V = DeltaV;

    open spec fn view(&self) -> DeltaV {
        match self {
            FlowDelta::CounterInc { delta } => DeltaV::CounterInc { delta: *delta },
            FlowDelta::GaugeSet { value } => DeltaV::GaugeSet { value: *value },
            FlowDelta::PulsePush { value } => DeltaV::PulsePush { value: *value },
            FlowDelta::HistogramAdd { value } => DeltaV::HistogramAdd { value: *value },
            FlowDelta::BoardSet { key, value } => DeltaV::BoardSet { key: key@, value: value@ },
            FlowDelta::TableAddRow { row } => DeltaV::TableAddRow { row: *row },
            FlowDelta::TableDelRow { row } => DeltaV::TableDelRow { row: *row },
            FlowDelta::TableSetCell { row, col, value } => DeltaV::TableSetCell {
                row: *row,
                col: *col,
                value: value@,
            },
        }
    }
}

/// The meaning of one delta: the state after the transition it describes.
/// A delta aimed at a state of another shape leaves the state untouched;
/// the registry only ever queues deltas produced against the very state
/// they reach.
pub open spec fn apply(s: FlowV, d: DeltaV) -> FlowV {
    match (s, d) {
        (FlowV::Counter { value }, DeltaV::CounterInc { delta }) => FlowV::Counter {
            value: inc_spec(value, delta),
        },
        (FlowV::Gauge { opts, .. }, DeltaV::GaugeSet { value }) => FlowV::Gauge { opts, value },
        (FlowV::Pulse { history }, DeltaV::PulsePush { value }) => FlowV::Pulse {
            history: push_spec(history, value),
        },
        (FlowV::Histogram { levels, counts, total }, DeltaV::HistogramAdd { value }) => FlowV::Histogram {
            levels,
            counts: counts.update(
                bucket_spec(levels, value),
                sat_inc(counts[bucket_spec(levels, value)]),
            ),
            total: sat_inc(total),
        },
        (FlowV::Board { entries }, DeltaV::BoardSet { key, value }) => FlowV::Board {
            entries: a_set(entries, key, value),
        },
        (FlowV::Table { columns, rows }, DeltaV::TableAddRow { row }) => FlowV::Table {
            columns,
            rows: add_row_spec(rows, row),
        },
        (FlowV::Table { columns, rows }, DeltaV::TableDelRow { row }) => FlowV::Table {
            columns,
            rows: a_remove(rows, row),
        },
        (FlowV::Table { columns, rows }, DeltaV::TableSetCell { row, col, value }) => FlowV::Table {
            columns,
            rows: set_cell_spec(rows, row, col, value),
        },
        (_, _) => s,
    }
}

/// The state after a whole queue of deltas, oldest first.
pub open spec fn apply_all(s: FlowV, q: Seq<DeltaV>) -> FlowV
    decreases q.len(),
{
    if q.len() == 0 {
        s
    } else {
        apply_all(apply(s, q[0]), q.subrange(1, q.len() as int))
    }
}

/// Appending a delta to a queue defers exactly one more application.
pub proof fn lemma_apply_all_push(s: FlowV, q: Seq<DeltaV>, d: DeltaV)
    ensures
        apply_all(s, q.push(d)) == apply(apply_all(s, q), d),
    decreases q.len(),
{
    reveal_with_fuel(apply_all, 2);
    if q.len() == 0 {
        assert(q.push(d).subrange(1, 1) =~= Seq::<DeltaV>::empty());
        assert(q.push(d)[0] == d);
    } else {
        assert(q.push(d)[0] == q[0]);
        assert(q.push(d).subrange(1, (q.len() + 1) as int) =~= q.subrange(
            1,
            q.len() as int,
        ).push(d));
        lemma_apply_all_push(apply(s, q[0]), q.subrange(1, q.len() as int), d);
        assert(apply_all(s, q.push(d)) == apply_all(
            apply(s, q[0]),
            q.subrange(1, q.len() as int).push(d),
        ));
    }
}

fn dup_i64s(v: &Vec<i64>) -> (r: Vec<i64>)
    ensures
        r@ == v@,
{
    let mut r: Vec<i64> = Vec::new();
    let n = v.len();
    let mut i: usize = 0;
    while i < n
        invariant
            i <= n,
            n == v@.len(),
            r@ == v@.subrange(0, i as int),
        decreases n - i,
    {
        r.push(v[i]);
        proof {
            assert(r@ =~= v@.subrange(0, i + 1));
        }
        i = i + 1;
    }
    proof {
        assert(r@ =~= v@);
    }
    r
}

fn dup_u64s(v: &Vec<u64>) -> (r: Vec<u64>)
    ensures
        r@ == v@,
{
    let mut r: Vec<u64> = Vec::new();
    let n = v.len();
    let mut i: usize = 0;
    while i < n
        invariant
            i <= n,
            n == v@.len(),
            r@ == v@.subrange(0, i as int),
        decreases n - i,
    {
        r.push(v[i]);
        proof {
            assert(r@ =~= v@.subrange(0, i + 1));
        }
        i = i + 1;
    }
    proof {
        assert(r@ =~= v@);
    }
    r
}

#[verifier::loop_isolation(false)]
fn dup_board_entries(v: &Vec<(String, String)>) -> (r: Vec<(String, String)>)
    ensures
        board_view(r@) == board_view(v@),
{
    let mut r: Vec<(String, String)> = Vec::new();
    let n = v.len();
    let mut i: usize = 0;
    while i < n
        invariant
            i <= n,
            r@.len() == i,
            forall|j: int| 0 <= j < i ==> board_view(r@)[j] == board_view(v@)[j],
        decreases n - i,
    {
        let p = &v[i];
        r.push((p.0.clone(), p.1.clone()));
        i = i + 1;
    }
    proof {
        assert(board_view(r@) =~= board_view(v@));
    }
    r
}

#[verifier::loop_isolation(false)]
fn dup_cols(v: &Vec<(u64, String)>) -> (r: Vec<(u64, String)>)
    ensures
        cells_view(r@) == cells_view(v@),
{
    let mut r: Vec<(u64, String)> = Vec::new();
    let n = v.len();
    let mut i: usize = 0;
    while i < n
        invariant
            i <= n,
            r@.len() == i,
            forall|j: int| 0 <= j < i ==> cells_view(r@)[j] == cells_view(v@)[j],
        decreases n - i,
    {
        let p = &v[i];
        r.push((p.0, p.1.clone()));
        i = i + 1;
    }
    proof {
        assert(cells_view(r@) =~= cells_view(v@));
    }
    r
}

#[verifier::loop_isolation(false)]
fn dup_rows(v: &Vec<(u64, Vec<(u64, String)>)>) -> (r: Vec<(u64, Vec<(u64, String)>)>)
    ensures
        rows_view(r@) == rows_view(v@),
{
    let mut r: Vec<(u64, Vec<(u64, String)>)> = Vec::new();
    let n = v.len();
    let mut i: usize = 0;
    while i < n
        invariant
            i <= n,
            r@.len() == i,
            forall|j: int| 0 <= j < i ==> rows_view(r@)[j] == rows_view(v@)[j],
        decreases n - i,
    {
        let p = &v[i];
        let cells = dup_cols(&p.1);
        r.push((p.0, cells));
        i = i + 1;
    }
    proof {
        assert(rows_view(r@) =~= rows_view(v@));
    }
    r
}

impl FlowState {
    /// An independent copy with the same spec image: the full snapshot
    /// handed to a newly joined subscriber.
    pub fn snapshot(&self) -> (r: FlowState)
        ensures
            r@ == self@,
    {
        match self {
            FlowState::Counter(c) => FlowState::Counter(CounterState { value: c.value }),
            FlowState::Gauge(g) => FlowState::Gauge(
                GaugeState {
                    opts: GaugeOpts {
                        min: g.opts.min,
                        lower: g.opts.lower,
                        max: g.opts.max,
                        higher: g.opts.higher,
                    },
                    value: g.value,
                },
            ),
            FlowState::Pulse(p) => FlowState::Pulse(PulseState { history: dup_i64s(&p.history) }),
            FlowState::Histogram(h) => FlowState::Histogram(
                HistogramState {
                    levels: dup_i64s(&h.levels),
                    counts: dup_u64s(&h.counts),
                    total: h.total,
                },
            ),
            FlowState::Board(b) => FlowState::Board(
                BoardState { entries: dup_board_entries(&b.entries) },
            ),
            FlowState::Table(t) => FlowState::Table(
                TableState { columns: dup_cols(&t.columns), rows: dup_rows(&t.rows) },
            ),
        }
    }
}

impl FlowDelta {
    /// An independent copy describing the same transition: the same delta
    /// is queued for every subscriber of the path.
    pub fn dup(&self) -> (r: FlowDelta)
        ensures
            r@ == self@,
    {
        match self {
            FlowDelta::CounterInc { delta } => FlowDelta::CounterInc { delta: *delta },
            FlowDelta::GaugeSet { value } => FlowDelta::GaugeSet { value: *value },
            FlowDelta::PulsePush { value } => FlowDelta::PulsePush { value: *value },
            FlowDelta::HistogramAdd { value } => FlowDelta::HistogramAdd { value: *value },
            FlowDelta::BoardSet { key, value } => FlowDelta::BoardSet {
                key: key.clone(),
                value: value.clone(),
            },
            FlowDelta::TableAddRow { row } => FlowDelta::TableAddRow { row: *row },
            FlowDelta::TableDelRow { row } => FlowDelta::TableDelRow { row: *row },
            FlowDelta::TableSetCell { row, col, value } => FlowDelta::TableSetCell {
                row: *row,
                col: *col,
                value: value.clone(),
            },
        }
    }
}

} // verus!
