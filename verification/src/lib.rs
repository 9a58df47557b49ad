//! A verified core for a real-time telemetry flow engine.
//!
//! A *flow* is one addressable live-data instance: a counter, gauge, pulse,
//! histogram, key/value board, or mutable table.  Each flow is named by a
//! hierarchical dot-delimited [`path::Path`], owns a typed state, and every
//! mutation yields a [`flow::FlowDelta`] that subscribers apply to stay in
//! sync.  The [`registry::Registry`] maps paths to live flow state plus the
//! per-subscriber delta queues, and maintains the central consistency
//! invariant: the snapshot a subscriber joined with, advanced by its pending
//! deltas, is exactly the current state.
//!
//! Scalar readings (gauge values, pulse samples, histogram samples and bucket
//! levels) enter the core as signed 64-bit keys.  Callers that measure in
//! floating point convert through any order-preserving encoding of their
//! choice before handing values to the core; the core only compares and
//! stores the keys, so bucketing and ordering are preserved under any such
//! encoding.

use vstd::prelude::*;

pub mod assoc;
pub mod board;
pub mod counter;
pub mod flow;
pub mod gauge;
pub mod histogram;
pub mod path;
pub mod pulse;
pub mod registry;
pub mod tracer;
pub mod table;

verus! {

/// Errors surfaced synchronously to the mutating caller.
#[derive(Clone, Copy, Debug, PartialEq, Eq, Structural)]
pub enum FlowError {
    /// The path string is empty or contains an empty segment.
    InvalidPath,
    /// No flow of the expected type is currently bound at the path
    /// (the handle is stale: its binding was dropped or replaced).
    UnknownPath,
    /// A table cell was addressed through a row that was never added.
    UnknownRow,
    /// A table cell was addressed through a column the spec never declared.
    UnknownColumn,
    /// A flow spec is ill-formed (duplicate column ids in a table spec).
    SpecViolation,
    /// The addressed subscriber is not attached to the flow.
    UnknownSubscriber,
}

} // verus!
