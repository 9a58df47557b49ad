//! Gauge flow: a scalar current value with advisory display bounds.
//!
//! The four bound fields of [`GaugeOpts`] are metadata for renderers only:
//! they never gate [`GaugeState::set`], which replaces the value
//! unconditionally.  Each bound is independently optional and defaults to
//! unset.

use vstd::prelude::*;

verus! {

/// Immutable gauge configuration fixed at creation.  Every field is
/// present; an absent caller option is `None` (unset/unbounded).
pub struct GaugeOpts {
    pub min: Option<i64>,
    pub lower: Option<i64>,
    pub max: Option<i64>,
    pub higher: Option<i64>,
}

impl Default for GaugeOpts {
    /// All bounds unset.
    fn default() -> (r: GaugeOpts)
        ensures
            r.min is None,
            r.lower is None,
            r.max is None,
            r.higher is None,
    {
        GaugeOpts { min: None, lower: None, max: None, higher: None }
    }
}

/// State of a gauge flow; the value starts at 0 and the opts never change.
pub struct GaugeState {
    pub opts: GaugeOpts,
    pub value: i64,
}

impl GaugeState {
    /// A fresh gauge holds 0 under the given advisory bounds.
    pub fn new(opts: GaugeOpts) -> (r: GaugeState)
        ensures
            r.value == 0,
            r.opts == opts,
    {
        GaugeState { opts, value: 0 }
    }

    /// Replace the current value.  Always succeeds: the declared bounds are
    /// advisory metadata and are not consulted, so any value — including
    /// one below a declared `min` — becomes the readable current value.
    pub fn set(self, value: i64) -> (r: GaugeState)
        ensures
            r.value == value,
            r.opts == self.opts,
    {
        GaugeState { opts: self.opts, value }
    }
}

} // verus!
