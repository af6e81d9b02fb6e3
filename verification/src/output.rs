//! The types needed to represent the results of the simulation.
use vstd::prelude::*;

verus! {

#[derive(Debug, Clone, Copy)]
pub struct SimResult {
    /// Power demand in watts in case all charging stations are active at the
    /// same time.
    pub theoretical_max_w: u64,
    /// The lot's accumulated energy consumption over the simulated period, in
    /// milliwatt-hours.
    pub consumption_year_mwh: u64,
    /// Highest power output in watts that the lot actually demanded during
    /// any one tick.
    pub actual_max_w: u64,
}

impl SimResult {
    pub fn init_zero() -> (r: Self)
        ensures
            r.theoretical_max_w == 0,
            r.consumption_year_mwh == 0,
            r.actual_max_w == 0,
    {
        Self { theoretical_max_w: 0, consumption_year_mwh: 0, actual_max_w: 0 }
    }
}

} // verus!
