//! Simulation of the expected energy consumption and peak power usage of a lot
//! of EV charging stations.
//!
//! All physical quantities are held as integers in fixed units, so that every
//! computation is exact:
//! - power in watts (`u32` per station, `u64` for aggregates),
//! - charging demand in meters of range,
//! - energy in milliwatt-hours,
//! - probabilities in parts per million of certainty.
use vstd::prelude::*;

pub mod charging_station;
pub mod error;
pub mod input;
pub mod output;
pub mod probabilities;
pub mod sim;

verus! {

/// Probabilities are fixed-point values in parts per million:
/// `0` never happens, `PROB_SCALE` is certainty.
pub const PROB_SCALE: u32 = 1_000_000;

/// Power used to charge the batteries of the EVs, in watts (11 kW).
pub const DEFAULT_CHARGING_SPEED_W: u32 = 11_000;

/// Energy needed to charge one EV with electricity worth 1 km of traveling,
/// in watt-hours per kilometer (0.18 kWh/km).
pub const ENERGY_WH_PER_KM: u32 = 180;

/// Temporal resolution of the simulation: one tick is a quarter of an hour.
pub const TICKS_PER_HOUR: u32 = 4;

pub const METERS_PER_KM: u32 = 1000;

/// Energy in milliwatt-hours drawn by one watt of power over one tick
/// (a quarter of an hour).
pub const MWH_PER_W_TICK: u64 = 250;

/// Cap on the installed power of a simulated lot (1 GW), so that a year's
/// accumulated energy always fits in a `u64`.
pub const MAX_THEORETICAL_W: u64 = 1_000_000_000;

/// Cap on the number of buckets of a demand distribution, so that cumulative
/// probability mass fits in a `u64` while sampling.
pub const MAX_DEMAND_BUCKETS: usize = 100_000_000;

/// Cap on the charging demand of a single EV (100 000 km of range), so that
/// the mean of a demand distribution fits in a `u64`.
pub const MAX_DISTANCE_M: u32 = 100_000_000;

} // verus!
