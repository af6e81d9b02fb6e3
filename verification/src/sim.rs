//! The simulation of the energy consumption of the charging stations depends
//! on the following assumptions:
//! - Temporal resolution is 15 minutes (365d * 24 * 4 = 35040 ticks).
//! - A charging station can charge one EV (electric vehicle) at a time.
//! - An EV leaves the station in the last tick of its charging period.
//! - All EVs consume 18 kWh for a 100 km charge.
//!
//! The simulation calculates the total energy consumed, the theoretical
//! maximum power demand, and the actual maximum power demand (the maximum sum
//! of all charge points' power demands over any one 15-minute interval).
use vstd::prelude::*;
use crate::{DEFAULT_CHARGING_SPEED_W, MAX_DEMAND_BUCKETS, MAX_THEORETICAL_W, MWH_PER_W_TICK, PROB_SCALE};
use crate::charging_station::{
    decremented, lemma_actual_max_bounds, lemma_consumption_accumulates, lemma_power_all_idle,
    admitted, admission_result, passed, power_now, ticks_for, StationManager,
};
use crate::input::Input;
use crate::output::SimResult;
use crate::probabilities::{
    all_zero_demand, lemma_sample_zero_demand, spec_sample, ArrivalProbabilities,
};
use vstd::arithmetic::div_mod::lemma_basic_div;

verus! {

/// One simulated year at 15-minute resolution: 365 * 24 * 4 ticks.
pub const DEFAULT_TICK_COUNT: usize = 365 * 24 * 4;

/// Sum of a sequence of per-tick power draws.
pub open spec fn seq_sum(s: Seq<int>) -> int
    decreases s.len(),
{
    if s.len() == 0 {
        0
    } else {
        seq_sum(s.drop_last()) + s.last()
    }
}

/// Largest entry of a sequence of per-tick power draws; zero when no tick ran
/// yet.
pub open spec fn seq_peak(s: Seq<int>) -> int
    decreases s.len(),
{
    if s.len() == 0 {
        0
    } else {
        vstd::math::max(seq_peak(s.drop_last()), s.last())
    }
}

/// Takes a tick of a year and returns the arrival probability of the hour
/// slot that the tick is mapped to.
pub fn map_tick_to_arrival_probability(tick: usize, prob: &ArrivalProbabilities) -> (r: u32)
    ensures
        r == prob@[tick as int % 24],
{
    let index = tick % 24;
    prob[index]
}

/// Simulates the energy consumption characteristics of an EV charging lot
/// over one year.
///
/// The run is stochastic: the result is guaranteed to be the aggregation of
/// some sequence of admissible per-tick power draws, each bounded by the
/// theoretical maximum, with the year's consumption equal to the sum of the
/// draws over the ticks and the actual maximum equal to their peak. With an
/// arrival table that is zero everywhere, or a demand table that only offers
/// zero charges, nothing is ever drawn.
pub fn simulate_station(input: Input) -> (r: SimResult)
    requires
        input.valid(),
    ensures
        r.theoretical_max_w as int == input.charge_points as int * DEFAULT_CHARGING_SPEED_W as int,
        exists|powers: Seq<int>|
            #![auto]
            powers.len() == DEFAULT_TICK_COUNT && (forall|t: int|
                0 <= t < powers.len() ==> 0 <= #[trigger] powers[t] <= r.theoretical_max_w as int)
                && r.consumption_year_mwh as int == seq_sum(powers) * MWH_PER_W_TICK
                && r.actual_max_w as int == seq_peak(powers),
        r.actual_max_w <= r.theoretical_max_w,
        (forall|h: int| 0 <= h < 24 ==> input.arrival_probabilities@[h] == 0) ==> (
        r.actual_max_w == 0 && r.consumption_year_mwh == 0),
        all_zero_demand(input.charge_probabilities@) ==> (r.actual_max_w == 0
            && r.consumption_year_mwh == 0),
{
    let mut stations = StationManager::new(input.charge_points as usize, DEFAULT_CHARGING_SPEED_W);
    let ghost mut powers: Seq<int> = Seq::empty();
    let mut tick: usize = 0;
    while tick < DEFAULT_TICK_COUNT
        invariant
            stations.wf(),
            tick <= DEFAULT_TICK_COUNT,
            input.charge_probabilities@.len() <= MAX_DEMAND_BUCKETS,
            stations.res.theoretical_max_w as int == input.charge_points as int
                * DEFAULT_CHARGING_SPEED_W as int,
            powers.len() == tick,
            forall|t: int|
                0 <= t < powers.len() ==> 0 <= #[trigger] powers[t]
                    <= stations.res.theoretical_max_w as int,
            stations.res.consumption_year_mwh as int == seq_sum(powers) * MWH_PER_W_TICK,
            stations.res.actual_max_w as int == seq_peak(powers),
            stations.res.consumption_year_mwh as int <= tick as int * MAX_THEORETICAL_W as int
                * MWH_PER_W_TICK as int,
            (forall|h: int| 0 <= h < 24 ==> input.arrival_probabilities@[h] == 0) ==> (
            stations.res.actual_max_w == 0 && stations.res.consumption_year_mwh == 0 && forall|
                j: int,
            |
                0 <= j < stations.stations@.len() ==> (#[trigger] stations.stations@[j])
                    .occupied_for_ticks == 0),
            all_zero_demand(input.charge_probabilities@) ==> (stations.res.actual_max_w == 0
                && stations.res.consumption_year_mwh == 0 && forall|j: int|
                0 <= j < stations.stations@.len() ==> (#[trigger] stations.stations@[j])
                    .occupied_for_ticks == 0),
        decreases DEFAULT_TICK_COUNT - tick,
    {
        proof {
            assert(MAX_THEORETICAL_W == 1_000_000_000 && MWH_PER_W_TICK == 250
                && DEFAULT_TICK_COUNT == 35040);
            assert(tick as int * MAX_THEORETICAL_W as int * MWH_PER_W_TICK as int <= 35040
                * 1_000_000_000 * 250) by (nonlinear_arith)
                requires
                    0 <= tick as int <= 35040,
            ;
        }
        let ghost pre = stations;
        let arrival_probability = map_tick_to_arrival_probability(
            tick,
            &input.arrival_probabilities,
        );
        let result = stations.recalculate_tick(arrival_probability, &input.charge_probabilities);
        proof {
            lemma_actual_max_bounds(
                pre,
                stations,
                arrival_probability,
                input.charge_probabilities@,
                result,
            );
            lemma_consumption_accumulates(
                pre,
                stations,
                arrival_probability,
                input.charge_probabilities@,
                result,
            );
            let p = power_now(stations.stations@);
            let newpowers = powers.push(p);
            assert(newpowers.drop_last() =~= powers);
            assert(seq_sum(newpowers) == seq_sum(powers) + p);
            assert(seq_peak(newpowers) == vstd::math::max(seq_peak(powers), p));
            assert((seq_sum(powers) + p) * MWH_PER_W_TICK == seq_sum(powers) * MWH_PER_W_TICK + p
                * MWH_PER_W_TICK) by (nonlinear_arith);
            powers = newpowers;
            let mid = decremented(pre.stations@);
            let a = choose|a: int|
                (#[trigger] admitted(mid, stations.stations@, a, input.charge_probabilities@)) && 0
                    <= a <= mid.len() && admission_result(mid, a, result) && (arrival_probability
                    == 0 ==> a == 0) && (arrival_probability >= PROB_SCALE ==> a == mid.len());
            if forall|h: int| 0 <= h < 24 ==> input.arrival_probabilities@[h] == 0 {
                assert(input.arrival_probabilities@[tick as int % 24] == 0);
                assert(a == 0);
                assert forall|j: int| 0 <= j < stations.stations@.len() implies (
                #[trigger] stations.stations@[j]).occupied_for_ticks == 0 by {
                    assert(mid[j] == passed(pre.stations@[j]));
                    crate::charging_station::lemma_idle_count_bounds(mid.take(j));
                    assert(!(mid[j].occupied_for_ticks == 0 && crate::charging_station::idle_count(
                        mid.take(j),
                    ) < a));
                    assert(stations.stations@[j] == mid[j]);
                }
                lemma_power_all_idle(stations.stations@);
            }
            if all_zero_demand(input.charge_probabilities@) {
                assert forall|j: int| 0 <= j < stations.stations@.len() implies (
                #[trigger] stations.stations@[j]).occupied_for_ticks == 0 by {
                    assert(mid[j] == passed(pre.stations@[j]));
                    assert(mid[j].occupied_for_ticks == 0);
                    if crate::charging_station::idle_count(mid.take(j)) < a {
                        let d = choose|draw: u32|
                            draw < PROB_SCALE && stations.stations@[j].occupied_for_ticks as int
                                == ticks_for(
                                spec_sample(input.charge_probabilities@, draw as int),
                                mid[j].charging_speed_w as int,
                            );
                        lemma_sample_zero_demand(input.charge_probabilities@, d as int, 0);
                        assert(spec_sample(input.charge_probabilities@, d as int) == 0);
                        assert(mid[j].charging_speed_w >= 1);
                        lemma_basic_div(
                            1000 * mid[j].charging_speed_w as int - 1,
                            1000 * mid[j].charging_speed_w as int,
                        );
                        assert(ticks_for(0, mid[j].charging_speed_w as int) == 0);
                    } else {
                        assert(stations.stations@[j] == mid[j]);
                    }
                }
                lemma_power_all_idle(stations.stations@);
            }
        }
        tick = tick + 1;
    }
    stations.res
}

} // verus!
