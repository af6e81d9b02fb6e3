//! Logic to handle the distribution/occupancy of charging stations.
use vstd::prelude::*;
use vstd::arithmetic::div_mod::{
    lemma_basic_div, lemma_div_is_ordered, lemma_div_is_ordered_by_denominator,
    lemma_div_plus_one, lemma_div_pos_is_pos,
};
use vstd::arithmetic::mul::lemma_mul_inequality;
use crate::{
    DEFAULT_CHARGING_SPEED_W, ENERGY_WH_PER_KM, MAX_DEMAND_BUCKETS, MAX_THEORETICAL_W,
    METERS_PER_KM, MWH_PER_W_TICK, PROB_SCALE, TICKS_PER_HOUR,
    output::SimResult,
    probabilities::{
        random_below, spec_sample, get_weighted_demand, ChargeProbabilities, ChargingNeed,
    },
};

verus! {

#[derive(Debug, Clone, Copy)]
pub enum StationManagerError {
    /// Carries the number of EVs that could not be assigned to a charging
    /// station.
    NoEmptyChargingStations(u32),
}

/// Charging stations can only serve one EV at a time. The EV is assumed to
/// leave the charging station in the last tick of its charging period.
#[derive(Debug, Clone, Copy)]
pub struct ChargingStation {
    /// Ticks left until the charging station is available again; zero means
    /// the station is idle.
    pub occupied_for_ticks: u32,
    /// Power output of the charging station in watts.
    pub charging_speed_w: u32,
}

/// The number of whole ticks for which a station stays occupied while
/// delivering `distance_m` meters worth of charge: the hours needed at the
/// station's power rating, in ticks, rounded up to the next whole tick.
pub open spec fn ticks_for(distance_m: int, speed_w: int) -> int {
    (TICKS_PER_HOUR * ENERGY_WH_PER_KM * distance_m + (METERS_PER_KM * speed_w - 1))
        / (METERS_PER_KM * speed_w)
}

/// Holds when `t` is an occupancy duration that some admissible draw of the
/// demand distribution `dist` can produce at the given station rating.
pub open spec fn is_sampled_ticks(t: int, dist: Seq<ChargingNeed>, speed_w: int) -> bool {
    exists|draw: u32| draw < PROB_SCALE && t == ticks_for(spec_sample(dist, draw as int), speed_w)
}

/// The state of a station after one tick passed: the remaining occupancy is
/// decremented, saturating at zero.
pub open spec fn passed(st: ChargingStation) -> ChargingStation {
    ChargingStation {
        occupied_for_ticks: if st.occupied_for_ticks > 0 {
            (st.occupied_for_ticks - 1) as u32
        } else {
            0u32
        },
        charging_speed_w: st.charging_speed_w,
    }
}

/// All stations of a pool after one tick passed.
pub open spec fn decremented(s: Seq<ChargingStation>) -> Seq<ChargingStation> {
    Seq::new(s.len(), |i: int| passed(s[i]))
}

/// Sum of the power ratings of all stations, in watts.
pub open spec fn total_speed(s: Seq<ChargingStation>) -> int
    decreases s.len(),
{
    if s.len() == 0 {
        0
    } else {
        total_speed(s.drop_last()) + s.last().charging_speed_w
    }
}

/// Instantaneous power draw in watts: the sum of the ratings of the stations
/// that are currently occupied.
pub open spec fn power_now(s: Seq<ChargingStation>) -> int
    decreases s.len(),
{
    if s.len() == 0 {
        0
    } else {
        power_now(s.drop_last()) + if s.last().occupied_for_ticks > 0 {
            s.last().charging_speed_w as int
        } else {
            0
        }
    }
}

/// Number of idle stations in the pool.
pub open spec fn idle_count(s: Seq<ChargingStation>) -> int
    decreases s.len(),
{
    if s.len() == 0 {
        0
    } else {
        idle_count(s.drop_last()) + if s.last().occupied_for_ticks == 0 {
            1int
        } else {
            0
        }
    }
}

pub proof fn lemma_take_step(s: Seq<ChargingStation>, i: int)
    requires
        0 <= i < s.len(),
    ensures
        total_speed(s.take(i + 1)) == total_speed(s.take(i)) + s[i].charging_speed_w,
        power_now(s.take(i + 1)) == power_now(s.take(i)) + if s[i].occupied_for_ticks > 0 {
            s[i].charging_speed_w as int
        } else {
            0
        },
        idle_count(s.take(i + 1)) == idle_count(s.take(i)) + if s[i].occupied_for_ticks == 0 {
            1int
        } else {
            0
        },
{
    assert(s.take(i + 1).drop_last() =~= s.take(i));
    assert(s.take(i + 1).last() == s[i]);
}

pub proof fn lemma_power_le_total(s: Seq<ChargingStation>)
    ensures
        0 <= power_now(s),
        power_now(s) <= total_speed(s),
        0 <= total_speed(s),
    decreases s.len(),
{
    if s.len() > 0 {
        lemma_power_le_total(s.drop_last());
    }
}

pub proof fn lemma_total_speed_take_le(s: Seq<ChargingStation>, i: int)
    requires
        0 <= i <= s.len(),
    ensures
        total_speed(s.take(i)) <= total_speed(s),
    decreases s.len() - i,
{
    if i == s.len() {
        assert(s.take(i) =~= s);
    } else {
        lemma_take_step(s, i);
        lemma_total_speed_take_le(s, i + 1);
    }
}

pub proof fn lemma_idle_count_bounds(s: Seq<ChargingStation>)
    ensures
        0 <= idle_count(s) <= s.len(),
    decreases s.len(),
{
    if s.len() > 0 {
        lemma_idle_count_bounds(s.drop_last());
    }
}

/// Pools whose stations have pairwise equal ratings have the same total.
pub proof fn lemma_total_speed_congruent(a: Seq<ChargingStation>, b: Seq<ChargingStation>)
    requires
        a.len() == b.len(),
        forall|i: int|
            0 <= i < a.len() ==> (#[trigger] a[i]).charging_speed_w == b[i].charging_speed_w,
    ensures
        total_speed(a) == total_speed(b),
    decreases a.len(),
{
    if a.len() > 0 {
        assert forall|i: int| 0 <= i < a.drop_last().len() implies (#[trigger] a.drop_last()[i])
            .charging_speed_w == b.drop_last()[i].charging_speed_w by {
            assert(a.drop_last()[i] == a[i]);
            assert(b.drop_last()[i] == b[i]);
        }
        lemma_total_speed_congruent(a.drop_last(), b.drop_last());
        assert(a.last().charging_speed_w == b[a.len() - 1].charging_speed_w);
    }
}

/// An all-idle pool draws no power.
pub proof fn lemma_power_all_idle(s: Seq<ChargingStation>)
    requires
        forall|i: int| 0 <= i < s.len() ==> (#[trigger] s[i]).occupied_for_ticks == 0,
    ensures
        power_now(s) == 0,
    decreases s.len(),
{
    if s.len() > 0 {
        assert forall|i: int| 0 <= i < s.drop_last().len() implies (#[trigger] s.drop_last()[i])
            .occupied_for_ticks == 0 by {
            assert(s.drop_last()[i] == s[i]);
        }
        lemma_power_all_idle(s.drop_last());
        assert(s.last() == s[s.len() - 1]);
    }
}

impl ChargingStation {
    pub fn new(charging_speed_w: u32) -> (r: ChargingStation)
        requires
            charging_speed_w >= 1,
        ensures
            r.occupied_for_ticks == 0,
            r.charging_speed_w == charging_speed_w,
    {
        ChargingStation { occupied_for_ticks: 0, charging_speed_w }
    }

    /// Calculates the number of ticks that the charging station will be
    /// occupied by one freshly drawn demand sample, and updates the
    /// `occupied_for_ticks` member. The number of occupied ticks is rounded
    /// up to the nearest integer, so a station is never under-reserved.
    pub fn occupy(&mut self, charge_probabilities: &ChargeProbabilities)
        requires
            old(self).charging_speed_w >= 1,
            charge_probabilities@.len() <= MAX_DEMAND_BUCKETS,
        ensures
            final(self).charging_speed_w == old(self).charging_speed_w,
            is_sampled_ticks(
                final(self).occupied_for_ticks as int,
                charge_probabilities@,
                old(self).charging_speed_w as int,
            ),
    {
        let demand_m = get_weighted_demand(charge_probabilities);
        self.occupied_for_ticks = ticks_for_demand(demand_m, self.charging_speed_w);
    }

    /// Decrements the `occupied_for_ticks` member, saturating at zero: if the
    /// tick counter is already zero, nothing happens.
    pub fn pass_tick(&mut self)
        ensures
            *final(self) == passed(*old(self)),
    {
        if self.occupied_for_ticks > 0 {
            self.occupied_for_ticks = self.occupied_for_ticks - 1;
        }
    }
}

impl Default for ChargingStation {
    fn default() -> (r: Self)
        ensures
            r.occupied_for_ticks == 0,
            r.charging_speed_w == DEFAULT_CHARGING_SPEED_W,
    {
        Self { occupied_for_ticks: 0, charging_speed_w: DEFAULT_CHARGING_SPEED_W }
    }
}

/// Occupancy duration in ticks for the given demand at the given rating,
/// rounded up to the next whole tick.
pub fn ticks_for_demand(distance_m: u32, speed_w: u32) -> (r: u32)
    requires
        speed_w >= 1,
    ensures
        r as int == ticks_for(distance_m as int, speed_w as int),
{
    let energy_per_hour: u64 = 4u64 * 180u64;
    let num: u64 = energy_per_hour * (distance_m as u64);
    let den: u64 = 1000u64 * (speed_w as u64);
    proof {
        assert(TICKS_PER_HOUR == 4 && ENERGY_WH_PER_KM == 180 && METERS_PER_KM == 1000);
    }
    proof {
        let n = num as int;
        let d = den as int;
        lemma_div_pos_is_pos(n + d - 1, d);
        lemma_div_is_ordered(n + d - 1, n + d, d);
        lemma_div_plus_one(n, d);
        lemma_div_is_ordered_by_denominator(n, 1000, d);
        lemma_div_is_ordered(n, 720int * 0xffff_ffffint, 1000);
        assert((n + d - 1) / d <= n / d + 1);
        assert(n / d <= n / 1000);
    }
    ((num + (den - 1)) / den) as u32
}

/// The computed occupancy duration is the exact ceiling of the raw duration:
/// the reserved ticks always cover the demanded energy, and for any real
/// demand one tick less would not.
pub proof fn lemma_ticks_for_is_ceiling(distance_m: int, speed_w: int)
    requires
        0 <= distance_m,
        1 <= speed_w,
    ensures
        0 <= ticks_for(distance_m, speed_w),
        ticks_for(distance_m, speed_w) * (METERS_PER_KM * speed_w) >= TICKS_PER_HOUR
            * ENERGY_WH_PER_KM * distance_m,
        distance_m > 0 ==> (ticks_for(distance_m, speed_w) - 1) * (METERS_PER_KM * speed_w)
            < TICKS_PER_HOUR * ENERGY_WH_PER_KM * distance_m,
        distance_m == 0 ==> ticks_for(distance_m, speed_w) == 0,
{
    let num = TICKS_PER_HOUR * ENERGY_WH_PER_KM * distance_m;
    let den = METERS_PER_KM * speed_w;
    let t = ticks_for(distance_m, speed_w);
    assert(den >= 1000) by (nonlinear_arith)
        requires
            speed_w >= 1,
            den == METERS_PER_KM * speed_w,
    ;
    assert(num >= 0) by (nonlinear_arith)
        requires
            distance_m >= 0,
            num == TICKS_PER_HOUR * ENERGY_WH_PER_KM * distance_m,
    ;
    lemma_div_pos_is_pos(num + den - 1, den);
    vstd::arithmetic::div_mod::lemma_fundamental_div_mod(num + den - 1, den);
    vstd::arithmetic::div_mod::lemma_mod_division_less_than_divisor(num + den - 1, den);
    assert(num + den - 1 == den * t + (num + den - 1) % den);
    assert(t * den == den * t) by (nonlinear_arith);
    assert((t - 1) * den == den * t - den) by (nonlinear_arith);
    if distance_m > 0 {
        assert(num >= 720) by (nonlinear_arith)
            requires
                distance_m >= 1,
                num == TICKS_PER_HOUR * ENERGY_WH_PER_KM * distance_m,
        ;
    } else {
        lemma_basic_div(den - 1, den);
    }
}

/// Manages the assignment of charging stations to EVs and keeps track of the
/// energy consumption of the lot.
pub struct StationManager {
    pub stations: Vec<ChargingStation>,
    pub res: SimResult,
}

/// The admission phase, relating a pool `pre` (after the release phase) to the
/// pool `post` it leaves behind when `a` EVs arrive: the first `a` idle
/// stations, in stored order, each receive one EV and an occupancy duration
/// drawn from the demand distribution; every other station is untouched.
pub open spec fn admitted(
    pre: Seq<ChargingStation>,
    post: Seq<ChargingStation>,
    a: int,
    dist: Seq<ChargingNeed>,
) -> bool {
    &&& post.len() == pre.len()
    &&& forall|j: int|
        0 <= j < pre.len() && !(pre[j].occupied_for_ticks == 0 && idle_count(pre.take(j)) < a)
            ==> post[j] == pre[j]
    &&& forall|j: int|
        0 <= j < pre.len() && (#[trigger] pre[j]).occupied_for_ticks == 0 && idle_count(
            pre.take(j),
        ) < a ==> post[j].charging_speed_w == pre[j].charging_speed_w && is_sampled_ticks(
            post[j].occupied_for_ticks as int,
            dist,
            pre[j].charging_speed_w as int,
        )
}

/// The advisory outcome of the admission phase: a shortfall carrying the
/// number of EVs that found no idle station, or success when every arriving
/// EV was placed.
pub open spec fn admission_result(
    pre: Seq<ChargingStation>,
    a: int,
    r: Result<(), StationManagerError>,
) -> bool {
    if a <= idle_count(pre) {
        r == Result::<(), StationManagerError>::Ok(())
    } else {
        r == Result::<(), StationManagerError>::Err(
            StationManagerError::NoEmptyChargingStations((a - idle_count(pre)) as u32),
        )
    }
}

/// Everything one tick of the simulation does to a manager: first every
/// station passes one tick, then some number `a` of arriving EVs (one
/// Bernoulli trial per station slot, so `0 <= a <= len`, never any with zero
/// arrival probability, always all of them with certain arrival) is admitted
/// in stored order, and finally the tick's power draw is aggregated into the
/// running result.
pub open spec fn tick_rel(
    pre: StationManager,
    post: StationManager,
    arrival_probability: u32,
    dist: Seq<ChargingNeed>,
    r: Result<(), StationManagerError>,
) -> bool {
    let mid = decremented(pre.stations@);
    &&& exists|a: int|
        (#[trigger] admitted(mid, post.stations@, a, dist)) && 0 <= a <= mid.len()
            && admission_result(mid, a, r) && (arrival_probability == 0 ==> a == 0) && (
        arrival_probability >= PROB_SCALE ==> a == mid.len())
    &&& post.res.theoretical_max_w == pre.res.theoretical_max_w
    &&& post.res.actual_max_w as int == vstd::math::max(
        pre.res.actual_max_w as int,
        power_now(post.stations@),
    )
    &&& post.res.consumption_year_mwh as int == pre.res.consumption_year_mwh + power_now(
        post.stations@,
    ) * MWH_PER_W_TICK
}

impl StationManager {
    /// A manager is well formed when its recorded theoretical maximum is the
    /// sum of its stations' ratings, stays under the installed-power cap, the
    /// observed maximum never exceeds it, and every station has a positive
    /// rating.
    pub open spec fn wf(self) -> bool {
        &&& self.res.theoretical_max_w as int == total_speed(self.stations@)
        &&& self.res.theoretical_max_w <= MAX_THEORETICAL_W
        &&& self.res.actual_max_w <= self.res.theoretical_max_w
        &&& forall|i: int|
            0 <= i < self.stations@.len() ==> (#[trigger] self.stations@[i]).charging_speed_w >= 1
    }

    /// Creates a new StationManager with the given number of idle charging
    /// stations and calculates the theoretical maximum power demand of the
    /// lot.
    pub fn new(count: usize, charging_speed_w: u32) -> (r: Self)
        requires
            charging_speed_w >= 1,
            count as int * charging_speed_w as int <= MAX_THEORETICAL_W,
        ensures
            r.wf(),
            r.stations@.len() == count,
            forall|i: int|
                0 <= i < count ==> (#[trigger] r.stations@[i]) == (ChargingStation {
                    occupied_for_ticks: 0u32,
                    charging_speed_w,
                }),
            r.res.theoretical_max_w as int == count as int * charging_speed_w as int,
            r.res.actual_max_w == 0,
            r.res.consumption_year_mwh == 0,
    {
        let mut stations: Vec<ChargingStation> = Vec::new();
        let mut theoretical: u64 = 0;
        let mut i: usize = 0;
        while i < count
            invariant
                i <= count,
                charging_speed_w >= 1,
                count as int * charging_speed_w as int <= MAX_THEORETICAL_W,
                stations@.len() == i,
                forall|j: int|
                    0 <= j < i ==> (#[trigger] stations@[j]) == (ChargingStation {
                        occupied_for_ticks: 0u32,
                        charging_speed_w,
                    }),
                theoretical as int == i as int * charging_speed_w as int,
                theoretical as int == total_speed(stations@),
            decreases count - i,
        {
            proof {
                lemma_mul_inequality(i + 1, count as int, charging_speed_w as int);
                assert((i + 1) * charging_speed_w as int == i as int * charging_speed_w as int
                    + charging_speed_w as int) by (nonlinear_arith);
            }
            let ghost snap = stations@;
            stations.push(ChargingStation::new(charging_speed_w));
            proof {
                assert(stations@.drop_last() =~= snap);
            }
            theoretical = theoretical + charging_speed_w as u64;
            i = i + 1;
        }
        let mut res = SimResult::init_zero();
        res.theoretical_max_w = theoretical;
        StationManager { stations, res }
    }

    /// Simulate a tick passing by decrementing all occupancy counters.
    fn remove_charged_evs(&mut self)
        ensures
            final(self).stations@ == decremented(old(self).stations@),
            final(self).res == old(self).res,
    {
        let n = self.stations.len();
        let mut i: usize = 0;
        while i < n
            invariant
                n == old(self).stations@.len(),
                self.stations@.len() == n,
                i <= n,
                self.res == old(self).res,
                forall|j: int|
                    0 <= j < i ==> (#[trigger] self.stations@[j]) == passed(old(self).stations@[j]),
                forall|j: int| i <= j < n ==> (#[trigger] self.stations@[j]) == old(self).stations@[j],
            decreases n - i,
        {
            let mut st = self.stations[i];
            st.pass_tick();
            self.stations[i] = st;
            i = i + 1;
        }
        proof {
            assert(self.stations@ =~= decremented(old(self).stations@));
        }
    }

    /// "Rolls the dice" with the given probability once per charging slot to
    /// determine how many new EVs arrive in this tick.
    fn populate_randomly(&self, probability: u32) -> (r: u32)
        requires
            self.stations@.len() <= 0xffff_ffff,
        ensures
            r as int <= self.stations@.len(),
            probability == 0 ==> r == 0,
            probability >= PROB_SCALE ==> r as int == self.stations@.len(),
    {
        let n = self.stations.len();
        let mut new_evs: u32 = 0;
        let mut i: usize = 0;
        while i < n
            invariant
                n == self.stations@.len(),
                n <= 0xffff_ffff,
                i <= n,
                new_evs as int <= i,
                probability == 0 ==> new_evs == 0,
                probability >= PROB_SCALE ==> new_evs as int == i,
            decreases n - i,
        {
            let rolled = random_below(PROB_SCALE);
            if rolled < probability {
                new_evs = new_evs + 1;
            }
            i = i + 1;
        }
        new_evs
    }

    /// Fills idle stations with new EVs according to their needs: the arriving
    /// EVs are placed on idle stations in stored order, and any EV that finds
    /// no idle station is reported as a capacity shortfall.
    fn add_new_evs(&mut self, arrival_probability: u32, charge_probabilities: &ChargeProbabilities)
        -> (r: Result<(), StationManagerError>)
        requires
            old(self).stations@.len() <= 0xffff_ffff,
            forall|j: int|
                0 <= j < old(self).stations@.len()
                    ==> (#[trigger] old(self).stations@[j]).charging_speed_w >= 1,
            charge_probabilities@.len() <= MAX_DEMAND_BUCKETS,
        ensures
            final(self).res == old(self).res,
            final(self).stations@.len() == old(self).stations@.len(),
            forall|j: int|
                0 <= j < old(self).stations@.len()
                    ==> (#[trigger] final(self).stations@[j]).charging_speed_w == old(
                    self,
                ).stations@[j].charging_speed_w,
            exists|a: int|
                (#[trigger] admitted(old(self).stations@, final(self).stations@, a, charge_probabilities@))
                    && 0 <= a <= old(self).stations@.len()
                    && admission_result(old(self).stations@, a, r)
                    && (arrival_probability == 0 ==> a == 0)
                    && (arrival_probability >= PROB_SCALE ==> a == old(self).stations@.len()),
    {
        let new_evs_total = self.populate_randomly(arrival_probability);
        let ghost a0 = new_evs_total as int;
        let ghost pre = self.stations@;
        let mut remaining = new_evs_total;
        let n = self.stations.len();
        let mut i: usize = 0;
        proof {
            assert(pre.take(0) =~= Seq::<ChargingStation>::empty());
        }
        while i < n
            invariant
                n == pre.len(),
                n <= 0xffff_ffff,
                self.stations@.len() == n,
                i <= n,
                0 <= a0 <= n,
                self.res == old(self).res,
                pre == old(self).stations@,
                charge_probabilities@.len() <= MAX_DEMAND_BUCKETS,
                forall|j: int| 0 <= j < n ==> (#[trigger] pre[j]).charging_speed_w >= 1,
                remaining as int == if idle_count(pre.take(i as int)) >= a0 {
                    0
                } else {
                    a0 - idle_count(pre.take(i as int))
                },
                forall|j: int| i <= j < n ==> (#[trigger] self.stations@[j]) == pre[j],
                forall|j: int|
                    0 <= j < i && !(pre[j].occupied_for_ticks == 0 && idle_count(pre.take(j)) < a0)
                        ==> (#[trigger] self.stations@[j]) == pre[j],
                forall|j: int|
                    0 <= j < i && (#[trigger] pre[j]).occupied_for_ticks == 0 && idle_count(
                        pre.take(j),
                    ) < a0 ==> self.stations@[j].charging_speed_w == pre[j].charging_speed_w
                        && is_sampled_ticks(
                        self.stations@[j].occupied_for_ticks as int,
                        charge_probabilities@,
                        pre[j].charging_speed_w as int,
                    ),
            decreases n - i,
        {
            proof {
                lemma_take_step(pre, i as int);
                lemma_idle_count_bounds(pre.take(i as int));
            }
            if self.stations[i].occupied_for_ticks == 0 && remaining > 0 {
                let mut st = self.stations[i];
                st.occupy(charge_probabilities);
                self.stations[i] = st;
                remaining = remaining - 1;
            }
            i = i + 1;
        }
        proof {
            assert(pre.take(n as int) =~= pre);
            lemma_idle_count_bounds(pre);
        }
        let r: Result<(), StationManagerError> = if remaining != 0 {
            Err(StationManagerError::NoEmptyChargingStations(remaining))
        } else {
            Ok(())
        };
        proof {
            assert(admitted(pre, self.stations@, a0, charge_probabilities@));
            assert(admission_result(pre, a0, r));
        }
        r
    }

    /// Updates the maximum power demand if necessary and keeps track of the
    /// total energy consumption: the aggregation phase of a tick.
    fn update_sim_results(&mut self)
        requires
            old(self).wf(),
            old(self).res.consumption_year_mwh + MAX_THEORETICAL_W * MWH_PER_W_TICK <= u64::MAX,
        ensures
            final(self).wf(),
            final(self).stations@ == old(self).stations@,
            final(self).res.theoretical_max_w == old(self).res.theoretical_max_w,
            final(self).res.actual_max_w as int == vstd::math::max(
                old(self).res.actual_max_w as int,
                power_now(old(self).stations@),
            ),
            final(self).res.consumption_year_mwh as int == old(self).res.consumption_year_mwh
                + power_now(old(self).stations@) * MWH_PER_W_TICK,
    {
        let ghost s = self.stations@;
        let n = self.stations.len();
        let mut current_power_demand: u64 = 0;
        let mut i: usize = 0;
        proof {
            assert(s.take(0) =~= Seq::<ChargingStation>::empty());
        }
        while i < n
            invariant
                n == s.len(),
                s == self.stations@,
                i <= n,
                self.res == old(self).res,
                old(self).wf(),
                s == old(self).stations@,
                current_power_demand as int == power_now(s.take(i as int)),
                current_power_demand <= MAX_THEORETICAL_W,
            decreases n - i,
        {
            proof {
                lemma_take_step(s, i as int);
                lemma_power_le_total(s.take(i + 1));
                lemma_total_speed_take_le(s, i + 1);
            }
            let st = self.stations[i];
            if st.occupied_for_ticks > 0 {
                current_power_demand = current_power_demand + st.charging_speed_w as u64;
            }
            i = i + 1;
        }
        proof {
            assert(s.take(n as int) =~= s);
            lemma_power_le_total(s);
        }
        if current_power_demand > self.res.actual_max_w {
            self.res.actual_max_w = current_power_demand;
        }
        self.res.consumption_year_mwh = self.res.consumption_year_mwh + current_power_demand
            * MWH_PER_W_TICK;
    }

    /// Call every tick to move out fully charged EVs, move in new ones and
    /// aggregate the tick's power draw into the running result. A shortfall
    /// is advisory: the tick's state changes are kept either way.
    pub fn recalculate_tick(
        &mut self,
        arrival_probability: u32,
        charge_probabilities: &ChargeProbabilities,
    ) -> (r: Result<(), StationManagerError>)
        requires
            old(self).wf(),
            old(self).res.consumption_year_mwh + MAX_THEORETICAL_W * MWH_PER_W_TICK <= u64::MAX,
            charge_probabilities@.len() <= MAX_DEMAND_BUCKETS,
        ensures
            final(self).wf(),
            final(self).stations@.len() == old(self).stations@.len(),
            tick_rel(*old(self), *final(self), arrival_probability, charge_probabilities@, r),
    {
        let ghost pre = *self;
        self.remove_charged_evs();
        proof {
            assert(self.stations@.len() <= 0xffff_ffff) by {
                lemma_len_le_total(pre.stations@);
                lemma_total_speed_congruent(pre.stations@, self.stations@);
            }
        }
        let r = self.add_new_evs(arrival_probability, charge_probabilities);
        proof {
            lemma_total_speed_congruent(pre.stations@, self.stations@);
        }
        self.update_sim_results();
        r
    }
}

/// Pools whose stations all have positive ratings are at most as large as
/// their total rating.
pub proof fn lemma_len_le_total(s: Seq<ChargingStation>)
    requires
        forall|i: int| 0 <= i < s.len() ==> (#[trigger] s[i]).charging_speed_w >= 1,
    ensures
        total_speed(s) >= s.len(),
    decreases s.len(),
{
    if s.len() > 0 {
        assert forall|i: int| 0 <= i < s.drop_last().len() implies (#[trigger] s.drop_last()[i])
            .charging_speed_w >= 1 by {
            assert(s.drop_last()[i] == s[i]);
        }
        lemma_len_le_total(s.drop_last());
        assert(s.last() == s[s.len() - 1]);
    }
}

/// A tick never lowers the observed maximum power, never raises it above the
/// theoretical maximum, and never changes the theoretical maximum itself.
pub proof fn lemma_actual_max_bounds(
    pre: StationManager,
    post: StationManager,
    arrival_probability: u32,
    dist: Seq<ChargingNeed>,
    r: Result<(), StationManagerError>,
)
    requires
        pre.wf(),
        tick_rel(pre, post, arrival_probability, dist, r),
    ensures
        post.res.theoretical_max_w == pre.res.theoretical_max_w,
        pre.res.actual_max_w <= post.res.actual_max_w,
        post.res.actual_max_w <= post.res.theoretical_max_w,
        power_now(post.stations@) <= post.res.theoretical_max_w,
{
    let mid = decremented(pre.stations@);
    let a = choose|a: int|
        (#[trigger] admitted(mid, post.stations@, a, dist)) && 0 <= a <= mid.len()
            && admission_result(mid, a, r) && (arrival_probability == 0 ==> a == 0) && (
        arrival_probability >= PROB_SCALE ==> a == mid.len());
    assert forall|j: int| 0 <= j < pre.stations@.len() implies (#[trigger] pre.stations@[j])
        .charging_speed_w == post.stations@[j].charging_speed_w by {
        assert(mid[j] == passed(pre.stations@[j]));
    }
    lemma_total_speed_congruent(pre.stations@, post.stations@);
    lemma_power_le_total(post.stations@);
}

/// Energy accounting: every tick adds to the year's consumption exactly the
/// tick's power draw times the tick's quarter-hour duration, so the total is
/// the sum over ticks and never decreases.
pub proof fn lemma_consumption_accumulates(
    pre: StationManager,
    post: StationManager,
    arrival_probability: u32,
    dist: Seq<ChargingNeed>,
    r: Result<(), StationManagerError>,
)
    requires
        pre.wf(),
        tick_rel(pre, post, arrival_probability, dist, r),
    ensures
        post.res.consumption_year_mwh as int == pre.res.consumption_year_mwh + power_now(
            post.stations@,
        ) * MWH_PER_W_TICK,
        pre.res.consumption_year_mwh <= post.res.consumption_year_mwh,
{
    lemma_power_le_total(post.stations@);
}

/// With a single station, certain arrival, and a demand distribution whose
/// every admissible draw needs exactly one tick of charging, a station that
/// is idle or in its last occupied tick is occupied again right away: the
/// observed maximum reaches the theoretical maximum and one tick's worth of
/// its rating is consumed.
pub proof fn lemma_single_station_saturates(
    pre: StationManager,
    post: StationManager,
    arrival_probability: u32,
    dist: Seq<ChargingNeed>,
    r: Result<(), StationManagerError>,
)
    requires
        pre.wf(),
        tick_rel(pre, post, arrival_probability, dist, r),
        pre.stations@.len() == 1,
        pre.stations@[0].occupied_for_ticks <= 1,
        arrival_probability >= PROB_SCALE,
        forall|d: u32|
            d < PROB_SCALE ==> ticks_for(
                spec_sample(dist, d as int),
                pre.stations@[0].charging_speed_w as int,
            ) == 1,
    ensures
        post.stations@[0].occupied_for_ticks == 1,
        post.res.actual_max_w == post.res.theoretical_max_w,
        post.res.theoretical_max_w == pre.res.theoretical_max_w,
        post.res.consumption_year_mwh as int == pre.res.consumption_year_mwh
            + pre.res.theoretical_max_w * MWH_PER_W_TICK,
{
    let mid = decremented(pre.stations@);
    assert(mid[0] == passed(pre.stations@[0]));
    assert(mid[0].occupied_for_ticks == 0);
    let a = choose|a: int|
        (#[trigger] admitted(mid, post.stations@, a, dist)) && 0 <= a <= mid.len()
            && admission_result(mid, a, r) && (arrival_probability == 0 ==> a == 0) && (
        arrival_probability >= PROB_SCALE ==> a == mid.len());
    assert(a == 1);
    assert(mid.take(0) =~= Seq::<ChargingStation>::empty());
    assert(idle_count(mid.take(0)) == 0);
    assert(is_sampled_ticks(
        post.stations@[0].occupied_for_ticks as int,
        dist,
        mid[0].charging_speed_w as int,
    ));
    let d = choose|draw: u32|
        draw < PROB_SCALE && post.stations@[0].occupied_for_ticks as int == ticks_for(
            spec_sample(dist, draw as int),
            mid[0].charging_speed_w as int,
        );
    assert(ticks_for(spec_sample(dist, d as int), pre.stations@[0].charging_speed_w as int) == 1);
    assert(post.stations@[0].occupied_for_ticks == 1);
    assert(power_now(Seq::<ChargingStation>::empty()) == 0);
    assert(total_speed(Seq::<ChargingStation>::empty()) == 0);
    assert(post.stations@.drop_last() =~= Seq::<ChargingStation>::empty());
    assert(post.stations@.last() == post.stations@[0]);
    assert(power_now(post.stations@) == post.stations@[0].charging_speed_w);
    assert(pre.stations@.drop_last() =~= Seq::<ChargingStation>::empty());
    assert(total_speed(pre.stations@) == pre.stations@[0].charging_speed_w);
}

/// With a single station that stays occupied past this tick and certain
/// arrival, the tick reports a shortfall of exactly one EV and only the
/// release phase changes the station.
pub proof fn lemma_single_station_shortfall(
    pre: StationManager,
    post: StationManager,
    arrival_probability: u32,
    dist: Seq<ChargingNeed>,
    r: Result<(), StationManagerError>,
)
    requires
        pre.wf(),
        tick_rel(pre, post, arrival_probability, dist, r),
        pre.stations@.len() == 1,
        pre.stations@[0].occupied_for_ticks >= 2,
        arrival_probability >= PROB_SCALE,
    ensures
        r == Result::<(), StationManagerError>::Err(
            StationManagerError::NoEmptyChargingStations(1),
        ),
        post.stations@[0].occupied_for_ticks == pre.stations@[0].occupied_for_ticks - 1,
{
    let mid = decremented(pre.stations@);
    assert(mid[0] == passed(pre.stations@[0]));
    assert(mid[0].occupied_for_ticks >= 1);
    let a = choose|a: int|
        (#[trigger] admitted(mid, post.stations@, a, dist)) && 0 <= a <= mid.len()
            && admission_result(mid, a, r) && (arrival_probability == 0 ==> a == 0) && (
        arrival_probability >= PROB_SCALE ==> a == mid.len());
    assert(a == 1);
    assert(mid.drop_last() =~= Seq::<ChargingStation>::empty());
    assert(mid.last() == mid[0]);
    assert(idle_count(mid) == 0);
    assert(post.stations@[0] == mid[0]);
}

} // verus!
