//! The validated parameter record for one simulation run.
use vstd::prelude::*;
use crate::{DEFAULT_CHARGING_SPEED_W, MAX_DEMAND_BUCKETS, MAX_THEORETICAL_W, PROB_SCALE};
use crate::error::Error;
use crate::probabilities::{ArrivalProbabilities, ChargeProbabilities, ChargingNeed};

verus! {

pub const DEFAULT_CHARGE_POINTS: u32 = 20;

/// Contains all parameters for the charging station simulation.
#[derive(Debug)]
pub struct Input {
    /// Number of total parking lots with an EV charger.
    pub charge_points: u32,
    pub arrival_probabilities: ArrivalProbabilities,
    pub charge_probabilities: ChargeProbabilities,
}

impl Input {
    /// Parameters the simulation accepts: at least one charge point, an
    /// installed power under the cap, hourly arrival probabilities that are
    /// genuine probabilities, and a demand table under the bucket cap.
    pub open spec fn valid(self) -> bool {
        &&& 1 <= self.charge_points
        &&& self.charge_points as int * DEFAULT_CHARGING_SPEED_W as int <= MAX_THEORETICAL_W as int
        &&& forall|h: int|
            0 <= h < 24 ==> (#[trigger] self.arrival_probabilities@[h]) <= PROB_SCALE
        &&& self.charge_probabilities@.len() <= MAX_DEMAND_BUCKETS
    }

    /// Validates the parameters and builds the record, surfacing a distinct
    /// error kind on any rejected input: succeeds exactly on valid
    /// parameters.
    pub fn new(
        charge_points: u32,
        arrival_probabilities: ArrivalProbabilities,
        charge_probabilities: ChargeProbabilities,
    ) -> (r: Result<Input, Error>)
        ensures
            r is Ok <==> (Input {
                charge_points,
                arrival_probabilities,
                charge_probabilities,
            }).valid(),
            r matches Ok(inp) ==> inp == (Input {
                charge_points,
                arrival_probabilities,
                charge_probabilities,
            }),
            r is Err ==> (r matches Err(e) && e is InvalidInput),
    {
        proof {
            assert(DEFAULT_CHARGING_SPEED_W == 11_000 && MAX_THEORETICAL_W == 1_000_000_000
                && MAX_DEMAND_BUCKETS == 100_000_000);
        }
        if charge_points < 1 {
            return Err(Error::InvalidInput("the lot needs at least one charge point".to_string()));
        }
        if (charge_points as u64) * 11_000u64 > 1_000_000_000u64 {
            return Err(
                Error::InvalidInput("the lot's installed power is over the cap".to_string()),
            );
        }
        if charge_probabilities.len() > 100_000_000 {
            return Err(Error::InvalidInput("too many demand buckets".to_string()));
        }
        let mut h: usize = 0;
        while h < 24
            invariant
                h <= 24,
                forall|k: int|
                    0 <= k < h ==> (#[trigger] arrival_probabilities@[k]) <= PROB_SCALE,
            decreases 24 - h,
        {
            let p = arrival_probabilities[h];
            if p > PROB_SCALE {
                proof {
                    assert(arrival_probabilities@[h as int] > PROB_SCALE);
                    assert((Input {
                        charge_points,
                        arrival_probabilities,
                        charge_probabilities,
                    }).arrival_probabilities@[h as int] > PROB_SCALE);
                    assert(!(Input {
                        charge_points,
                        arrival_probabilities,
                        charge_probabilities,
                    }).valid());
                }
                return Err(
                    Error::InvalidInput("an arrival probability is over certainty".to_string()),
                );
            }
            h = h + 1;
        }
        Ok(Input { charge_points, arrival_probabilities, charge_probabilities })
    }
}

/// The default empirical hourly arrival table, in parts per million.
pub open spec fn default_arrival_table() -> Seq<u32> {
    seq![
        9400u32, 9400, 9400, 9400, 9400, 9400, 9400, 9400, 28300, 28300, 56600, 56600, 56600,
        75500, 75500, 75500, 103800, 103800, 103800, 47200, 47200, 47200, 9400, 9400,
    ]
}

/// The default empirical demand table: probability mass in parts per million,
/// charged range in meters.
pub open spec fn default_demand_table() -> Seq<ChargingNeed> {
    seq![
        (ChargingNeed { prob_ppm: 343100u32, charge_m: 0u32 }),
        (ChargingNeed { prob_ppm: 49000u32, charge_m: 5000u32 }),
        (ChargingNeed { prob_ppm: 98000u32, charge_m: 10000u32 }),
        (ChargingNeed { prob_ppm: 117600u32, charge_m: 20000u32 }),
        (ChargingNeed { prob_ppm: 88200u32, charge_m: 30000u32 }),
        (ChargingNeed { prob_ppm: 117600u32, charge_m: 50000u32 }),
        (ChargingNeed { prob_ppm: 107800u32, charge_m: 100000u32 }),
        (ChargingNeed { prob_ppm: 49000u32, charge_m: 200000u32 }),
        (ChargingNeed { prob_ppm: 29400u32, charge_m: 200000u32 }),
    ]
}

impl Default for Input {
    /// The default lot: twenty charge points and the default empirical
    /// arrival and demand tables.
    fn default() -> (r: Self)
        ensures
            r.charge_points == DEFAULT_CHARGE_POINTS,
            r.arrival_probabilities@ == default_arrival_table(),
            r.charge_probabilities@ == default_demand_table(),
            r.valid(),
    {
        let arrival: ArrivalProbabilities = [
            9400u32, 9400, 9400, 9400, 9400, 9400, 9400, 9400, 28300, 28300, 56600, 56600, 56600,
            75500, 75500, 75500, 103800, 103800, 103800, 47200, 47200, 47200, 9400, 9400,
        ];
        let mut demand: ChargeProbabilities = Vec::new();
        demand.push(ChargingNeed::new(343100, 0));
        demand.push(ChargingNeed::new(49000, 5000));
        demand.push(ChargingNeed::new(98000, 10000));
        demand.push(ChargingNeed::new(117600, 20000));
        demand.push(ChargingNeed::new(88200, 30000));
        demand.push(ChargingNeed::new(117600, 50000));
        demand.push(ChargingNeed::new(107800, 100000));
        demand.push(ChargingNeed::new(49000, 200000));
        demand.push(ChargingNeed::new(29400, 200000));
        let r = Self {
            charge_points: 20,
            arrival_probabilities: arrival,
            charge_probabilities: demand,
        };
        proof {
            assert(r.arrival_probabilities@ =~= default_arrival_table());
            assert(r.charge_probabilities@ =~= default_demand_table());
            assert(DEFAULT_CHARGE_POINTS == 20);
            assert(r.valid());
        }
        r
    }
}

} // verus!
