use charging_model::charging_station::{
    ticks_for_demand, ChargingStation, StationManager, StationManagerError,
};
use charging_model::error::Error;
use charging_model::input::Input;
use charging_model::probabilities::{sample_demand, to_mean, ChargingNeed};
use charging_model::PROB_SCALE;

#[test]
fn theoretical_max_is_count_times_rating() {
    let m = StationManager::new(5, 11_000);
    assert_eq!(m.res.theoretical_max_w, 55_000);
    assert_eq!(m.res.actual_max_w, 0);
    assert_eq!(m.res.consumption_year_mwh, 0);
    assert_eq!(m.stations.len(), 5);
}

#[test]
fn pass_tick_saturates_at_zero() {
    let mut st = ChargingStation { occupied_for_ticks: 2, charging_speed_w: 11_000 };
    st.pass_tick();
    assert_eq!(st.occupied_for_ticks, 1);
    st.pass_tick();
    assert_eq!(st.occupied_for_ticks, 0);
    st.pass_tick();
    assert_eq!(st.occupied_for_ticks, 0);
    let mut idle = ChargingStation::new(11_000);
    idle.pass_tick();
    assert_eq!(idle.occupied_for_ticks, 0);
}

#[test]
fn occupancy_duration_rounds_up() {
    // 32.084 km at 11 kW needs 2.10 ticks raw: rounded up to 3, not 2.
    assert_eq!(ticks_for_demand(32_084, 11_000), 3);
    // Exactly 2.0 raw ticks stay 2: 25 km at 9 kW is half an hour.
    assert_eq!(ticks_for_demand(25_000, 9_000), 2);
    // A zero demand frees the station immediately.
    assert_eq!(ticks_for_demand(0, 11_000), 0);
}

#[test]
fn occupy_uses_sampled_demand() {
    // A single bucket with the whole probability mass: every draw below
    // certainty selects it, so the duration is deterministic.
    let demand = vec![ChargingNeed::new(PROB_SCALE, 32_084)];
    let mut st = ChargingStation::new(11_000);
    st.occupy(&demand);
    assert_eq!(st.occupied_for_ticks, 3);
    assert_eq!(st.charging_speed_w, 11_000);
}

#[test]
fn occupy_draws_below_certainty() {
    // The first bucket holds the whole mass; the second is unreachable by any
    // draw below certainty and differs, so an out-of-range draw would show.
    let demand = vec![ChargingNeed::new(PROB_SCALE, 10_000), ChargingNeed::new(0, 0)];
    for _ in 0..50 {
        let mut st = ChargingStation::new(11_000);
        st.occupy(&demand);
        assert_eq!(st.occupied_for_ticks, 1);
    }
}

#[test]
fn sampling_walks_cumulative_mass() {
    let d = Input::default().charge_probabilities;
    // A draw of zero resolves to the first bucket with non-zero probability.
    assert_eq!(sample_demand(&d, 0), 0);
    assert_eq!(sample_demand(&d, 343_099), 0);
    // The first draw past a bucket's cumulative mass selects the next bucket.
    assert_eq!(sample_demand(&d, 343_100), 5_000);
    assert_eq!(sample_demand(&d, 392_099), 5_000);
    assert_eq!(sample_demand(&d, 392_100), 10_000);
    // The default table's mass ends at 999700: later draws fall back to the
    // last bucket.
    assert_eq!(sample_demand(&d, 999_699), 200_000);
    assert_eq!(sample_demand(&d, 999_700), 200_000);
}

#[test]
fn sampling_empty_distribution_is_zero() {
    let empty: Vec<ChargingNeed> = vec![];
    assert_eq!(sample_demand(&empty, 0), 0);
    assert_eq!(sample_demand(&empty, 123_456), 0);
}

#[test]
fn mean_of_default_demand() {
    let d = Input::default().charge_probabilities;
    // Scaled by PROB_SCALE: 38563000000 ppm-meters is a mean of 38.563 km.
    assert_eq!(to_mean(&d), 38_563_000_000);
}

#[test]
fn invalid_inputs_are_rejected() {
    let demand = Input::default().charge_probabilities;
    let r = Input::new(0, [0u32; 24], demand.clone());
    assert!(matches!(r, Err(Error::InvalidInput(_))));
    let mut over = [0u32; 24];
    over[7] = PROB_SCALE + 1;
    let r = Input::new(1, over, demand.clone());
    assert!(matches!(r, Err(Error::InvalidInput(_))));
    let r = Input::new(1, [0u32; 24], demand);
    assert!(r.is_ok());
    let inp = r.unwrap();
    assert_eq!(inp.charge_points, 1);
}

#[test]
fn occupied_station_reports_shortfall() {
    let demand = vec![ChargingNeed::new(PROB_SCALE, 10_000)];
    let mut m = StationManager::new(1, 11_000);
    m.stations[0].occupied_for_ticks = 10;
    // Certain arrival, no idle station: every tick reports one unplaced EV
    // and the tick's state changes are kept.
    for k in 0..5u32 {
        let r = m.recalculate_tick(PROB_SCALE, &demand);
        assert!(matches!(r, Err(StationManagerError::NoEmptyChargingStations(1))));
        assert_eq!(m.stations[0].occupied_for_ticks, 9 - k);
    }
    assert_eq!(m.res.actual_max_w, 11_000);
    assert_eq!(m.res.consumption_year_mwh, 5 * 11_000 * 250);
}

#[test]
fn freed_station_is_reoccupied_at_once() {
    let demand = vec![ChargingNeed::new(PROB_SCALE, 10_000)];
    let mut m = StationManager::new(1, 11_000);
    for k in 1..=5u64 {
        let r = m.recalculate_tick(PROB_SCALE, &demand);
        assert!(r.is_ok());
        assert_eq!(m.stations[0].occupied_for_ticks, 1);
        assert_eq!(m.res.actual_max_w, 11_000);
        assert_eq!(m.res.consumption_year_mwh, k * 11_000 * 250);
    }
}

#[test]
fn zero_arrival_probability_admits_nobody() {
    let demand = vec![ChargingNeed::new(PROB_SCALE, 10_000)];
    let mut m = StationManager::new(4, 11_000);
    for _ in 0..100 {
        let r = m.recalculate_tick(0, &demand);
        assert!(r.is_ok());
    }
    assert_eq!(m.res.actual_max_w, 0);
    assert_eq!(m.res.consumption_year_mwh, 0);
}

#[test]
fn default_station_uses_default_rating() {
    let st = ChargingStation::default();
    assert_eq!(st.occupied_for_ticks, 0);
    assert_eq!(st.charging_speed_w, 11_000);
    let inp = Input::default();
    assert_eq!(inp.charge_points, 20);
    assert_eq!(inp.arrival_probabilities[0], 9_400);
    assert_eq!(inp.arrival_probabilities[16], 103_800);
    assert_eq!(inp.charge_probabilities.len(), 9);
}
