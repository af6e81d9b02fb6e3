use charging_model::input::Input;
use charging_model::output::SimResult;
use charging_model::probabilities::ChargingNeed;
use charging_model::sim::simulate_station;
use charging_model::PROB_SCALE;
use rasciigraph::{plot, Config};

#[test]
fn test_sim() {
    const TEST_CASES: usize = 30;
    let mut res: Vec<SimResult> = Vec::new();
    for i in 1..=TEST_CASES {
        let input = Input { charge_points: i as u32, ..Default::default() };
        res.push(simulate_station(input));
        println!(
            "[{}]: Cons/year {}kWh",
            i - 1,
            res[i - 1].consumption_year_mwh as f64 / 1_000_000.0
        );
        println!("[{}]: Actual max {}", i - 1, res[i - 1].actual_max_w as f64 / 1000.0);
        println!("[{}]: The. max {}", i - 1, res[i - 1].theoretical_max_w as f64 / 1000.0);
    }
    let concurrency_factors = res
        .iter()
        .map(|r| r.actual_max_w as f64 / r.theoretical_max_w as f64)
        .collect::<Vec<_>>();

    println!(
        "{}",
        plot(
            concurrency_factors.clone(),
            Config::default().with_caption("Concurrency factor".into())
        )
    );
    println!(
        "{:?}",
        concurrency_factors
            .iter()
            .enumerate()
            .map(|(i, f)| format!("[{:02}]: {:.02}", i + 1, f))
            .collect::<Vec<String>>()
    );

    let actual_max: Vec<f64> = res.iter().map(|a| a.actual_max_w as f64).collect();
    println!(
        "{}",
        plot(actual_max.clone(), Config::default().with_caption("Actual max power".into()))
    );
}

#[test]
fn simulation_respects_theoretical_ceiling() {
    let input = Input::default();
    let r = simulate_station(input);
    assert_eq!(r.theoretical_max_w, 20 * 11_000);
    assert!(r.actual_max_w <= r.theoretical_max_w);
    // One year's consumption can never exceed a year of full draw.
    assert!(r.consumption_year_mwh <= 35_040u64 * r.theoretical_max_w * 250);
}

#[test]
fn no_arrivals_no_consumption() {
    let input = Input::new(3, [0u32; 24], Input::default().charge_probabilities)
        .expect("a valid input");
    let r = simulate_station(input);
    assert_eq!(r.theoretical_max_w, 33_000);
    assert_eq!(r.actual_max_w, 0);
    assert_eq!(r.consumption_year_mwh, 0);
}

#[test]
fn zero_demand_never_occupies() {
    let demand = vec![ChargingNeed::new(PROB_SCALE, 0)];
    let input = Input::new(1, [PROB_SCALE; 24], demand).expect("a valid input");
    let r = simulate_station(input);
    assert_eq!(r.actual_max_w, 0);
    assert_eq!(r.consumption_year_mwh, 0);
}

#[test]
fn certain_arrival_saturates_one_station() {
    // 10 km at 11 kW and 0.18 kWh/km needs 0.65 hours: exactly one tick.
    let demand = vec![ChargingNeed::new(PROB_SCALE, 10_000)];
    let input = Input::new(1, [PROB_SCALE; 24], demand).expect("a valid input");
    let r = simulate_station(input);
    assert_eq!(r.actual_max_w, 11_000);
    // The station is re-occupied on every one of the year's ticks.
    assert_eq!(r.consumption_year_mwh, 35_040 * 11_000 * 250);
}
