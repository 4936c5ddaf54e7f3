use ev_charging::distributions::{
    arrival_on_draw, arrival_probability, charging_distances, charging_energy, sample_arrival,
    sample_charging_energy, sample_charging_needs_km, scaled_arrival_probability, ARRIVAL_SCALE,
};
use ev_charging::error::SimError;

const BUCKETS: [u32; 9] = [0, 5, 10, 20, 30, 50, 100, 200, 300];

#[test]
fn arrival_probability_follows_the_table() {
    let expected: [u32; 24] = [
        94, 94, 94, 94, 94, 94, 94, 94, 283, 283, 566, 566, 566, 755, 755, 755, 1038, 1038, 1038,
        472, 472, 472, 94, 94,
    ];
    for hour in 0..24u32 {
        assert_eq!(arrival_probability(hour), Ok(expected[hour as usize]));
    }
}

#[test]
fn arrival_probability_refuses_hours_past_the_day() {
    assert_eq!(arrival_probability(24), Err(SimError::InvalidHour));
    assert_eq!(arrival_probability(25), Err(SimError::InvalidHour));
    assert_eq!(arrival_probability(u32::MAX), Err(SimError::InvalidHour));
}

#[test]
fn scale_is_probability_times_minutes_times_multiplier() {
    assert_eq!(ARRIVAL_SCALE, 10_000 * 60 * 1_000);
}

#[test]
fn scaled_arrival_probability_is_the_product() {
    assert_eq!(scaled_arrival_probability(17, 15, 1_000), Ok(15_570_000));
    assert_eq!(scaled_arrival_probability(0, 60, 1_000), Ok(5_640_000));
    assert_eq!(scaled_arrival_probability(9, 1, 500), Ok(141_500));
    assert_eq!(scaled_arrival_probability(12, 60, 0), Ok(0));
    assert_eq!(scaled_arrival_probability(12, 0, 1_000), Ok(0));
    assert_eq!(
        scaled_arrival_probability(16, u32::MAX, u32::MAX),
        Ok(1038u128 * (u32::MAX as u128) * (u32::MAX as u128))
    );
    assert_eq!(scaled_arrival_probability(24, 15, 1_000), Err(SimError::InvalidHour));
}

#[test]
fn arrival_on_draw_turns_at_the_threshold() {
    assert_eq!(arrival_on_draw(15_569_999, 17, 15, 1_000), Ok(true));
    assert_eq!(arrival_on_draw(15_570_000, 17, 15, 1_000), Ok(false));
    assert_eq!(arrival_on_draw(0, 17, 15, 1_000), Ok(true));
    assert_eq!(arrival_on_draw(0, 17, 15, 0), Ok(false));
    assert_eq!(arrival_on_draw(ARRIVAL_SCALE - 1, 17, 60, 10_000), Ok(true));
    assert_eq!(arrival_on_draw(0, 99, 15, 1_000), Err(SimError::InvalidHour));
}

#[test]
fn sample_arrival_never_arrives_at_probability_zero() {
    let mut rng = rand::thread_rng();
    for _ in 0..2_000 {
        assert_eq!(sample_arrival(17, 60, 0, &mut rng), Ok(false));
        assert_eq!(sample_arrival(17, 0, 1_000, &mut rng), Ok(false));
    }
}

#[test]
fn sample_arrival_always_arrives_at_probability_one_or_more() {
    let mut rng = rand::thread_rng();
    for _ in 0..2_000 {
        assert_eq!(sample_arrival(17, 60, 10_000, &mut rng), Ok(true));
        assert_eq!(sample_arrival(3, 60, 1_000_000, &mut rng), Ok(true));
    }
}

#[test]
fn sample_arrival_refuses_hours_past_the_day() {
    let mut rng = rand::thread_rng();
    assert_eq!(sample_arrival(24, 15, 1_000, &mut rng), Err(SimError::InvalidHour));
}

#[test]
fn sample_arrival_arrives_at_about_the_scaled_rate() {
    // 1038 / 10000 * 60 / 60 * 5 = 0.519
    let mut rng = rand::thread_rng();
    let trials: u32 = 40_000;
    let mut arrivals: u32 = 0;
    for _ in 0..trials {
        if sample_arrival(17, 60, 5_000, &mut rng).unwrap() {
            arrivals += 1;
        }
    }
    let rate = arrivals as f64 / trials as f64;
    assert!((rate - 0.519).abs() < 0.03, "rate {}", rate);
}

#[test]
fn sample_arrival_scales_with_the_interval() {
    // 1038 / 10000 * 15 / 60 * 10 = 0.2595
    let mut rng = rand::thread_rng();
    let trials: u32 = 40_000;
    let mut arrivals: u32 = 0;
    for _ in 0..trials {
        if sample_arrival(16, 15, 10_000, &mut rng).unwrap() {
            arrivals += 1;
        }
    }
    let rate = arrivals as f64 / trials as f64;
    assert!((rate - 0.2595).abs() < 0.03, "rate {}", rate);
}

#[test]
fn charging_distances_is_the_table() {
    let table = charging_distances();
    assert_eq!(
        table,
        vec![
            (0, 3431),
            (5, 490),
            (10, 980),
            (20, 1176),
            (30, 882),
            (50, 1176),
            (100, 1078),
            (200, 490),
            (300, 294),
        ]
    );
    let total: u32 = table.iter().map(|entry| entry.1).sum();
    assert_eq!(total, 9_997);
}

#[test]
fn sampled_distance_is_one_of_the_table() {
    let mut rng = rand::thread_rng();
    for _ in 0..5_000 {
        let km = sample_charging_needs_km(&mut rng);
        assert!(BUCKETS.contains(&km), "distance {}", km);
    }
}

#[test]
fn sampled_distances_come_about_as_often_as_their_weights() {
    let weights: [f64; 9] = [0.3431, 0.049, 0.098, 0.1176, 0.0882, 0.1176, 0.1078, 0.049, 0.0294];
    let mut rng = rand::thread_rng();
    let trials: u32 = 60_000;
    let mut seen = [0u32; 9];
    for _ in 0..trials {
        let km = sample_charging_needs_km(&mut rng);
        let at = BUCKETS.iter().position(|bucket| *bucket == km).unwrap();
        seen[at] += 1;
    }
    for at in 0..9 {
        let share = seen[at] as f64 / trials as f64;
        let expected = weights[at] / 0.9997;
        assert!((share - expected).abs() < 0.02, "{} km: {}", BUCKETS[at], share);
        assert!(seen[at] > 0);
    }
}

#[test]
fn charging_energy_is_distance_times_consumption() {
    // 100 km at 18 kWh per 100 km are 18 kWh, 64.8 MJ.
    assert_eq!(charging_energy(100, 18_000), 64_800_000);
    assert_eq!(charging_energy(5, 18_000), 3_240_000);
    assert_eq!(charging_energy(300, 18_000), 194_400_000);
    assert_eq!(charging_energy(100, 11_000), 39_600_000);
    assert_eq!(charging_energy(0, 18_000), 0);
    assert_eq!(charging_energy(50, 0), 0);
    assert_eq!(charging_energy(300, u32::MAX), 300 * (u32::MAX as u64) * 36);
}

#[test]
fn sampled_energy_is_that_of_a_distance_of_the_table() {
    let mut rng = rand::thread_rng();
    for _ in 0..5_000 {
        let energy = sample_charging_energy(18_000, &mut rng);
        assert!(
            BUCKETS.iter().any(|km| energy == (*km as u64) * 18_000 * 36),
            "energy {}",
            energy
        );
    }
}

#[test]
fn sampled_energy_is_zero_at_no_consumption() {
    let mut rng = rand::thread_rng();
    for _ in 0..200 {
        assert_eq!(sample_charging_energy(0, &mut rng), 0);
    }
}
