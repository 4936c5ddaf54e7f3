//! When vehicles arrive and how much energy they ask for.
//!
//! Probabilities are counted in ten-thousandths, the arrival multiplier in
//! thousandths, so that an arrival is decided by comparing two integers.

use crate::error::SimError;
use crate::random::{choose_weighted_entry, uniform_below, weight_sum};
use rand::rngs::ThreadRng;
use vstd::prelude::*;

verus! {

/// Number of equally likely values of an arrival draw: ten thousand
/// (probability) times sixty (minutes of an hour) times a thousand
/// (multiplier).
pub const ARRIVAL_SCALE: u32 = 600_000_000;

/// Joules in one watt-hour per 100 km, driven for one kilometre.
pub const JOULES_PER_KM_UNIT: u64 = 36;

/// What was drawn for one free chargepoint in one interval.
#[derive(Clone, Copy, Debug, PartialEq, Eq, Structural)]
pub struct Draw {
    /// The arrival draw: a vehicle arrives when it is below the scaled
    /// arrival probability.
    pub arrival: u32,
    /// The distance that the vehicle has driven, in kilometres. It counts
    /// only when a vehicle arrives.
    pub distance_km: u32,
}

impl Draw {
    /// Whether the two draws can come out this way: the arrival draw is
    /// below `ARRIVAL_SCALE` and the distance is one of the table.
    pub open spec fn is_valid(self) -> bool {
        self.arrival < ARRIVAL_SCALE && is_distance_bucket(self.distance_km as nat)
    }

    /// Whether the two draws can come out this way.
    pub fn is_possible(&self) -> (possible: bool)
        ensures
            possible == self.is_valid(),
    {
        self.arrival < ARRIVAL_SCALE && (self.distance_km == 0 || self.distance_km == 5
            || self.distance_km == 10 || self.distance_km == 20 || self.distance_km == 30
            || self.distance_km == 50 || self.distance_km == 100 || self.distance_km == 200
            || self.distance_km == 300)
    }

    /// Energy, in joules, that the vehicle of this draw asks for at
    /// `consumption` watt-hours per 100 km, where a vehicle arrives on
    /// `threshold` of the `ARRIVAL_SCALE` arrival draws; zero when none
    /// arrives.
    pub open spec fn demand(self, threshold: nat, consumption: nat) -> nat {
        if (self.arrival as nat) < threshold {
            energy_for_distance(self.distance_km as nat, consumption)
        } else {
            0
        }
    }
}

/// Probability, in ten-thousandths, that a vehicle arrives at a free
/// chargepoint within one hour that starts at `hour` o'clock.
pub open spec fn arrival_rate(hour: nat) -> nat {
    if hour <= 7 {
        94
    } else if hour <= 9 {
        283
    } else if hour <= 12 {
        566
    } else if hour <= 15 {
        755
    } else if hour <= 18 {
        1038
    } else if hour <= 21 {
        472
    } else {
        94
    }
}

/// The distances that a vehicle may have driven, in kilometres, each with its
/// weight in ten-thousandths.
pub open spec fn distance_table() -> Seq<(u32, u32)> {
    seq![
        (0u32, 3431u32),
        (5u32, 490u32),
        (10u32, 980u32),
        (20u32, 1176u32),
        (30u32, 882u32),
        (50u32, 1176u32),
        (100u32, 1078u32),
        (200u32, 490u32),
        (300u32, 294u32),
    ]
}

/// Whether `km` is one of the distances of the table.
pub open spec fn is_distance_bucket(km: nat) -> bool {
    km == 0 || km == 5 || km == 10 || km == 20 || km == 30 || km == 50 || km == 100 || km == 200
        || km == 300
}

/// Number of arrival draws, out of `ARRIVAL_SCALE`, on which a vehicle
/// arrives: the hourly rate, scaled by the interval's length and by the
/// multiplier.
pub open spec fn arrival_threshold(hour: nat, interval_minutes: nat, arrival_multiplier: nat) -> nat {
    arrival_rate(hour) * interval_minutes * arrival_multiplier
}

/// Whether `draw` is an arrival draw on which, at the threshold `threshold`,
/// a vehicle arrives (`arrives`) or none does.
pub open spec fn arrival_draw_gives(draw: nat, arrives: bool, threshold: nat) -> bool {
    draw < ARRIVAL_SCALE && arrives == (draw < threshold)
}

/// Energy, in joules, that `km` kilometres take at `consumption` watt-hours
/// per 100 km.
pub open spec fn energy_for_distance(km: nat, consumption: nat) -> nat {
    km * consumption * 36
}

/// The hourly arrival probability at `hour`, in ten-thousandths.
pub fn arrival_probability(hour: u32) -> (result: Result<u32, SimError>)
    ensures
        hour <= 23 ==> result == Ok::<u32, SimError>(arrival_rate(hour as nat) as u32),
        hour > 23 ==> result == Err::<u32, SimError>(SimError::InvalidHour),
{
    match hour {
        0..=7 => Ok(94),
        8..=9 => Ok(283),
        10..=12 => Ok(566),
        13..=15 => Ok(755),
        16..=18 => Ok(1038),
        19..=21 => Ok(472),
        22..=23 => Ok(94),
        _ => Err(SimError::InvalidHour),
    }
}

/// The table of distances and weights.
pub fn charging_distances() -> (table: Vec<(u32, u32)>)
    ensures
        table@ == distance_table(),
{
    let table: Vec<(u32, u32)> = vec![
        (0u32, 3431u32),
        (5u32, 490u32),
        (10u32, 980u32),
        (20u32, 1176u32),
        (30u32, 882u32),
        (50u32, 1176u32),
        (100u32, 1078u32),
        (200u32, 490u32),
        (300u32, 294u32),
    ];
    table
}

/// Draws the distance that an arriving vehicle has driven, in kilometres.
pub fn sample_charging_needs_km(rng: &mut ThreadRng) -> (km: u32)
    ensures
        is_distance_bucket(km as nat),
{
    let table = charging_distances();
    proof {
        reveal_with_fuel(weight_sum, 10);
    }
    let entry = choose_weighted_entry(&table, rng).unwrap();
    proof {
        let i = choose|i: int| 0 <= i < table@.len() && table@[i] == entry;
        assert(is_distance_bucket(table@[i].0 as nat));
    }
    entry.0
}

/// Energy, in joules, that `km` kilometres take at `consumption` watt-hours
/// per 100 km.
pub fn charging_energy(km: u32, consumption: u32) -> (energy: u64)
    requires
        energy_for_distance(km as nat, consumption as nat) <= u64::MAX,
    ensures
        energy == energy_for_distance(km as nat, consumption as nat),
{
    let per_unit: u64 = (km as u64) * (consumption as u64);
    per_unit * JOULES_PER_KM_UNIT
}

/// Draws the energy that an arriving vehicle asks for, in joules, at
/// `consumption` watt-hours per 100 km: that of one of the distances of the
/// table.
pub fn sample_charging_energy(consumption: u32, rng: &mut ThreadRng) -> (energy: u64)
    ensures
        exists|km: nat| #[trigger]
            is_distance_bucket(km) && energy == energy_for_distance(km, consumption as nat),
{
    let km: u32 = sample_charging_needs_km(rng);
    charging_energy(km, consumption)
}

/// The number of arrival draws, out of `ARRIVAL_SCALE`, on which a vehicle
/// arrives at a free chargepoint in an interval of `interval_minutes` minutes
/// at `hour` o'clock, with the arrival multiplier in thousandths.
pub fn scaled_arrival_probability(hour: u32, interval_minutes: u32, arrival_multiplier: u32) -> (result:
    Result<u128, SimError>)
    ensures
        hour <= 23 ==> result == Ok::<u128, SimError>(
            arrival_threshold(hour as nat, interval_minutes as nat, arrival_multiplier as nat) as u128,
        ),
        hour <= 23 ==> arrival_threshold(
            hour as nat,
            interval_minutes as nat,
            arrival_multiplier as nat,
        ) <= u128::MAX,
        hour > 23 ==> result == Err::<u128, SimError>(SimError::InvalidHour),
{
    match arrival_probability(hour) {
        Ok(rate) => {
            assert(rate * interval_minutes * arrival_multiplier <= 1038 * 0xffff_ffff * 0xffff_ffff)
                by (nonlinear_arith)
                requires
                    rate <= 1038,
                    interval_minutes <= 0xffff_ffff,
                    arrival_multiplier <= 0xffff_ffff,
            ;
            assert(rate * interval_minutes <= 1038 * 0xffff_ffff) by (nonlinear_arith)
                requires
                    rate <= 1038,
                    interval_minutes <= 0xffff_ffff,
            ;
            Ok((rate as u128) * (interval_minutes as u128) * (arrival_multiplier as u128))
        },
        Err(error) => Err(error),
    }
}

/// Whether a vehicle arrives on the arrival draw `draw`: it does when the
/// draw is below the scaled arrival probability.
pub fn arrival_on_draw(draw: u32, hour: u32, interval_minutes: u32, arrival_multiplier: u32) -> (result:
    Result<bool, SimError>)
    ensures
        hour <= 23 ==> result == Ok::<bool, SimError>(
            (draw as nat) < arrival_threshold(
                hour as nat,
                interval_minutes as nat,
                arrival_multiplier as nat,
            ),
        ),
        hour > 23 ==> result == Err::<bool, SimError>(SimError::InvalidHour),
{
    match scaled_arrival_probability(hour, interval_minutes, arrival_multiplier) {
        Ok(threshold) => Ok((draw as u128) < threshold),
        Err(error) => Err(error),
    }
}

/// Draws whether a vehicle arrives at a free chargepoint in an interval of
/// `interval_minutes` minutes at `hour` o'clock. One value below
/// `ARRIVAL_SCALE` is drawn, and the vehicle arrives when it is below the
/// scaled arrival probability: never when that is zero, always when it is
/// `ARRIVAL_SCALE` or more.
pub fn sample_arrival(hour: u32, interval_minutes: u32, arrival_multiplier: u32, rng: &mut ThreadRng) -> (result:
    Result<bool, SimError>)
    ensures
        hour > 23 ==> result == Err::<bool, SimError>(SimError::InvalidHour),
        hour <= 23 ==> result is Ok,
        result matches Ok(arrives) ==> exists|draw: nat| #[trigger]
            arrival_draw_gives(
                draw,
                arrives,
                arrival_threshold(hour as nat, interval_minutes as nat, arrival_multiplier as nat),
            ),
{
    if hour > 23 {
        return Err(SimError::InvalidHour);
    }
    let draw: u32 = uniform_below(rng, ARRIVAL_SCALE);
    let result = arrival_on_draw(draw, hour, interval_minutes, arrival_multiplier);
    assert(arrival_draw_gives(
        draw as nat,
        result->Ok_0,
        arrival_threshold(hour as nat, interval_minutes as nat, arrival_multiplier as nat),
    ));
    result
}

/// Of the `ARRIVAL_SCALE` values that an arrival draw can take, a vehicle
/// arrives on `threshold` of them, and on all of them when `threshold` is
/// larger: the share of the draws on which a vehicle arrives is the scaled
/// arrival probability, cut off at one.
pub proof fn lemma_arrival_draw_count(threshold: nat)
    ensures
        Set::new(|draw: int| 0 <= draw < ARRIVAL_SCALE && draw < threshold).finite(),
        Set::new(|draw: int| 0 <= draw < ARRIVAL_SCALE && draw < threshold).len() == if threshold
            <= ARRIVAL_SCALE {
            threshold
        } else {
            ARRIVAL_SCALE as nat
        },
{
    let favourable = Set::new(|draw: int| 0 <= draw < ARRIVAL_SCALE && draw < threshold);
    let bound: int = if threshold <= ARRIVAL_SCALE {
        threshold as int
    } else {
        ARRIVAL_SCALE as int
    };
    vstd::set_lib::lemma_int_range(0, bound);
    assert(favourable =~= vstd::set_lib::set_int_range(0, bound));
}

} // verus!
