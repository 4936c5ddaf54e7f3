//! The engine: a fleet of chargepoints that is advanced interval by
//! interval.

use crate::chargepoint::{fleet_view, Chargepoint, ChargepointView};
use crate::distributions::{
    arrival_draw_gives, arrival_on_draw, arrival_threshold, charging_energy, energy_for_distance,
    is_distance_bucket, sample_arrival, sample_charging_energy, Draw,
};
use crate::error::SimError;
use crate::fleet::{
    admitted, charged, fleet_admitted, fleet_charged, fleet_energy_taken, fleet_power,
    interval_energy, lemma_concurrency_at_most_one, lemma_intervals_span, lemma_max_of, lemma_run_reachable, lemma_run_state_prefix,
    lemma_step_reachable, lemma_within_ceiling, max_of, Configuration, FleetState, Summary,
};
use crate::random::thread_source;
use crate::vehicle::Vehicle;
use rand::rngs::ThreadRng;
use vstd::prelude::*;

verus! {

/// What a simulator is to the model: its configuration and the state that
/// its run has reached.
pub ghost struct SimulatorView {
    pub config: Configuration,
    pub state: FleetState,
}

impl SimulatorView {
    /// A simulator of configuration `config` that has not run yet.
    pub open spec fn fresh(config: Configuration) -> SimulatorView {
        SimulatorView { config, state: config.initial() }
    }

    /// Whether a run can start: nothing has run yet, the intervals are no
    /// longer than an hour, and the energy of a whole run fits in 64 bits.
    pub open spec fn is_ready(self) -> bool {
        &&& self.state == self.config.initial()
        &&& self.config.interval_minutes <= 60
        &&& self.config.energy_ceiling() <= u64::MAX
    }
}

/// The entries of `history` as numbers of the model.
pub open spec fn history_view(history: Seq<u64>) -> Seq<nat> {
    Seq::new(history.len(), |k: int| history[k] as nat)
}

/// A fleet of chargepoints with its configuration, its totals and its random
/// source.
pub struct Simulator {
    num_chargepoints: usize,
    power_per_chargepoint_w: u32,
    consumption_wh_per_100km: u32,
    days: u32,
    interval_minutes: u32,
    arrival_multiplier: u32,
    chargepoints: Vec<Chargepoint>,
    power_history: Vec<u64>,
    total_energy: u64,
    rng: ThreadRng,
}

impl View for Simulator {
    type V = SimulatorView;

    closed spec fn view(&self) -> SimulatorView {
        SimulatorView {
            config: Configuration {
                num_chargepoints: self.num_chargepoints as nat,
                power: self.power_per_chargepoint_w as nat,
                consumption: self.consumption_wh_per_100km as nat,
                days: self.days as nat,
                interval_minutes: self.interval_minutes as nat,
                arrival_multiplier: self.arrival_multiplier as nat,
            },
            state: FleetState {
                fleet: fleet_view(self.chargepoints@),
                total_energy: self.total_energy as nat,
                power_history: history_view(self.power_history@),
            },
        }
    }
}

impl Simulator {
    /// A simulator of `num_chargepoints` free chargepoints of
    /// `power_per_chargepoint_w` watts each, for vehicles that take
    /// `consumption_wh_per_100km` watt-hours per 100 km, to run for `days`
    /// days in intervals of `interval_minutes` minutes, with the arrival
    /// multiplier in thousandths. Intervals of more than an hour are
    /// refused.
    pub fn new(
        num_chargepoints: usize,
        power_per_chargepoint_w: u32,
        consumption_wh_per_100km: u32,
        days: u32,
        interval_minutes: u32,
        arrival_multiplier: u32,
    ) -> (result: Result<Simulator, SimError>)
        ensures
            interval_minutes > 60 ==> result matches Err(SimError::InvalidConfiguration),
            interval_minutes <= 60 ==> (result matches Ok(simulator) && simulator@ == SimulatorView::fresh(
                Configuration {
                    num_chargepoints: num_chargepoints as nat,
                    power: power_per_chargepoint_w as nat,
                    consumption: consumption_wh_per_100km as nat,
                    days: days as nat,
                    interval_minutes: interval_minutes as nat,
                    arrival_multiplier: arrival_multiplier as nat,
                },
            )),
    {
        if interval_minutes > 60 {
            return Err(SimError::InvalidConfiguration);
        }
        let mut chargepoints: Vec<Chargepoint> = Vec::new();
        let mut i: usize = 0;
        while i < num_chargepoints
            invariant
                i <= num_chargepoints,
                chargepoints@.len() == i,
                forall|j: int|
                    0 <= j < i ==> (#[trigger] chargepoints@[j])@ == (ChargepointView {
                        power: power_per_chargepoint_w as nat,
                        vehicle: None,
                    }),
            decreases num_chargepoints - i,
        {
            chargepoints.push(Chargepoint::new(power_per_chargepoint_w));
            i += 1;
        }
        let simulator = Simulator {
            num_chargepoints,
            power_per_chargepoint_w,
            consumption_wh_per_100km,
            days,
            interval_minutes,
            arrival_multiplier,
            chargepoints,
            power_history: Vec::new(),
            total_energy: 0,
            rng: thread_source(),
        };
        assert(simulator@.state.fleet =~= simulator@.config.initial().fleet);
        assert(simulator@.state.power_history =~= simulator@.config.initial().power_history);
        Ok(simulator)
    }

    /// Whether the energy of a whole run fits in 64 bits.
    pub fn within_limits(&self) -> (fits: bool)
        ensures
            fits == (self@.config.energy_ceiling() <= u64::MAX),
    {
        let seconds: u64 = (self.days as u64) * 86_400 + 3_600;
        assert(self.power_per_chargepoint_w * seconds <= 0xffff_ffff * 0x4_0000_0000_0000)
            by (nonlinear_arith)
            requires
                self.power_per_chargepoint_w <= 0xffff_ffff,
                seconds <= 0x4_0000_0000_0000,
        ;
        let each: u128 = (self.power_per_chargepoint_w as u128) * (seconds as u128);
        if self.num_chargepoints == 0 {
            assert(0 * each == 0) by (nonlinear_arith);
            true
        } else if each > 0xffff_ffff_ffff_ffff {
            assert(self.num_chargepoints * each >= each) by (nonlinear_arith)
                requires
                    self.num_chargepoints >= 1,
                    each >= 0,
            ;
            false
        } else {
            assert(self.num_chargepoints * each <= 0xffff_ffff_ffff_ffff * 0xffff_ffff_ffff_ffff)
                by (nonlinear_arith)
                requires
                    self.num_chargepoints <= 0xffff_ffff_ffff_ffff,
                    each <= 0xffff_ffff_ffff_ffff,
            ;
            (self.num_chargepoints as u128) * each <= 0xffff_ffff_ffff_ffff
        }
    }

    /// Whether `draws` holds a valid draw for each chargepoint.
    fn accepts_row(&self, draws: &Vec<Draw>) -> (accepted: bool)
        ensures
            accepted == self@.config.admits_row(draws@),
    {
        if draws.len() != self.num_chargepoints {
            return false;
        }
        let mut j: usize = 0;
        while j < draws.len()
            invariant
                j <= draws.len(),
                forall|k: int| 0 <= k < j ==> (#[trigger] draws@[k]).is_valid(),
            decreases draws.len() - j,
        {
            if !draws[j].is_possible() {
                return false;
            }
            j += 1;
        }
        true
    }

    /// Whether `tape` holds draws for a whole run of this simulator: a row
    /// for each interval, a valid draw for each chargepoint in it.
    pub fn accepts(&self, tape: &Vec<Vec<Draw>>) -> (accepted: bool)
        ensures
            accepted == self@.config.admits(tape_view(tape@)),
    {
        let total_intervals: u64 = if self.interval_minutes == 0 {
            0
        } else {
            ((self.days as u64) * 1440 + (self.interval_minutes as u64) - 1) / (
            self.interval_minutes as u64)
        };
        if tape.len() as u64 != total_intervals {
            return false;
        }
        let mut i: usize = 0;
        while i < tape.len()
            invariant
                i <= tape.len(),
                tape_view(tape@).len() == tape.len() == self@.config.total_intervals(),
                forall|k: int| 0 <= k < i ==> self@.config.admits_row(#[trigger] tape_view(tape@)[k]),
            decreases tape.len() - i,
        {
            if !self.accepts_row(&tape[i]) {
                assert(!self@.config.admits_row(tape_view(tape@)[i as int]));
                return false;
            }
            i += 1;
        }
        true
    }

    /// One interval of charging: every vehicle takes what its chargepoint
    /// delivers within the interval, as far as it needs it, and leaves when
    /// it needs nothing more. Returns the energy delivered.
    fn charge_step(&mut self) -> (energy: u64)
        requires
            old(self)@.config.interval_minutes <= 60,
            forall|i: int|
                0 <= i < old(self)@.state.fleet.len() ==> (#[trigger] old(self)@.state.fleet[i]).power
                    == old(self)@.config.power,
            old(self)@.state.fleet.len() * interval_energy(
                old(self)@.config.power,
                old(self)@.config.interval_minutes,
            ) <= u64::MAX,
        ensures
            final(self)@.config == old(self)@.config,
            final(self)@.state.fleet == fleet_charged(
                old(self)@.state.fleet,
                old(self)@.config.interval_minutes,
            ),
            final(self)@.state.total_energy == old(self)@.state.total_energy,
            final(self)@.state.power_history == old(self)@.state.power_history,
            energy == fleet_energy_taken(old(self)@.state.fleet, old(self)@.config.interval_minutes),
    {
        let mut energy_delivered: u64 = 0;
        let interval_minutes: u32 = self.interval_minutes;
        let ghost before = self@.state.fleet;
        let ghost minutes = self@.config.interval_minutes;
        let ghost power = self@.config.power;
        let mut i: usize = 0;
        while i < self.chargepoints.len()
            invariant
                i <= self.chargepoints.len(),
                interval_minutes == minutes <= 60,
                self@.config == old(self)@.config,
                self@.state.total_energy == old(self)@.state.total_energy,
                self@.state.power_history == old(self)@.state.power_history,
                self.chargepoints.len() == before.len(),
                before == old(self)@.state.fleet,
                power == old(self)@.config.power,
                forall|j: int| 0 <= j < before.len() ==> (#[trigger] before[j]).power == power,
                before.len() * interval_energy(power, minutes) <= u64::MAX,
                forall|j: int| 0 <= j < i ==> (#[trigger] self.chargepoints@[j])@ == charged(before[j], minutes),
                forall|j: int|
                    i <= j < before.len() ==> (#[trigger] self.chargepoints@[j])@ == before[j],
                energy_delivered == fleet_energy_taken(before.take(i as int), minutes),
                energy_delivered <= i * interval_energy(power, minutes),
            decreases self.chargepoints.len() - i,
        {
            proof {
                assert(before.take(i + 1).drop_last() =~= before.take(i as int));
                assert((i + 1) * interval_energy(power, minutes) == i * interval_energy(power, minutes)
                    + interval_energy(power, minutes)) by (nonlinear_arith);
                assert((i + 1) * interval_energy(power, minutes) <= before.len() * interval_energy(
                    power,
                    minutes,
                )) by (nonlinear_arith)
                    requires
                        i + 1 <= before.len(),
                ;
            }
            let chargepoint = &mut self.chargepoints[i];
            let energy_available: u64 = (chargepoint.power_w as u64) * (interval_minutes as u64) * 60;
            if let Some(vehicle) = &mut chargepoint.vehicle {
                if let Ok(taken) = vehicle.charge(energy_available) {
                    energy_delivered += taken;
                }
                if !vehicle.is_charging() {
                    chargepoint.vehicle = None;
                }
            }
            i += 1;
        }
        assert(before.take(i as int) =~= before);
        energy_delivered
    }

    /// The power that the fleet draws, in watts.
    fn power_demand(&self) -> (power: u64)
        requires
            forall|i: int|
                0 <= i < self@.state.fleet.len() ==> (#[trigger] self@.state.fleet[i]).power
                    == self@.config.power,
            self@.state.fleet.len() * self@.config.power <= u64::MAX,
        ensures
            power == fleet_power(self@.state.fleet),
    {
        let mut power_demand: u64 = 0;
        let ghost fleet = self@.state.fleet;
        let ghost rating = self@.config.power;
        let mut i: usize = 0;
        while i < self.chargepoints.len()
            invariant
                i <= self.chargepoints.len(),
                fleet == self@.state.fleet,
                fleet.len() == self.chargepoints.len(),
                forall|j: int| 0 <= j < fleet.len() ==> (#[trigger] fleet[j]).power == rating,
                fleet.len() * rating <= u64::MAX,
                power_demand == fleet_power(fleet.take(i as int)),
                power_demand <= i * rating,
            decreases self.chargepoints.len() - i,
        {
            proof {
                assert(fleet.take(i + 1).drop_last() =~= fleet.take(i as int));
                assert(fleet[i as int] == self.chargepoints@[i as int]@);
                assert((i + 1) * rating == i * rating + rating) by (nonlinear_arith);
                assert((i + 1) * rating <= fleet.len() * rating) by (nonlinear_arith)
                    requires
                        i + 1 <= fleet.len(),
                ;
            }
            if self.chargepoints[i].is_charging() {
                power_demand += self.chargepoints[i].power_w as u64;
            }
            i += 1;
        }
        assert(fleet.take(i as int) =~= fleet);
        power_demand
    }

    /// The arrivals of one interval at `hour` o'clock: each free chargepoint
    /// gets the vehicle of its draw, if that asks for any energy. The draws
    /// are those of `script`, or else made from the random source; either
    /// way they are returned.
    fn arrival_step(&mut self, hour: u32, script: Option<&Vec<Draw>>) -> (row: Ghost<Seq<Draw>>)
        requires
            hour <= 23,
            old(self)@.state.fleet.len() == old(self)@.config.num_chargepoints,
            script matches Some(draws) ==> old(self)@.config.admits_row(draws@),
        ensures
            final(self)@.config == old(self)@.config,
            final(self)@.state.fleet == fleet_admitted(
                old(self)@.state.fleet,
                row@,
                arrival_threshold(
                    hour as nat,
                    old(self)@.config.interval_minutes,
                    old(self)@.config.arrival_multiplier,
                ),
                old(self)@.config.consumption,
            ),
            final(self)@.state.total_energy == old(self)@.state.total_energy,
            final(self)@.state.power_history == old(self)@.state.power_history,
            old(self)@.config.admits_row(row@),
            script matches Some(draws) ==> row@ == draws@,
    {
        let ghost before = self@.state.fleet;
        let ghost config = self@.config;
        let ghost threshold = arrival_threshold(
            hour as nat,
            config.interval_minutes,
            config.arrival_multiplier,
        );
        let ghost mut row: Seq<Draw> = Seq::empty();
        let mut i: usize = 0;
        while i < self.chargepoints.len()
            invariant
                i <= self.chargepoints.len(),
                hour <= 23,
                self@.config == config,
                config == old(self)@.config,
                self@.state.total_energy == old(self)@.state.total_energy,
                self@.state.power_history == old(self)@.state.power_history,
                self.chargepoints.len() == before.len() == config.num_chargepoints,
                before == old(self)@.state.fleet,
                threshold == arrival_threshold(
                    hour as nat,
                    config.interval_minutes,
                    config.arrival_multiplier,
                ),
                script matches Some(draws) ==> config.admits_row(draws@),
                row.len() == i,
                forall|j: int| 0 <= j < i ==> (#[trigger] row[j]).is_valid(),
                script matches Some(draws) ==> forall|j: int| 0 <= j < i ==> row[j] == draws@[j],
                forall|j: int|
                    0 <= j < i ==> (#[trigger] self.chargepoints@[j])@ == admitted(
                        before[j],
                        row[j].demand(threshold, config.consumption),
                    ),
                forall|j: int|
                    i <= j < before.len() ==> (#[trigger] self.chargepoints@[j])@ == before[j],
            decreases self.chargepoints.len() - i,
        {
            let ghost mut draw = Draw { arrival: 0, distance_km: 0 };
            proof {
                if let Some(draws) = script {
                    draw = draws@[i as int];
                }
            }
            if self.chargepoints[i].vehicle.is_none() {
                let demand: u64 = match script {
                    Some(draws) => scripted_demand(
                        draws[i],
                        hour,
                        self.interval_minutes,
                        self.arrival_multiplier,
                        self.consumption_wh_per_100km,
                    ),
                    None => {
                        let (demand, drawn) = sampled_demand(
                            hour,
                            self.interval_minutes,
                            self.arrival_multiplier,
                            self.consumption_wh_per_100km,
                            &mut self.rng,
                        );
                        proof {
                            draw = drawn@;
                        }
                        demand
                    },
                };
                if demand > 0 {
                    let chargepoint = &mut self.chargepoints[i];
                    chargepoint.vehicle = Some(Vehicle::new(demand));
                }
            }
            proof {
                row = row.push(draw);
            }
            i += 1;
        }
        proof {
            if let Some(draws) = script {
                assert(row =~= draws@);
            }
        }
        Ghost(row)
    }

    /// Interval `index` of the run: the vehicles charge, new ones arrive,
    /// and the energy delivered and the power then drawn are recorded.
    /// Returns the draws of the interval.
    fn advance(&mut self, index: u64, script: Option<&Vec<Draw>>) -> (row: Ghost<Seq<Draw>>)
        requires
            1 <= index <= old(self)@.config.total_intervals(),
            0 < old(self)@.config.interval_minutes <= 60,
            old(self)@.config.energy_ceiling() <= u64::MAX,
            old(self)@.config.reachable(old(self)@.state, (index - 1) as nat),
            script matches Some(draws) ==> old(self)@.config.admits_row(draws@),
        ensures
            final(self)@.config == old(self)@.config,
            final(self)@.state == old(self)@.config.step(old(self)@.state, index as nat, row@),
            old(self)@.config.admits_row(row@),
            script matches Some(draws) ==> row@ == draws@,
    {
        let ghost config = self@.config;
        let ghost state = self@.state;
        proof {
            lemma_intervals_span(config, index as nat);
            lemma_within_ceiling(config, index as nat);
        }
        let hour: u32 = (((index * (self.interval_minutes as u64)) / 60) % 24) as u32;
        let interval_energy: u64 = self.charge_step();
        let row = self.arrival_step(hour, script);
        proof {
            lemma_step_reachable(config, state, (index - 1) as nat, row@);
        }
        let power_demand: u64 = self.power_demand();
        self.total_energy += interval_energy;
        self.power_history.push(power_demand);
        assert(self@.state.power_history =~= state.power_history.push(power_demand as nat));
        row
    }

    /// The whole run, on the draws of `script` or else on draws from the
    /// random source. Returns the draws.
    fn simulate(&mut self, script: Option<&Vec<Vec<Draw>>>) -> (tape: Ghost<Seq<Seq<Draw>>>)
        requires
            old(self)@.is_ready(),
            0 < old(self)@.config.interval_minutes,
            script matches Some(rows) ==> old(self)@.config.admits(tape_view(rows@)),
        ensures
            final(self)@.config == old(self)@.config,
            old(self)@.config.is_run(tape@, final(self)@.state),
            script matches Some(rows) ==> tape@ == tape_view(rows@),
    {
        let ghost config = self@.config;
        let ghost mut tape: Seq<Seq<Draw>> = Seq::empty();
        let total_intervals: u64 = ((self.days as u64) * 1440 + (self.interval_minutes as u64) - 1) / (
        self.interval_minutes as u64);
        let mut index: u64 = 0;
        proof {
            lemma_run_reachable(config, tape, 0);
        }
        while index < total_intervals
            invariant
                index <= total_intervals == config.total_intervals(),
                self@.config == config,
                config == old(self)@.config,
                0 < config.interval_minutes <= 60,
                config.energy_ceiling() <= u64::MAX,
                script matches Some(rows) ==> config.admits(tape_view(rows@)),
                tape.len() == index,
                forall|i: int| 0 <= i < tape.len() ==> config.admits_row(#[trigger] tape[i]),
                script matches Some(rows) ==> forall|i: int|
                    0 <= i < tape.len() ==> tape[i] == (#[trigger] rows@[i])@,
                self@.state == config.run_state(tape, index as nat),
            decreases total_intervals - index,
        {
            index += 1;
            let ghost before = tape;
            proof {
                lemma_run_reachable(config, before, (index - 1) as nat);
            }
            let row = match script {
                Some(rows) => {
                    assert(index - 1 < tape_view(rows@).len() == rows.len());
                    assert(config.admits_row(tape_view(rows@)[index - 1]));
                    let at: usize = (index - 1) as usize;
                    self.advance(index, Some(&rows[at]))
                },
                None => self.advance(index, None),
            };
            proof {
                tape = before.push(row@);
                lemma_run_state_prefix(config, before, tape, (index - 1) as nat);
            }
        }
        proof {
            if let Some(rows) = script {
                assert(tape =~= tape_view(rows@));
            }
        }
        Ghost(tape)
    }

    /// What the run reports, from the totals and the power recorded.
    fn results(&self) -> (results: SimulationResults)
        requires
            !self@.config.is_degenerate(),
            self@.config.max_theoretical_power() <= u64::MAX,
            forall|k: int|
                0 <= k < self@.state.power_history.len() ==> (#[trigger] self@.state.power_history[k])
                    <= self@.config.max_theoretical_power(),
        ensures
            results@ == self@.config.summary(self@.state),
    {
        let ghost history = self@.state.power_history;
        let mut max_power: u64 = 0;
        let mut k: usize = 0;
        while k < self.power_history.len()
            invariant
                k <= self.power_history.len(),
                history == self@.state.power_history,
                max_power == max_of(history.take(k as int)),
            decreases self.power_history.len() - k,
        {
            assert(history.take(k + 1).drop_last() =~= history.take(k as int));
            if self.power_history[k] > max_power {
                max_power = self.power_history[k];
            }
            k += 1;
        }
        assert(history.take(k as int) =~= history);
        let max_theoretical_power: u64 = (self.num_chargepoints as u64) * (
        self.power_per_chargepoint_w as u64);
        proof {
            lemma_max_of(history);
            assert(max_theoretical_power > 0) by (nonlinear_arith)
                requires
                    max_theoretical_power == self.num_chargepoints * self.power_per_chargepoint_w,
                    self.num_chargepoints > 0,
                    self.power_per_chargepoint_w > 0,
            ;
            vstd::arithmetic::div_mod::lemma_div_is_ordered(
                max_power * 1_000_000,
                max_theoretical_power * 1_000_000,
                max_theoretical_power as int,
            );
            vstd::arithmetic::div_mod::lemma_div_multiples_vanish(
                1_000_000,
                max_theoretical_power as int,
            );
        }
        let concurrency_factor: u128 = (max_power as u128) * 1_000_000 / (max_theoretical_power as u128);
        let power_history = self.power_history.clone();
        SimulationResults {
            total_energy_j: self.total_energy,
            max_power_w: max_power,
            max_theoretical_power_w: max_theoretical_power,
            concurrency_factor_ppm: concurrency_factor as u32,
            power_history,
        }
    }

    /// Runs all the intervals on draws from the random source, and reports.
    /// A run whose intervals have no length, or whose fleet can draw no
    /// power, is refused and nothing is run.
    pub fn run(&mut self) -> (result: Result<SimulationResults, SimError>)
        requires
            old(self)@.is_ready(),
        ensures
            final(self)@.config == old(self)@.config,
            old(self)@.config.is_degenerate() ==> (result matches Err(SimError::InvalidConfiguration)
                && final(self)@ == old(self)@),
            !old(self)@.config.is_degenerate() ==> (result matches Ok(results) && results@
                == old(self)@.config.summary(final(self)@.state) && exists|tape: Seq<Seq<Draw>>|
             #[trigger]
                old(self)@.config.is_run(tape, final(self)@.state)),
            result matches Ok(results) ==> results@.power_history.len()
                == old(self)@.config.total_intervals() && results@.max_power
                <= results@.max_theoretical_power && results@.concurrency_factor <= 1_000_000,
    {
        if self.interval_minutes == 0 || self.num_chargepoints == 0 || self.power_per_chargepoint_w
            == 0 {
            return Err(SimError::InvalidConfiguration);
        }
        let tape = self.simulate(None);
        proof {
            lemma_run_reachable(self@.config, tape@, self@.config.total_intervals());
            lemma_within_ceiling(self@.config, 0);
            lemma_concurrency_at_most_one(self@.config, self@.state, self@.config.total_intervals());
        }
        Ok(self.results())
    }

    /// Runs all the intervals on the draws of `tape`, row `i` for interval
    /// `i + 1` and entry `j` of a row for chargepoint `j`, and reports. A run
    /// whose intervals have no length, or whose fleet can draw no power, is
    /// refused and nothing is run.
    pub fn run_with(&mut self, tape: &Vec<Vec<Draw>>) -> (result: Result<SimulationResults, SimError>)
        requires
            old(self)@.is_ready(),
            old(self)@.config.admits(tape_view(tape@)),
        ensures
            final(self)@.config == old(self)@.config,
            old(self)@.config.is_degenerate() ==> (result matches Err(SimError::InvalidConfiguration)
                && final(self)@ == old(self)@),
            !old(self)@.config.is_degenerate() ==> (result matches Ok(results) && results@
                == old(self)@.config.summary(final(self)@.state) && final(self)@.state
                == old(self)@.config.run_state(
                tape_view(tape@),
                old(self)@.config.total_intervals(),
            )),
            result matches Ok(results) ==> results@.power_history.len()
                == old(self)@.config.total_intervals() && results@.max_power
                <= results@.max_theoretical_power && results@.concurrency_factor <= 1_000_000,
    {
        if self.interval_minutes == 0 || self.num_chargepoints == 0 || self.power_per_chargepoint_w
            == 0 {
            return Err(SimError::InvalidConfiguration);
        }
        let drawn = self.simulate(Some(tape));
        proof {
            lemma_run_reachable(self@.config, drawn@, self@.config.total_intervals());
            lemma_within_ceiling(self@.config, 0);
            lemma_concurrency_at_most_one(self@.config, self@.state, self@.config.total_intervals());
        }
        Ok(self.results())
    }
}

/// What a run reports.
#[derive(Debug, Clone)]
pub struct SimulationResults {
    /// Energy delivered, in joules.
    pub total_energy_j: u64,
    /// The most power that the fleet drew in an interval, in watts.
    pub max_power_w: u64,
    /// Power that the fleet draws when every chargepoint charges, in watts.
    pub max_theoretical_power_w: u64,
    /// `max_power_w` as a share of `max_theoretical_power_w`, in millionths,
    /// rounded down.
    pub concurrency_factor_ppm: u32,
    /// Power that the fleet drew in each interval, in watts, in the order of
    /// the intervals.
    pub power_history: Vec<u64>,
}

impl View for SimulationResults {
    type V = Summary;

    open spec fn view(&self) -> Summary {
        Summary {
            total_energy: self.total_energy_j as nat,
            max_power: self.max_power_w as nat,
            max_theoretical_power: self.max_theoretical_power_w as nat,
            concurrency_factor: self.concurrency_factor_ppm as nat,
            power_history: history_view(self.power_history@),
        }
    }
}

/// The rows of `tape`, each as a sequence of draws.
pub open spec fn tape_view(tape: Seq<Vec<Draw>>) -> Seq<Seq<Draw>> {
    Seq::new(tape.len(), |i: int| tape[i]@)
}

/// The energy that the vehicle of `draw` asks for in an interval of
/// `interval_minutes` minutes at `hour` o'clock; zero when none arrives.
fn scripted_demand(
    draw: Draw,
    hour: u32,
    interval_minutes: u32,
    arrival_multiplier: u32,
    consumption: u32,
) -> (demand: u64)
    requires
        hour <= 23,
        draw.is_valid(),
    ensures
        demand == draw.demand(
            arrival_threshold(hour as nat, interval_minutes as nat, arrival_multiplier as nat),
            consumption as nat,
        ),
{
    match arrival_on_draw(draw.arrival, hour, interval_minutes, arrival_multiplier) {
        Ok(true) => {
            charging_energy(draw.distance_km, consumption)
        },
        _ => 0,
    }
}

/// Draws, for a free chargepoint in an interval of `interval_minutes`
/// minutes at `hour` o'clock, whether a vehicle arrives and, if one does,
/// the energy that it asks for. Returns that energy, zero when none arrives,
/// and a draw that gives it.
fn sampled_demand(
    hour: u32,
    interval_minutes: u32,
    arrival_multiplier: u32,
    consumption: u32,
    rng: &mut ThreadRng,
) -> (out: (u64, Ghost<Draw>))
    requires
        hour <= 23,
    ensures
        out.1@.is_valid(),
        out.0 == out.1@.demand(
            arrival_threshold(hour as nat, interval_minutes as nat, arrival_multiplier as nat),
            consumption as nat,
        ),
{
    let ghost threshold = arrival_threshold(
        hour as nat,
        interval_minutes as nat,
        arrival_multiplier as nat,
    );
    let arrives: bool = sample_arrival(hour, interval_minutes, arrival_multiplier, rng).unwrap();
    let ghost arrival = choose|draw: nat| #[trigger] arrival_draw_gives(draw, arrives, threshold);
    if !arrives {
        return (0, Ghost(Draw { arrival: arrival as u32, distance_km: 0 }));
    }
    let energy: u64 = sample_charging_energy(consumption, rng);
    let ghost km = choose|km: nat| #[trigger]
        is_distance_bucket(km) && energy == energy_for_distance(km, consumption as nat);
    (energy, Ghost(Draw { arrival: arrival as u32, distance_km: km as u32 }))
}

} // verus!
