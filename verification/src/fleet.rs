//! The model of a run: what each interval does to the fleet, as functions of
//! the configuration and of what was drawn.

use crate::chargepoint::ChargepointView;
use crate::distributions::{arrival_rate, arrival_threshold, Draw};
use crate::vehicle::delivered;
use vstd::prelude::*;

verus! {

/// Energy, in joules, that a chargepoint of `power` watts delivers within
/// `minutes` minutes.
pub open spec fn interval_energy(power: nat, minutes: nat) -> nat {
    power * minutes * 60
}

/// Energy that the vehicle at `chargepoint`, if there is one, takes within an
/// interval of `minutes` minutes.
pub open spec fn energy_taken(chargepoint: ChargepointView, minutes: nat) -> nat {
    match chargepoint.vehicle {
        Some(need) => delivered(need, interval_energy(chargepoint.power, minutes)),
        None => 0,
    }
}

/// The chargepoint after an interval of `minutes` minutes of charging: its
/// vehicle needs less, and is gone when it needs nothing more.
pub open spec fn charged(chargepoint: ChargepointView, minutes: nat) -> ChargepointView {
    ChargepointView {
        power: chargepoint.power,
        vehicle: match chargepoint.vehicle {
            Some(need) => if need > interval_energy(chargepoint.power, minutes) {
                Some((need - interval_energy(chargepoint.power, minutes)) as nat)
            } else {
                None
            },
            None => None,
        },
    }
}

/// The chargepoint after a vehicle that asks for `demand` joules came by: it
/// is attached when the chargepoint is free and it asks for anything at all.
pub open spec fn admitted(chargepoint: ChargepointView, demand: nat) -> ChargepointView {
    if chargepoint.vehicle is None && demand > 0 {
        ChargepointView { power: chargepoint.power, vehicle: Some(demand) }
    } else {
        chargepoint
    }
}

/// The fleet after an interval of `minutes` minutes of charging.
pub open spec fn fleet_charged(fleet: Seq<ChargepointView>, minutes: nat) -> Seq<ChargepointView> {
    Seq::new(fleet.len(), |i: int| charged(fleet[i], minutes))
}

/// Energy that the vehicles of the fleet take together within an interval of
/// `minutes` minutes.
pub open spec fn fleet_energy_taken(fleet: Seq<ChargepointView>, minutes: nat) -> nat
    decreases fleet.len(),
{
    if fleet.len() == 0 {
        0
    } else {
        fleet_energy_taken(fleet.drop_last(), minutes) + energy_taken(fleet.last(), minutes)
    }
}

/// The fleet after the arrivals of one interval: chargepoint `i` gets the
/// vehicle of `draws[i]`.
pub open spec fn fleet_admitted(
    fleet: Seq<ChargepointView>,
    draws: Seq<Draw>,
    threshold: nat,
    consumption: nat,
) -> Seq<ChargepointView> {
    Seq::new(fleet.len(), |i: int| admitted(fleet[i], draws[i].demand(threshold, consumption)))
}

/// Power that the fleet draws: the sum of the power of its charging
/// chargepoints.
pub open spec fn fleet_power(fleet: Seq<ChargepointView>) -> nat
    decreases fleet.len(),
{
    if fleet.len() == 0 {
        0
    } else {
        fleet_power(fleet.drop_last()) + if fleet.last().is_charging() {
            fleet.last().power
        } else {
            0
        }
    }
}

/// The largest entry of `history`; zero when it is empty.
pub open spec fn max_of(history: Seq<nat>) -> nat
    decreases history.len(),
{
    if history.len() == 0 {
        0
    } else if max_of(history.drop_last()) >= history.last() {
        max_of(history.drop_last())
    } else {
        history.last()
    }
}

/// What a run is configured with.
pub ghost struct Configuration {
    /// Number of chargepoints.
    pub num_chargepoints: nat,
    /// Power of each chargepoint, in watts.
    pub power: nat,
    /// Consumption of every vehicle, in watt-hours per 100 km.
    pub consumption: nat,
    /// Number of days to run.
    pub days: nat,
    /// Length of an interval, in minutes.
    pub interval_minutes: nat,
    /// Multiplier of the arrival probability, in thousandths.
    pub arrival_multiplier: nat,
}

/// What a run has reached after some intervals.
pub ghost struct FleetState {
    /// The chargepoints, in their order.
    pub fleet: Seq<ChargepointView>,
    /// Energy delivered so far, in joules.
    pub total_energy: nat,
    /// Power that the fleet drew in each interval so far, in watts.
    pub power_history: Seq<nat>,
}

/// What a run reports.
pub ghost struct Summary {
    /// Energy delivered, in joules.
    pub total_energy: nat,
    /// The most power that the fleet drew in an interval, in watts.
    pub max_power: nat,
    /// Power that the fleet draws when every chargepoint charges, in watts.
    pub max_theoretical_power: nat,
    /// `max_power` as a share of `max_theoretical_power`, in millionths,
    /// rounded down.
    pub concurrency_factor: nat,
    /// Power that the fleet drew in each interval, in watts.
    pub power_history: Seq<nat>,
}

impl Configuration {
    /// Number of intervals of a run: as many as it takes to cover the days.
    pub open spec fn total_intervals(self) -> nat {
        if self.interval_minutes == 0 {
            0
        } else {
            ((self.days * 1440 + self.interval_minutes - 1) / (self.interval_minutes as int)) as nat
        }
    }

    /// Hour of the day at which interval `index` ends.
    pub open spec fn hour_of(self, index: nat) -> nat {
        ((index * self.interval_minutes) / 60) % 24
    }

    /// Number of arrival draws on which a vehicle arrives in interval `index`.
    pub open spec fn threshold(self, index: nat) -> nat {
        arrival_threshold(self.hour_of(index), self.interval_minutes, self.arrival_multiplier)
    }

    /// Power that the fleet draws when every chargepoint charges.
    pub open spec fn max_theoretical_power(self) -> nat {
        self.num_chargepoints * self.power
    }

    /// A bound on the energy of a whole run, in joules: every chargepoint
    /// charging for all the days and one hour more.
    pub open spec fn energy_ceiling(self) -> nat {
        self.num_chargepoints * (self.power * (self.days * 86_400 + 3_600))
    }

    /// Whether no result can be computed: the intervals have no length, or
    /// the fleet can draw no power.
    pub open spec fn is_degenerate(self) -> bool {
        self.interval_minutes == 0 || self.num_chargepoints == 0 || self.power == 0
    }

    /// The state before the first interval: every chargepoint free, nothing
    /// delivered, nothing recorded.
    pub open spec fn initial(self) -> FleetState {
        FleetState {
            fleet: Seq::new(
                self.num_chargepoints,
                |i: int| ChargepointView { power: self.power, vehicle: None },
            ),
            total_energy: 0,
            power_history: Seq::empty(),
        }
    }

    /// Whether `tape` holds draws for a whole run: a row for each interval, a
    /// valid draw for each chargepoint in it.
    pub open spec fn admits(self, tape: Seq<Seq<Draw>>) -> bool {
        &&& tape.len() == self.total_intervals()
        &&& forall|i: int| 0 <= i < tape.len() ==> self.admits_row(#[trigger] tape[i])
    }

    /// Whether `draws` holds a valid draw for each chargepoint.
    pub open spec fn admits_row(self, draws: Seq<Draw>) -> bool {
        &&& draws.len() == self.num_chargepoints
        &&& forall|j: int| 0 <= j < draws.len() ==> (#[trigger] draws[j]).is_valid()
    }

    /// The state after interval `index`, which begins in `state` and draws
    /// `draws`: the vehicles charge, those that need nothing more leave, new
    /// ones arrive at the free chargepoints, and the power that the fleet
    /// then draws is recorded.
    pub open spec fn step(self, state: FleetState, index: nat, draws: Seq<Draw>) -> FleetState {
        let fleet = fleet_admitted(
            fleet_charged(state.fleet, self.interval_minutes),
            draws,
            self.threshold(index),
            self.consumption,
        );
        FleetState {
            fleet,
            total_energy: state.total_energy + fleet_energy_taken(state.fleet, self.interval_minutes),
            power_history: state.power_history.push(fleet_power(fleet)),
        }
    }

    /// The state after the first `count` intervals of a run that draws
    /// `tape`. Intervals are counted from one.
    pub open spec fn run_state(self, tape: Seq<Seq<Draw>>, count: nat) -> FleetState
        decreases count,
    {
        if count == 0 {
            self.initial()
        } else {
            self.step(self.run_state(tape, (count - 1) as nat), count, tape[count - 1])
        }
    }

    /// What a run that ended in `state` reports.
    pub open spec fn summary(self, state: FleetState) -> Summary {
        Summary {
            total_energy: state.total_energy,
            max_power: max_of(state.power_history),
            max_theoretical_power: self.max_theoretical_power(),
            concurrency_factor: if self.max_theoretical_power() == 0 {
                0
            } else {
                max_of(state.power_history) * 1_000_000 / self.max_theoretical_power()
            },
            power_history: state.power_history,
        }
    }

    /// Whether `state` is where a whole run comes to on some draws.
    pub open spec fn is_run(self, tape: Seq<Seq<Draw>>, state: FleetState) -> bool {
        self.admits(tape) && state == self.run_state(tape, self.total_intervals())
    }

    /// Whether `state` can be met after `count` intervals: the fleet is that
    /// of the configuration, every vehicle at a chargepoint still needs
    /// energy, an entry was recorded for each interval and none is above the
    /// theoretical maximum, and no more energy was delivered than the fleet
    /// can deliver in that time.
    pub open spec fn reachable(self, state: FleetState, count: nat) -> bool {
        &&& state.fleet.len() == self.num_chargepoints
        &&& forall|i: int|
            0 <= i < state.fleet.len() ==> (#[trigger] state.fleet[i]).power == self.power
        &&& forall|i: int|
            0 <= i < state.fleet.len() ==> ((#[trigger] state.fleet[i]).vehicle matches Some(need)
                ==> need > 0)
        &&& state.power_history.len() == count
        &&& forall|k: int|
            0 <= k < state.power_history.len() ==> (#[trigger] state.power_history[k])
                <= self.max_theoretical_power()
        &&& state.total_energy <= count * (self.num_chargepoints * interval_energy(
            self.power,
            self.interval_minutes,
        ))
    }
}

/// A vehicle leaves in the interval in which its need reaches zero, and only
/// then: it is gone after the interval exactly when the chargepoint delivers
/// within the interval all that it needs, and otherwise it stays and still
/// needs energy. What it took and what it still needs add up to what it
/// needed.
pub proof fn lemma_detached_exactly_when_done(chargepoint: ChargepointView, minutes: nat)
    requires
        chargepoint.vehicle is Some,
    ensures
        charged(chargepoint, minutes).vehicle is None <==> chargepoint.vehicle->Some_0
            <= interval_energy(chargepoint.power, minutes),
        charged(chargepoint, minutes).vehicle is None ==> energy_taken(chargepoint, minutes)
            == chargepoint.vehicle->Some_0,
        charged(chargepoint, minutes).vehicle matches Some(need) ==> need > 0 && need
            + energy_taken(chargepoint, minutes) == chargepoint.vehicle->Some_0,
{
}

/// A fleet whose chargepoints all have `power` watts takes no more energy
/// within an interval than all of them deliver together.
pub proof fn lemma_energy_taken_bound(fleet: Seq<ChargepointView>, minutes: nat, power: nat)
    requires
        forall|i: int| 0 <= i < fleet.len() ==> (#[trigger] fleet[i]).power == power,
    ensures
        fleet_energy_taken(fleet, minutes) <= fleet.len() * interval_energy(power, minutes),
    decreases fleet.len(),
{
    if fleet.len() > 0 {
        lemma_energy_taken_bound(fleet.drop_last(), minutes, power);
        assert(fleet.len() * interval_energy(power, minutes) == (fleet.len() - 1) * interval_energy(
            power,
            minutes,
        ) + interval_energy(power, minutes)) by (nonlinear_arith);
    }
}

/// A fleet whose chargepoints all have `power` watts draws no more than all
/// of them together.
pub proof fn lemma_fleet_power_bound(fleet: Seq<ChargepointView>, power: nat)
    requires
        forall|i: int| 0 <= i < fleet.len() ==> (#[trigger] fleet[i]).power == power,
    ensures
        fleet_power(fleet) <= fleet.len() * power,
    decreases fleet.len(),
{
    if fleet.len() > 0 {
        lemma_fleet_power_bound(fleet.drop_last(), power);
        assert(fleet.len() * power == (fleet.len() - 1) * power + power) by (nonlinear_arith);
    }
}

/// The largest entry is one of the entries, and none is above it.
pub proof fn lemma_max_of(history: Seq<nat>)
    ensures
        forall|k: int| 0 <= k < history.len() ==> #[trigger] history[k] <= max_of(history),
        history.len() > 0 ==> exists|k: int| 0 <= k < history.len() && history[k] == max_of(history),
    decreases history.len(),
{
    if history.len() > 0 {
        let front = history.drop_last();
        lemma_max_of(front);
        assert forall|k: int| 0 <= k < history.len() implies #[trigger] history[k] <= max_of(
            history,
        ) by {
            if k < front.len() {
                assert(front[k] == history[k]);
            }
        }
        if max_of(front) >= history.last() && front.len() > 0 {
            let k = choose|k: int| 0 <= k < front.len() && front[k] == max_of(front);
            assert(history[k] == max_of(history));
        } else {
            assert(history.last() == max_of(history));
        }
    }
}

/// An interval leads from a state that can be met to one that can be met.
pub proof fn lemma_step_reachable(config: Configuration, state: FleetState, count: nat, draws: Seq<Draw>)
    requires
        config.reachable(state, count),
    ensures
        config.reachable(config.step(state, count + 1, draws), count + 1),
{
    let next = config.step(state, count + 1, draws);
    let per_interval = config.num_chargepoints * interval_energy(config.power, config.interval_minutes);
    lemma_energy_taken_bound(state.fleet, config.interval_minutes, config.power);
    lemma_fleet_power_bound(next.fleet, config.power);
    assert(next.total_energy <= (count + 1) * per_interval) by (nonlinear_arith)
        requires
            next.total_energy <= count * per_interval + per_interval,
    ;
}

/// Detaching happens in the interval in which a vehicle's need reaches zero:
/// after any number of intervals, on any draws, no chargepoint holds a
/// vehicle that needs nothing. The fleet keeps its size and its power, an
/// entry is recorded for each interval, none above the theoretical maximum,
/// and no more energy is delivered than the fleet can deliver in that time.
pub proof fn lemma_run_reachable(config: Configuration, tape: Seq<Seq<Draw>>, count: nat)
    ensures
        config.reachable(config.run_state(tape, count), count),
    decreases count,
{
    if count > 0 {
        lemma_run_reachable(config, tape, (count - 1) as nat);
        lemma_step_reachable(
            config,
            config.run_state(tape, (count - 1) as nat),
            (count - 1) as nat,
            tape[count - 1],
        );
    }
}

/// With intervals of at most an hour, what the fleet can deliver within the
/// intervals of a run, within one interval, and what it can draw, are all
/// within the energy ceiling.
pub proof fn lemma_within_ceiling(config: Configuration, count: nat)
    requires
        0 < config.interval_minutes <= 60,
        count <= config.total_intervals(),
    ensures
        count * (config.num_chargepoints * interval_energy(config.power, config.interval_minutes))
            <= config.energy_ceiling(),
        config.num_chargepoints * interval_energy(config.power, config.interval_minutes)
            <= config.energy_ceiling(),
        config.max_theoretical_power() <= config.energy_ceiling(),
{
    let minutes = config.interval_minutes as int;
    let both = config.num_chargepoints * config.power;
    lemma_intervals_span(config, count);
    assert(config.energy_ceiling() == both * (config.days * 1440 + 60) * 60) by (nonlinear_arith)
        requires
            both == config.num_chargepoints * config.power,
            config.energy_ceiling() == config.num_chargepoints * (config.power * (config.days
                * 86_400 + 3_600)),
    ;
    assert(count * (config.num_chargepoints * (config.power * minutes * 60)) == both * (count
        * minutes) * 60) by (nonlinear_arith)
        requires
            both == config.num_chargepoints * config.power,
    ;
    assert(both * (count * minutes) * 60 <= both * (config.days * 1440 + 60) * 60)
        by (nonlinear_arith)
        requires
            count * minutes <= config.days * 1440 + 60,
            both >= 0,
    ;
    assert(config.num_chargepoints * (config.power * minutes * 60) == both * minutes * 60)
        by (nonlinear_arith)
        requires
            both == config.num_chargepoints * config.power,
    ;
    assert(both * minutes * 60 <= both * (config.days * 1440 + 60) * 60) by (nonlinear_arith)
        requires
            minutes <= config.days * 1440 + 60,
            both >= 0,
    ;
    assert(both <= both * (config.days * 1440 + 60) * 60) by (nonlinear_arith)
        requires
            config.days >= 0,
            both >= 0,
    ;
}

/// The intervals of a run, each of its length, end within the days and less
/// than one interval more.
pub proof fn lemma_intervals_span(config: Configuration, count: nat)
    requires
        0 < config.interval_minutes,
        count <= config.total_intervals(),
    ensures
        count * config.interval_minutes <= config.days * 1440 + config.interval_minutes - 1,
        count <= config.days * 1440 + config.interval_minutes - 1,
{
    let minutes = config.interval_minutes as int;
    let span = config.days * 1440 + minutes - 1;
    vstd::arithmetic::div_mod::lemma_fundamental_div_mod(span, minutes);
    vstd::arithmetic::div_mod::lemma_mod_pos_bound(span, minutes);
    assert(count * minutes <= span) by (nonlinear_arith)
        requires
            count <= span / minutes,
            span == minutes * (span / minutes) + span % minutes,
            0 <= span % minutes,
            0 < minutes,
    ;
}

/// The state after `count` intervals depends on the first `count` rows of
/// the tape only.
pub proof fn lemma_run_state_prefix(
    config: Configuration,
    tape: Seq<Seq<Draw>>,
    other: Seq<Seq<Draw>>,
    count: nat,
)
    requires
        count <= tape.len(),
        count <= other.len(),
        forall|i: int| 0 <= i < count ==> tape[i] == other[i],
    ensures
        config.run_state(tape, count) == config.run_state(other, count),
    decreases count,
{
    if count > 0 {
        lemma_run_state_prefix(config, tape, other, (count - 1) as nat);
    }
}

/// The largest power recorded in a state that can be met is within the
/// theoretical maximum, so the concurrency factor is at most one.
pub proof fn lemma_concurrency_at_most_one(config: Configuration, state: FleetState, count: nat)
    requires
        config.reachable(state, count),
    ensures
        config.summary(state).max_power <= config.summary(state).max_theoretical_power,
        config.summary(state).concurrency_factor <= 1_000_000,
{
    let ceiling = config.max_theoretical_power() as int;
    let largest = max_of(state.power_history) as int;
    lemma_max_of(state.power_history);
    if ceiling > 0 {
        vstd::arithmetic::div_mod::lemma_div_is_ordered(
            largest * 1_000_000,
            ceiling * 1_000_000,
            ceiling,
        );
        vstd::arithmetic::div_mod::lemma_div_multiples_vanish(1_000_000, ceiling);
    }
}

/// A run is determined by its configuration and its draws: two runs of one
/// configuration on the same draws end in the same state and report the
/// same.
pub proof fn lemma_run_is_determined(
    config: Configuration,
    tape: Seq<Seq<Draw>>,
    first: FleetState,
    second: FleetState,
)
    requires
        config.is_run(tape, first),
        config.is_run(tape, second),
    ensures
        first == second,
        config.summary(first) == config.summary(second),
{
}

/// A vehicle that asks for no energy is never attached: a draw of distance
/// zero leaves the chargepoint as it was, whether a vehicle arrives on it or
/// not.
pub proof fn lemma_zero_demand_attaches_nothing(
    chargepoint: ChargepointView,
    draw: Draw,
    threshold: nat,
    consumption: nat,
)
    requires
        draw.distance_km == 0,
    ensures
        draw.demand(threshold, consumption) == 0,
        admitted(chargepoint, draw.demand(threshold, consumption)) == chargepoint,
{
}

/// A fleet of free chargepoints takes no energy and draws no power.
pub proof fn lemma_free_fleet_is_idle(fleet: Seq<ChargepointView>, minutes: nat)
    requires
        forall|i: int| 0 <= i < fleet.len() ==> (#[trigger] fleet[i]).vehicle is None,
    ensures
        fleet_energy_taken(fleet, minutes) == 0,
        fleet_power(fleet) == 0,
        fleet_charged(fleet, minutes) == fleet,
    decreases fleet.len(),
{
    if fleet.len() > 0 {
        lemma_free_fleet_is_idle(fleet.drop_last(), minutes);
    }
}

/// With an arrival multiplier of zero no vehicle ever arrives: whatever is
/// drawn, every chargepoint stays free, no energy is delivered and no power
/// is drawn in any interval.
pub proof fn lemma_no_arrivals_without_multiplier(
    config: Configuration,
    tape: Seq<Seq<Draw>>,
    count: nat,
)
    requires
        config.arrival_multiplier == 0,
    ensures
        config.run_state(tape, count) == (FleetState {
            fleet: config.initial().fleet,
            total_energy: 0,
            power_history: Seq::new(count, |k: int| 0nat),
        }),
        max_of(config.run_state(tape, count).power_history) == 0,
    decreases count,
{
    let free = config.initial().fleet;
    let quiet = Seq::new(count, |k: int| 0nat);
    if count > 0 {
        let before = config.run_state(tape, (count - 1) as nat);
        lemma_no_arrivals_without_multiplier(config, tape, (count - 1) as nat);
        lemma_free_fleet_is_idle(free, config.interval_minutes);
        let after = config.step(before, count, tape[count - 1]);
        assert(after.fleet =~= free);
        assert(after.power_history =~= quiet);
        assert(quiet.drop_last() =~= before.power_history);
    } else {
        assert(config.initial().power_history =~= quiet);
    }
}

} // verus!
