//! A vehicle and the energy it still needs.

use vstd::prelude::*;
use crate::error::SimError;

verus! {

/// Energy that a vehicle takes when `offered` joules are offered to it while
/// it still needs `remaining` joules.
pub open spec fn delivered(remaining: nat, offered: nat) -> nat {
    if offered <= remaining {
        offered
    } else {
        remaining
    }
}

/// Energy still needed after each offer of `offers` was made in turn,
/// starting from a need of `remaining` joules.
pub open spec fn remaining_after(remaining: nat, offers: Seq<nat>) -> nat
    decreases offers.len(),
{
    if offers.len() == 0 {
        remaining
    } else {
        remaining_after((remaining - delivered(remaining, offers[0])) as nat, offers.skip(1))
    }
}

/// Energy taken in total over the offers of `offers`, made in turn, starting
/// from a need of `remaining` joules.
pub open spec fn delivered_total(remaining: nat, offers: Seq<nat>) -> nat
    decreases offers.len(),
{
    if offers.len() == 0 {
        0
    } else {
        delivered(remaining, offers[0]) + delivered_total(
            (remaining - delivered(remaining, offers[0])) as nat,
            offers.skip(1),
        )
    }
}

/// Sum of the offers of `offers`.
pub open spec fn offered_total(offers: Seq<nat>) -> nat
    decreases offers.len(),
{
    if offers.len() == 0 {
        0
    } else {
        offers[0] + offered_total(offers.skip(1))
    }
}

/// Whatever the offers are, what a vehicle has taken and what it still needs
/// add up to its demand. So it never takes more than its demand, it needs
/// nothing more exactly when it has taken all of it, and it has taken all of
/// it as soon as the offers add up to the demand.
pub proof fn lemma_no_over_delivery(demand: nat, offers: Seq<nat>)
    ensures
        delivered_total(demand, offers) + remaining_after(demand, offers) == demand,
        delivered_total(demand, offers) <= demand,
        delivered_total(demand, offers) >= demand <==> remaining_after(demand, offers) == 0,
        offered_total(offers) >= demand ==> remaining_after(demand, offers) == 0,
        offered_total(offers) < demand ==> delivered_total(demand, offers) == offered_total(offers),
    decreases offers.len(),
{
    if offers.len() > 0 {
        lemma_no_over_delivery((demand - delivered(demand, offers[0])) as nat, offers.skip(1));
    }
}

/// A vehicle at a chargepoint.
#[derive(Debug)]
pub struct Vehicle {
    left_to_charge: u64,
}

impl View for Vehicle {
    type V = nat;

    /// The energy still needed, in joules.
    closed spec fn view(&self) -> nat {
        self.left_to_charge as nat
    }
}

impl Vehicle {
    /// A vehicle that needs `charging_demand` joules.
    pub fn new(charging_demand: u64) -> (vehicle: Vehicle)
        requires
            charging_demand > 0,
        ensures
            vehicle@ == charging_demand,
    {
        Vehicle { left_to_charge: charging_demand }
    }

    /// Offers `energy` joules. The vehicle takes what it needs of them and
    /// the call returns how much that was. A vehicle that needs nothing is
    /// left as it is and the offer is refused.
    pub fn charge(&mut self, energy: u64) -> (result: Result<u64, SimError>)
        ensures
            old(self)@ == 0 ==> result == Err::<u64, SimError>(SimError::NotCharging) && final(self)@
                == old(self)@,
            old(self)@ > 0 ==> result == Ok::<u64, SimError>(
                delivered(old(self)@, energy as nat) as u64,
            ) && final(self)@ == old(self)@ - delivered(old(self)@, energy as nat),
    {
        if !self.is_charging() {
            return Err(SimError::NotCharging);
        }
        let energy_delivered: u64 = if energy <= self.left_to_charge {
            energy
        } else {
            self.left_to_charge
        };
        self.left_to_charge = self.left_to_charge - energy_delivered;
        Ok(energy_delivered)
    }

    /// Whether the vehicle still needs energy.
    pub fn is_charging(&self) -> (charging: bool)
        ensures
            charging == (self@ > 0),
    {
        self.left_to_charge > 0
    }

    /// The energy still needed, in joules.
    pub fn left_to_charge(&self) -> (energy: u64)
        ensures
            energy == self@,
    {
        self.left_to_charge
    }
}

} // verus!
