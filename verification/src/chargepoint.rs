//! A chargepoint: a power rating and room for one vehicle.

use crate::vehicle::Vehicle;
use vstd::prelude::*;

verus! {

/// What a chargepoint is to the model: its power in watts, and the energy in
/// joules that the vehicle at it still needs, if there is one.
pub ghost struct ChargepointView {
    pub power: nat,
    pub vehicle: Option<nat>,
}

impl ChargepointView {
    /// Whether a vehicle stands at the chargepoint and still needs energy.
    pub open spec fn is_charging(self) -> bool {
        self.vehicle matches Some(need) && need > 0
    }
}

/// The chargepoints of `chargepoints`, each as the model sees it.
pub open spec fn fleet_view(chargepoints: Seq<Chargepoint>) -> Seq<ChargepointView> {
    Seq::new(chargepoints.len(), |i: int| chargepoints[i]@)
}

/// A chargepoint. It only holds its vehicle: whoever runs the fleet attaches
/// and detaches it.
#[derive(Debug)]
pub struct Chargepoint {
    /// The power that the chargepoint delivers, in watts.
    pub power_w: u32,
    /// The vehicle that stands at the chargepoint.
    pub vehicle: Option<Vehicle>,
}

impl View for Chargepoint {
    type V = ChargepointView;

    open spec fn view(&self) -> ChargepointView {
        ChargepointView {
            power: self.power_w as nat,
            vehicle: match self.vehicle {
                Some(vehicle) => Some(vehicle@),
                None => None,
            },
        }
    }
}

impl Chargepoint {
    /// A free chargepoint that delivers `power_w` watts.
    pub fn new(power_w: u32) -> (chargepoint: Chargepoint)
        ensures
            chargepoint@ == (ChargepointView { power: power_w as nat, vehicle: None }),
    {
        Chargepoint { power_w, vehicle: None }
    }

    /// Whether a vehicle stands at the chargepoint and still needs energy.
    pub fn is_charging(&self) -> (charging: bool)
        ensures
            charging == self@.is_charging(),
            charging == (self@.vehicle matches Some(need) && need > 0),
    {
        match &self.vehicle {
            Some(vehicle) => vehicle.is_charging(),
            None => false,
        }
    }
}

} // verus!
