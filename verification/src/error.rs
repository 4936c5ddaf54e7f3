//! The ways in which a request to the model can be refused.

use vstd::prelude::*;

verus! {

/// Why an operation of the model was refused.
#[derive(Clone, Copy, Debug, PartialEq, Eq, Structural)]
pub enum SimError {
    /// The interval is longer than an hour or has no length, or the fleet
    /// could draw no power at all.
    InvalidConfiguration,
    /// The hour of the day is not in `0..=23`.
    InvalidHour,
    /// Energy was offered to a vehicle that needs none.
    NotCharging,
}

} // verus!
