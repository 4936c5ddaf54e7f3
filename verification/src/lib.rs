//! Discrete-time model of a fleet of electric-vehicle chargepoints.
//!
//! All quantities are integers in fixed units, so that every step of a run
//! is exact: power in watts, energy in joules, vehicle consumption in
//! watt-hours per 100 km, probabilities in ten-thousandths and the arrival
//! multiplier in thousandths.

pub mod error;
pub mod vehicle;
pub mod random;
pub mod distributions;
pub mod chargepoint;
pub mod fleet;
pub mod simulator;
