//! Strafe-jump trajectory calculator.
//!
//! Models the strafe-jump movement technique: a player accelerates during a
//! fixed-duration airborne arc by alternating turn direction at a fixed
//! cadence, gaining speed each simulated tick through a fixed lateral
//! impulse. The library computes the angular width of one oscillation cycle
//! and the full arc as a sequence of colored points, all in exact fixed-point
//! integer arithmetic: time in microseconds, speed in thousandths of a unit,
//! angles in thousandths of a degree, positions in millionths of a unit.

pub mod sqrt;
pub mod trig;
pub mod config;
pub mod sim;
pub mod trajectory;
pub mod laws;
