//! Simulation configuration and its validation.
//!
//! Scalars are fixed-point: the tick rate in millihertz, the starting speed
//! in thousandths of a speed unit. A configuration is valid when the tick
//! rate lies in (0, 200] Hz, the strafe count in [1, 10], and the starting
//! speed is at least 30 units (below that the per-tick turn, an arcsine of
//! `30 / speed`, is undefined) and at most the representation cap.

use vstd::prelude::*;

verus! {

/// Duration of one full jump arc, in microseconds.
pub const JUMP_DURATION_US: u64 = 750_000;

/// The fixed lateral impulse per tick, in thousandths of a speed unit.
pub const LATERAL_IMPULSE_MILLI: u64 = 30_000;

/// Largest accepted tick rate, in millihertz (200 Hz).
pub const MAX_TICK_RATE_MILLI: u64 = 200_000;

/// Largest accepted strafe count.
pub const MAX_STRAFE_COUNT: u64 = 10;

/// Smallest accepted starting speed, in thousandths (30 units).
pub const MIN_SPEED_MILLI: u64 = 30_000;

/// Largest starting speed the fixed-point arithmetic accommodates,
/// in thousandths (400 000 units).
pub const MAX_SPEED_MILLI: u64 = 400_000_000;

/// The three scalars that define one simulation run.
#[derive(Clone, Copy, Debug, PartialEq, Eq, Structural)]
pub struct Config {
    /// Ticks per second, in millihertz.
    pub tick_rate_milli: u64,
    /// Speed at the start of the jump, in thousandths of a unit.
    pub starting_speed_milli: u64,
    /// Number of direction alternations per jump.
    pub strafe_count: u64,
}

/// A configuration the simulation rejects before doing any work.
#[derive(Clone, Copy, Debug, PartialEq, Eq, Structural)]
pub enum SimError {
    InvalidConfiguration,
}

/// The inputs on which the simulation itself is undefined: a zero tick
/// rate (no tick interval), a zero strafe count (no half-period), or a
/// starting speed below 30 units (the arcsine argument would pass one).
/// These are the causes the error taxonomy names.
pub open spec fn domain_violation(c: Config) -> bool {
    ||| c.tick_rate_milli == 0
    ||| c.strafe_count == 0
    ||| c.starting_speed_milli < MIN_SPEED_MILLI
}

/// The enforced control ranges: tick rate at most 200 Hz and strafe count
/// at most 10, as the input controls bound them, plus the representation
/// cap on the starting speed. Inside these ranges a jump holds at most
/// 151 ticks and every intermediate value fits its fixed-point type.
pub open spec fn within_control_ranges(c: Config) -> bool {
    &&& c.tick_rate_milli <= MAX_TICK_RATE_MILLI
    &&& c.strafe_count <= MAX_STRAFE_COUNT
    &&& c.starting_speed_milli <= MAX_SPEED_MILLI
}

/// The inputs on which the simulation is defined: no domain violation,
/// and within the enforced control ranges.
pub open spec fn valid_config(c: Config) -> bool {
    !domain_violation(c) && within_control_ranges(c)
}

/// Time between ticks, in microseconds.
pub open spec fn tick_interval_us(c: Config) -> int {
    1_000_000_000int / (c.tick_rate_milli as int)
}

/// Time between direction switches, in microseconds.
pub open spec fn half_period_us(c: Config) -> int {
    (JUMP_DURATION_US as int) / (c.strafe_count as int)
}

/// Ticks of the oscillation phase: every tick whose time lies in
/// `[0, half_period_us]`, the boundary included.
pub open spec fn oscillation_ticks(c: Config) -> int {
    half_period_us(c) / tick_interval_us(c) + 1
}

/// Ticks of the full jump arc: every tick whose time lies in
/// `[0, JUMP_DURATION_US]`, the boundary included.
pub open spec fn jump_ticks(c: Config) -> int {
    (JUMP_DURATION_US as int) / tick_interval_us(c) + 1
}

/// Bounds on the derived quantities of a valid configuration: the tick
/// interval is at least 5 ms, so a jump holds at most 151 ticks.
pub proof fn lemma_config_bounds(c: Config)
    requires
        valid_config(c),
    ensures
        5_000 <= tick_interval_us(c) <= 1_000_000_000,
        75_000 <= half_period_us(c) <= 750_000,
        1 <= oscillation_ticks(c) <= 151,
        1 <= jump_ticks(c) <= 151,
        oscillation_ticks(c) <= jump_ticks(c),
{
    vstd::arithmetic::div_mod::lemma_div_is_ordered_by_denominator(
        1_000_000_000,
        1,
        c.tick_rate_milli as int,
    );
    vstd::arithmetic::div_mod::lemma_div_is_ordered_by_denominator(
        1_000_000_000,
        c.tick_rate_milli as int,
        200_000,
    );
    vstd::arithmetic::div_mod::lemma_div_is_ordered_by_denominator(
        750_000,
        1,
        c.strafe_count as int,
    );
    vstd::arithmetic::div_mod::lemma_div_is_ordered_by_denominator(
        750_000,
        c.strafe_count as int,
        10,
    );
    let iv = tick_interval_us(c);
    vstd::arithmetic::div_mod::lemma_div_pos_is_pos(half_period_us(c), iv);
    vstd::arithmetic::div_mod::lemma_div_pos_is_pos(750_000, iv);
    vstd::arithmetic::div_mod::lemma_div_is_ordered(half_period_us(c), 750_000, iv);
    vstd::arithmetic::div_mod::lemma_div_is_ordered_by_denominator(750_000, 5_000, iv);
}

impl Config {
    /// Accepts the configuration exactly when the simulation is defined on
    /// it. A rejection has one of two distinct grounds, stated separately:
    /// a domain violation (the taxonomy's invalid-configuration causes), or
    /// an input outside the enforced control ranges.
    pub fn validate(&self) -> (r: Result<(), SimError>)
        ensures
            r is Ok <==> valid_config(*self),
            r is Ok <==> !domain_violation(*self) && within_control_ranges(*self),
            domain_violation(*self) ==> r is Err,
            !within_control_ranges(*self) ==> r is Err,
            r is Err ==> r == Err::<(), SimError>(SimError::InvalidConfiguration),
    {
        if 1 <= self.tick_rate_milli && self.tick_rate_milli <= MAX_TICK_RATE_MILLI && 1
            <= self.strafe_count && self.strafe_count <= MAX_STRAFE_COUNT && MIN_SPEED_MILLI
            <= self.starting_speed_milli && self.starting_speed_milli <= MAX_SPEED_MILLI {
            Ok(())
        } else {
            Err(SimError::InvalidConfiguration)
        }
    }

    /// Time between ticks, in microseconds.
    pub fn tick_interval(&self) -> (iv: u64)
        requires
            valid_config(*self),
        ensures
            iv == tick_interval_us(*self),
            5_000 <= iv <= 1_000_000_000,
    {
        proof {
            lemma_config_bounds(*self);
        }
        1_000_000_000 / self.tick_rate_milli
    }

    /// Time between direction switches, in microseconds.
    pub fn half_period(&self) -> (hp: u64)
        requires
            valid_config(*self),
        ensures
            hp == half_period_us(*self),
            75_000 <= hp <= 750_000,
    {
        proof {
            lemma_config_bounds(*self);
        }
        JUMP_DURATION_US / self.strafe_count
    }
}

impl Default for Config {
    /// 60 Hz, 300 speed units, one strafe per jump.
    fn default() -> (c: Self)
        ensures
            c.tick_rate_milli == 60_000,
            c.starting_speed_milli == 300_000,
            c.strafe_count == 1,
            valid_config(c),
    {
        Config { tick_rate_milli: 60_000, starting_speed_milli: 300_000, strafe_count: 1 }
    }
}

} // verus!
