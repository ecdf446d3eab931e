//! The strafe-jump simulation: speed growth, per-tick turn, the angle
//! accumulated over one oscillation half-cycle, and the full jump arc.
//!
//! The acceleration law adds a fixed lateral impulse of 30 units per tick,
//! so the squared speed grows by exactly `30_000^2` thousandths-squared each
//! tick; the speed itself is its integer square root. The per-tick turn is
//! the arcsine of `30 / speed`, in millidegrees.
//!
//! On a validated configuration the speed starts at or above 30 units and
//! only grows, so the arcsine argument provably never leaves its domain
//! mid-simulation; no runtime check for that case is needed.

use vstd::prelude::*;
use crate::config::{Config, valid_config, oscillation_ticks, lemma_config_bounds};
use crate::sqrt::{sqrt_of, is_sqrt, isqrt, lemma_sqrt_exists, lemma_sqrt_unique,
    lemma_sqrt_monotone};
use crate::trig::{asin_mdeg, lemma_asin_bounds, asin_micro};

verus! {

/// Squared-speed growth per tick, in thousandths squared: `30_000 * 30_000`.
pub const IMPULSE_SQ_MILLI: u64 = 900_000_000;

/// Largest angle the oscillation phase can accumulate: 151 ticks of at
/// most 90° each, in millidegrees.
pub const MAX_STRAFE_LENGTH_MDEG: u64 = 13_590_000;

/// Squared speed after `k` ticks, in thousandths squared: each tick adds
/// the squared lateral impulse.
pub open spec fn speed_sq_at(c: Config, k: int) -> int {
    (c.starting_speed_milli as int) * (c.starting_speed_milli as int) + 900_000_000 * k
}

/// Speed after `k` ticks, in thousandths of a unit.
pub open spec fn speed_milli_at(c: Config, k: int) -> int {
    sqrt_of(speed_sq_at(c, k))
}

/// The per-tick turn for a squared speed: the arcsine, in millidegrees, of
/// the ratio (in millionths) of the lateral impulse to the speed.
pub open spec fn turn_mdeg_of_sq(s: int) -> int {
    asin_mdeg(30_000_000_000int / sqrt_of(s))
}

/// The turn taken during tick `k`, in millidegrees.
pub open spec fn turn_mdeg_at(c: Config, k: int) -> int {
    turn_mdeg_of_sq(speed_sq_at(c, k))
}

/// Bounds on the speed model for any tick of a valid configuration.
pub proof fn lemma_speed_bounds(c: Config, k: int)
    requires
        valid_config(c),
        0 <= k <= 1_000_000,
    ensures
        900_000_000 <= speed_sq_at(c, k) <= 161_000_000_000_000_000,
        30_000 <= speed_milli_at(c, k) <= 402_000_000,
        0 <= 30_000_000_000int / speed_milli_at(c, k) <= 1_000_000,
        0 <= turn_mdeg_at(c, k) <= 90_000,
{
    let start = c.starting_speed_milli as int;
    assert(900_000_000 <= start * start <= 160_000_000_000_000_000) by (nonlinear_arith)
        requires
            30_000 <= start <= 400_000_000,
    ;
    let s = speed_sq_at(c, k);
    lemma_sqrt_exists(s);
    assert(is_sqrt(900_000_000, 30_000)) by (nonlinear_arith);
    assert(is_sqrt(900_000_000, sqrt_of(900_000_000))) by {
        lemma_sqrt_exists(900_000_000);
    }
    lemma_sqrt_unique(900_000_000, 30_000, sqrt_of(900_000_000));
    lemma_sqrt_monotone(900_000_000, s);
    let r = speed_milli_at(c, k);
    if r > 402_000_000 {
        assert(r * r > 161_000_000_000_000_000) by (nonlinear_arith)
            requires
                r > 402_000_000,
        ;
    }
    vstd::arithmetic::div_mod::lemma_div_pos_is_pos(30_000_000_000, r);
    vstd::arithmetic::div_mod::lemma_div_is_ordered_by_denominator(30_000_000_000, 30_000, r);
    lemma_asin_bounds(30_000_000_000int / r);
}

/// The per-tick turn from the current squared speed.
pub fn turn_for_speed_sq(speed_sq: u64) -> (t: u64)
    requires
        900_000_000 <= speed_sq < 4_000_000_000_000_000_000,
    ensures
        t == turn_mdeg_of_sq(speed_sq as int),
        t <= 90_000,
{
    let sp: u64 = isqrt(speed_sq);
    proof {
        assert(is_sqrt(900_000_000, 30_000)) by (nonlinear_arith);
        lemma_sqrt_exists(900_000_000);
        lemma_sqrt_unique(900_000_000, 30_000, sqrt_of(900_000_000));
        lemma_sqrt_monotone(900_000_000, speed_sq as int);
    }
    let ratio: u64 = 30_000_000_000 / sp;
    asin_micro(ratio)
}

/// The angle accumulated after `k` ticks of the oscillation phase, in
/// millidegrees: the sum of the first `k` per-tick turns.
pub open spec fn strafe_length_rec(c: Config, k: int) -> int
    decreases k,
{
    if k <= 0 {
        0
    } else {
        strafe_length_rec(c, k - 1) + turn_mdeg_at(c, k - 1)
    }
}

/// The full angular width of one oscillation cycle, in millidegrees: the
/// turn accumulated over every tick of one strafe half-period.
pub open spec fn strafe_length_mdeg(c: Config) -> int {
    strafe_length_rec(c, oscillation_ticks(c))
}

/// The accumulated angle is a sum of non-negative turns, so it never
/// falls below the accumulation of any earlier tick.
pub proof fn lemma_strafe_length_rec_bounds(c: Config, k: int)
    requires
        valid_config(c),
        0 <= k <= 151,
    ensures
        0 <= strafe_length_rec(c, k) <= 90_000 * k,
    decreases k,
{
    if k > 0 {
        lemma_strafe_length_rec_bounds(c, k - 1);
        lemma_speed_bounds(c, k - 1);
    }
}

/// Accumulating further ticks never shrinks the angle: every turn is
/// non-negative.
pub proof fn lemma_strafe_length_rec_monotone(c: Config, k1: int, k2: int)
    requires
        valid_config(c),
        0 <= k1 <= k2 <= 151,
    ensures
        strafe_length_rec(c, k1) <= strafe_length_rec(c, k2),
    decreases k2,
{
    if k1 < k2 {
        lemma_strafe_length_rec_monotone(c, k1, k2 - 1);
        lemma_speed_bounds(c, k2 - 1);
    }
}

/// Integrates the per-tick turn over one strafe half-period: the angular
/// width of one full oscillation, in millidegrees.
pub fn accumulate(c: &Config) -> (sl: u64)
    requires
        valid_config(*c),
    ensures
        sl == strafe_length_mdeg(*c),
        sl <= MAX_STRAFE_LENGTH_MDEG,
{
    proof {
        lemma_config_bounds(*c);
    }
    let iv: u64 = c.tick_interval();
    let hp: u64 = c.half_period();
    let n: u64 = hp / iv + 1;
    proof {
        assert((c.starting_speed_milli as int) * (c.starting_speed_milli as int)
            <= 160_000_000_000_000_000) by (nonlinear_arith)
            requires
                c.starting_speed_milli <= 400_000_000,
        ;
    }
    let mut speed_sq: u64 = c.starting_speed_milli * c.starting_speed_milli;
    let mut sl: u64 = 0;
    let mut k: u64 = 0;
    while k < n
        invariant
            valid_config(*c),
            n == oscillation_ticks(*c),
            n <= 151,
            k <= n,
            speed_sq == speed_sq_at(*c, k as int),
            sl == strafe_length_rec(*c, k as int),
            sl <= 90_000 * k,
        decreases n - k,
    {
        proof {
            lemma_speed_bounds(*c, k as int);
        }
        let turn: u64 = turn_for_speed_sq(speed_sq);
        sl = sl + turn;
        speed_sq = speed_sq + IMPULSE_SQ_MILLI;
        k = k + 1;
    }
    sl
}

} // verus!
