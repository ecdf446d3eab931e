//! Global properties of the simulation, stated and proved over the same
//! model that the executable functions are pinned to.

use vstd::prelude::*;
use crate::config::{
    Config, valid_config, jump_ticks, oscillation_ticks, tick_interval_us, half_period_us,
    lemma_config_bounds, JUMP_DURATION_US,
};
use crate::sqrt::{
    sqrt_of, is_sqrt, lemma_sqrt_exists, lemma_sqrt_unique, lemma_sqrt_strict_step,
    lemma_sqrt_monotone,
};
use crate::trig::{
    lemma_asin_of_one, lemma_asin_monotone, lemma_sin_signed_bounds, lemma_circle_squares,
    sin_signed, cos_signed,
};
use crate::sim::{
    speed_sq_at, speed_milli_at, turn_mdeg_of_sq, turn_mdeg_at, strafe_length_mdeg,
    strafe_length_rec, lemma_speed_bounds, lemma_strafe_length_rec_bounds,
    lemma_strafe_length_rec_monotone, MAX_STRAFE_LENGTH_MDEG,
};
use crate::trajectory::{
    TrajectoryPoint, Point, color_at_time, clamp_255, trajectory_point_at, reference_point_at,
    arc_state_at, sample_heading, switch_due, radial_offset_sq_micro,
    lemma_arc_state_bounds,
};

verus! {

/// Monotonic speed: under the acceleration law the squared speed grows by
/// a fixed positive impulse each tick, and the speed itself strictly
/// increases every tick, in both simulation phases (both consume the same
/// speed recurrence).
pub proof fn lemma_speed_strictly_increases(c: Config, k: int)
    requires
        valid_config(c),
        0 <= k < 1_000_000,
    ensures
        speed_sq_at(c, k + 1) == speed_sq_at(c, k) + 900_000_000,
        speed_milli_at(c, k + 1) > speed_milli_at(c, k),
{
    lemma_speed_bounds(c, k);
    lemma_speed_bounds(c, k + 1);
    lemma_sqrt_strict_step(speed_sq_at(c, k), 900_000_000);
}

/// The angle accumulated in the oscillation phase is a sum of arcsines,
/// each non-negative — and within the valid speed range the first ratio
/// is at least one millionth, so its arcsine, and with it the whole
/// strafe length, is strictly positive.
pub proof fn lemma_strafe_length_positive(c: Config)
    requires
        valid_config(c),
    ensures
        strafe_length_mdeg(c) > 0,
{
    lemma_config_bounds(c);
    lemma_speed_bounds(c, 0);
    lemma_strafe_length_rec_bounds(c, 0);
    lemma_strafe_length_rec_monotone(c, 1, oscillation_ticks(c));
    let sp = speed_milli_at(c, 0);
    vstd::arithmetic::div_mod::lemma_div_is_ordered_by_denominator(
        30_000_000_000,
        sp,
        402_000_000,
    );
    assert(30_000_000_000int / 402_000_000int == 74);
    let ratio = 30_000_000_000int / sp;
    assert(ratio >= 74);
    assert(crate::trig::sin_half_turn_micro(0) == 0);
    assert(crate::trig::asin_from(ratio, 0) == crate::trig::asin_from(ratio, 1));
    crate::trig::lemma_asin_from_bounds(ratio, 1);
    assert(turn_mdeg_at(c, 0) >= 1);
    assert(strafe_length_rec(c, 1) >= 1);
}

/// Determinism: any two outputs that meet `generate`'s postcondition for
/// the same configuration and strafe length are equal element for
/// element, so two calls with identical inputs produce identical
/// sequences.
pub proof fn lemma_generate_deterministic(
    c: Config,
    strafe_length: int,
    t1: Seq<TrajectoryPoint>,
    r1: Seq<Point>,
    t2: Seq<TrajectoryPoint>,
    r2: Seq<Point>,
)
    requires
        t1.len() == jump_ticks(c),
        t2.len() == jump_ticks(c),
        r1.len() == jump_ticks(c),
        r2.len() == jump_ticks(c),
        forall|i: int| 0 <= i < jump_ticks(c) ==> t1[i] == trajectory_point_at(c, strafe_length, i),
        forall|i: int| 0 <= i < jump_ticks(c) ==> t2[i] == trajectory_point_at(c, strafe_length, i),
        forall|i: int| 0 <= i < jump_ticks(c) ==> r1[i] == reference_point_at(c, i),
        forall|i: int| 0 <= i < jump_ticks(c) ==> r2[i] == reference_point_at(c, i),
    ensures
        t1 == t2,
        r1 == r2,
{
    assert(t1 =~= t2);
    assert(r1 =~= r2);
}

/// Color bounds: each raw channel value is clamped into [0, 255], so the
/// narrowing to a byte in the emitted color loses nothing.
pub proof fn lemma_color_components_bounded(t: int)
    ensures
        0 <= clamp_255((255 * (375_000 - t % 750_000)) / 375_000) <= 255,
        0 <= clamp_255((255 * (t % 750_000)) / 375_000) <= 255,
        0 <= clamp_255((255 * (t % 750_000 - 375_000)) / 375_000) <= 255,
        color_at_time(t).red == clamp_255((255 * (375_000 - t % 750_000)) / 375_000),
        color_at_time(t).green == clamp_255((255 * (t % 750_000)) / 375_000),
        color_at_time(t).blue == clamp_255((255 * (t % 750_000 - 375_000)) / 375_000),
{
}

/// Length invariant: the jump arc emits one entry per tick whose time
/// lies within the jump duration, so tick `k` belongs to the arc exactly
/// when `k` is below the tick count `jump duration / tick interval + 1`
/// that `generate` promises for both output sequences.
pub proof fn lemma_tick_within_duration(c: Config, k: int)
    requires
        valid_config(c),
        0 <= k,
    ensures
        k * tick_interval_us(c) <= JUMP_DURATION_US <==> k < jump_ticks(c),
{
    lemma_config_bounds(c);
    let iv = tick_interval_us(c);
    let q = (JUMP_DURATION_US as int) / iv;
    vstd::arithmetic::div_mod::lemma_fundamental_div_mod(JUMP_DURATION_US as int, iv);
    vstd::arithmetic::div_mod::lemma_mod_bound(JUMP_DURATION_US as int, iv);
    if k <= q {
        vstd::arithmetic::mul::lemma_mul_inequality(k, q, iv);
    }
    if k * iv <= JUMP_DURATION_US {
        vstd::arithmetic::div_mod::lemma_div_is_ordered(k * iv, JUMP_DURATION_US as int, iv);
        vstd::arithmetic::div_mod::lemma_div_multiples_vanish(k, iv);
        assert(iv * k == k * iv) by (nonlinear_arith);
    }
}

/// Symmetric first swing: fed the strafe length of the oscillation phase,
/// the arc starts half that angle below center and, through the whole
/// first half-period (no switch falls due before it ends), climbs
/// monotonically without ever passing the mirror image of its start. The
/// heading after tick `k` sits exactly `2 * (turn / 2)` per elapsed tick
/// above the start, so it is bounded by the accumulated angle of those
/// same ticks — at most the full strafe length.
pub proof fn lemma_first_swing_symmetric(c: Config, k: int)
    requires
        valid_config(c),
        0 <= k <= oscillation_ticks(c),
    ensures
        !arc_state_at(c, strafe_length_mdeg(c), k).direction,
        arc_state_at(c, strafe_length_mdeg(c), k).switch_timer_us == k * tick_interval_us(c),
        -(strafe_length_mdeg(c) / 2) <= arc_state_at(c, strafe_length_mdeg(c), k).heading_mdeg,
        arc_state_at(c, strafe_length_mdeg(c), k).heading_mdeg <= -(strafe_length_mdeg(c) / 2)
            + strafe_length_rec(c, k),
        arc_state_at(c, strafe_length_mdeg(c), k).heading_mdeg <= strafe_length_mdeg(c)
            - strafe_length_mdeg(c) / 2,
    decreases k,
{
    lemma_config_bounds(c);
    let sl = strafe_length_mdeg(c);
    lemma_strafe_length_rec_bounds(c, oscillation_ticks(c));
    lemma_strafe_length_rec_monotone(c, k, oscillation_ticks(c));
    if k > 0 {
        lemma_first_swing_symmetric(c, k - 1);
        let s = arc_state_at(c, sl, k - 1);
        let iv = tick_interval_us(c);
        let hp = half_period_us(c);
        assert(k - 1 <= hp / iv);
        vstd::arithmetic::mul::lemma_mul_inequality(k - 1, hp / iv, iv);
        vstd::arithmetic::div_mod::lemma_fundamental_div_mod(hp, iv);
        vstd::arithmetic::div_mod::lemma_mod_bound(hp, iv);
        assert((hp / iv) * iv == iv * (hp / iv)) by (nonlinear_arith);
        assert(s.switch_timer_us <= hp);
        assert(!switch_due(c, s));
        lemma_speed_bounds(c, k - 1);
        lemma_strafe_length_rec_bounds(c, k - 1);
        let turn = turn_mdeg_at(c, k - 1);
        vstd::arithmetic::div_mod::lemma_fundamental_div_mod(turn, 2);
        vstd::arithmetic::div_mod::lemma_mod_bound(turn, 2);
        vstd::arithmetic::div_mod::lemma_div_pos_is_pos(turn, 2);
        assert(0 <= 2 * (turn / 2) <= turn);
        assert(k * iv == (k - 1) * iv + iv) by (nonlinear_arith);
    }
}

/// As speed rises the per-tick turn never grows: the impulse-to-speed
/// ratio shrinks and the arcsine is monotone. Consecutive turns can
/// coincide where the ratio quantizes to the same millionth; they never
/// invert.
pub proof fn lemma_turn_never_increases(c: Config, k: int)
    requires
        valid_config(c),
        0 <= k < 1_000_000,
    ensures
        turn_mdeg_at(c, k + 1) <= turn_mdeg_at(c, k),
{
    lemma_speed_bounds(c, k);
    lemma_speed_bounds(c, k + 1);
    lemma_sqrt_monotone(speed_sq_at(c, k), speed_sq_at(c, k + 1));
    vstd::arithmetic::div_mod::lemma_div_is_ordered_by_denominator(
        30_000_000_000,
        speed_milli_at(c, k),
        speed_milli_at(c, k + 1),
    );
    lemma_asin_monotone(
        30_000_000_000int / speed_milli_at(c, k + 1),
        30_000_000_000int / speed_milli_at(c, k),
    );
}

/// Unit-circle structure: every trajectory point sits on the circle of
/// radius one around its reference position, up to the accuracy of the
/// fixed-point sine — its squared distance, in millionths squared, is
/// within seven percent of one.
pub proof fn lemma_points_near_unit_circle(c: Config, strafe_length: int, k: int)
    requires
        valid_config(c),
        0 <= strafe_length <= MAX_STRAFE_LENGTH_MDEG,
        0 <= k <= 151,
    ensures
        920_000_000_000 <= radial_offset_sq_micro(c, strafe_length, k) <= 1_070_000_000_000,
{
    let st = arc_state_at(c, strafe_length, k);
    let h = sample_heading(c, st, turn_mdeg_at(c, k));
    lemma_sin_signed_bounds(h);
    lemma_sin_signed_bounds(h + 90_000);
    lemma_config_bounds(c);
    assert(0 <= k * tick_interval_us(c) <= 151_000_000_000) by (nonlinear_arith)
        requires
            0 <= k <= 151,
            0 <= tick_interval_us(c) <= 1_000_000_000,
    ;
    let s = sin_signed(h);
    let co = cos_signed(h);
    assert(radial_offset_sq_micro(c, strafe_length, k) == (1000 * s) * (1000 * s) + (1000 * co)
        * (1000 * co));
    lemma_circle_squares(h);
    assert((1000 * s) * (1000 * s) + (1000 * co) * (1000 * co) == 1_000_000 * (s * s + co * co))
        by (nonlinear_arith);
    assert(920_000_000_000 <= 1_000_000 * (s * s + co * co) <= 1_070_000_000_000)
        by (nonlinear_arith)
        requires
            920_000 <= s * s + co * co <= 1_070_000,
    ;
}

/// At the minimum valid speed of 30 units the impulse-to-speed ratio is
/// exactly one, and the per-tick turn reaches the maximum of a quarter
/// turn: asin(1) = 90 degrees.
pub proof fn lemma_max_turn_at_min_speed()
    ensures
        turn_mdeg_of_sq(900_000_000) == 90_000,
{
    assert(is_sqrt(900_000_000, 30_000)) by (nonlinear_arith);
    lemma_sqrt_exists(900_000_000);
    lemma_sqrt_unique(900_000_000, 30_000, sqrt_of(900_000_000));
    assert(30_000int * 1_000_000 == 30_000_000_000);
    vstd::arithmetic::div_mod::lemma_div_multiples_vanish(1_000_000, 30_000);
    assert(30_000_000_000int / 30_000 == 1_000_000);
    lemma_asin_of_one(1_000_000, 0);
}

} // verus!
