//! Fixed-point trigonometry on angles in millidegrees.
//!
//! The sine on `[0°, 180°]` is Bhaskara's rational approximation,
//! `sin x° ~= 4x(180 - x) / (40500 - x(180 - x))`, evaluated exactly in
//! integers; it is 0 at 0°, 1 at 90° and 0 at 180°, and symmetric about 90°.
//! The arcsine is its exact inverse: the smallest angle whose sine reaches
//! the given value; it works at a finer scale of millionths so that close
//! sine values get distinct angles. All angles are in millidegrees; sine
//! values are in thousandths, or in millionths where the name says so.

use vstd::prelude::*;

verus! {

/// Half a turn, in millidegrees.
pub const HALF_TURN_MDEG: u64 = 180_000;

/// A full turn, in millidegrees.
pub const FULL_TURN_MDEG: u64 = 360_000;

/// A quarter turn, in millidegrees.
pub const QUARTER_TURN_MDEG: u64 = 90_000;

/// Bhaskara's sine approximation on `[0, 180_000]` millidegrees, in
/// thousandths: `4000 * u / (40_500_000_000 - u)` where `u = t * (180_000 - t)`.
pub open spec fn sin_half_turn(t: int) -> int {
    let u = t * (180_000 - t);
    (4000 * u) / (40_500_000_000 - u)
}

/// On `[0, 180_000]`, `t * (180_000 - t)` stays within `[0, 8_100_000_000]`.
pub proof fn lemma_arch_bounds(t: int)
    requires
        0 <= t <= 180_000,
    ensures
        0 <= t * (180_000 - t) <= 8_100_000_000,
        t * (180_000 - t) == 8_100_000_000 <==> t == 90_000,
{
    assert(0 <= t * (180_000 - t) <= 8_100_000_000 && (t * (180_000 - t) == 8_100_000_000
        <==> t == 90_000)) by (nonlinear_arith)
        requires
            0 <= t <= 180_000,
    ;
}

/// The Bhaskara sine lies in `[0, 1000]`, and reaches 1000 only at 90°.
pub proof fn lemma_sin_half_turn_bounds(t: int)
    requires
        0 <= t <= 180_000,
    ensures
        0 <= sin_half_turn(t) <= 1000,
        sin_half_turn(t) == 1000 <==> t == 90_000,
{
    lemma_arch_bounds(t);
    let u = t * (180_000 - t);
    let den = 40_500_000_000 - u;
    assert(den >= 32_400_000_000);
    assert(4000 * u >= 0);
    vstd::arithmetic::div_mod::lemma_div_pos_is_pos(4000 * u, den);
    if t == 90_000 {
        assert(u == 8_100_000_000);
        assert(4000 * u == 32_400_000_000_000) by (nonlinear_arith)
            requires
                u == 8_100_000_000,
        ;
        assert(32_400_000_000_000int / 32_400_000_000int == 1000) by (nonlinear_arith);
    } else {
        assert(u < 8_100_000_000);
        // 4000 u < 1000 (40_500_000_000 - u)  <==>  5000 u < 40_500_000_000_000
        assert(4000 * u < 1000 * den) by (nonlinear_arith)
            requires
                u < 8_100_000_000,
                den == 40_500_000_000 - u,
        ;
        vstd::arithmetic::div_mod::lemma_div_is_ordered(4000 * u, 1000 * den, den);
        vstd::arithmetic::div_mod::lemma_div_multiples_vanish(1000, den);
        assert(den * 1000 == 1000 * den) by (nonlinear_arith);
        if sin_half_turn(t) == 1000 {
            // then 4000 u / den == 1000 while 4000 u <= 1000 den - 1
            vstd::arithmetic::div_mod::lemma_fundamental_div_mod(4000 * u, den);
            vstd::arithmetic::div_mod::lemma_mod_bound(4000 * u, den);
            assert(false) by (nonlinear_arith)
                requires
                    4000 * u == den * 1000 + (4000 * u) % den,
                    0 <= (4000 * u) % den,
                    4000 * u < 1000 * den,
            ;
        }
    }
}

/// The Bhaskara sine is symmetric about 90°.
pub proof fn lemma_sin_half_turn_symmetric(t: int)
    requires
        0 <= t <= 180_000,
    ensures
        sin_half_turn(t) == sin_half_turn(180_000 - t),
{
    assert(t * (180_000 - t) == (180_000 - t) * (180_000 - (180_000 - t))) by (nonlinear_arith);
}

/// The Bhaskara sine, evaluated exactly.
pub fn sin_half_turn_milli(t: u64) -> (r: u64)
    requires
        t <= 180_000,
    ensures
        r == sin_half_turn(t as int),
        r <= 1000,
{
    proof {
        lemma_arch_bounds(t as int);
        lemma_sin_half_turn_bounds(t as int);
    }
    let u: u64 = t * (180_000 - t);
    (4000 * u) / (40_500_000_000 - u)
}

/// The Bhaskara sine on `[0, 180_000]` millidegrees at the finer scale of
/// millionths: `4_000_000 * u / (40_500_000_000 - u)`. The arcsine inverts
/// the sine at this scale, so that nearby speed ratios are told apart.
pub open spec fn sin_half_turn_micro(t: int) -> int {
    let u = t * (180_000 - t);
    (4_000_000 * u) / (40_500_000_000 - u)
}

/// The fine-scale sine lies in `[0, 1_000_000]`, reaching the top only at 90°.
pub proof fn lemma_sin_half_turn_micro_bounds(t: int)
    requires
        0 <= t <= 180_000,
    ensures
        0 <= sin_half_turn_micro(t) <= 1_000_000,
        sin_half_turn_micro(t) == 1_000_000 <==> t == 90_000,
{
    lemma_arch_bounds(t);
    let u = t * (180_000 - t);
    let den = 40_500_000_000 - u;
    assert(den >= 32_400_000_000);
    vstd::arithmetic::div_mod::lemma_div_pos_is_pos(4_000_000 * u, den);
    if t == 90_000 {
        assert(4_000_000 * u == 32_400_000_000_000_000) by (nonlinear_arith)
            requires
                u == 8_100_000_000,
        ;
        assert(32_400_000_000_000_000int / 32_400_000_000int == 1_000_000) by (nonlinear_arith);
    } else {
        assert(u < 8_100_000_000);
        assert(4_000_000 * u < 1_000_000 * den) by (nonlinear_arith)
            requires
                u < 8_100_000_000,
                den == 40_500_000_000 - u,
        ;
        vstd::arithmetic::div_mod::lemma_div_is_ordered(4_000_000 * u, 1_000_000 * den, den);
        vstd::arithmetic::div_mod::lemma_div_multiples_vanish(1_000_000, den);
        assert(den * 1_000_000 == 1_000_000 * den) by (nonlinear_arith);
        if sin_half_turn_micro(t) == 1_000_000 {
            vstd::arithmetic::div_mod::lemma_fundamental_div_mod(4_000_000 * u, den);
            vstd::arithmetic::div_mod::lemma_mod_bound(4_000_000 * u, den);
            assert(false) by (nonlinear_arith)
                requires
                    4_000_000 * u == den * 1_000_000 + (4_000_000 * u) % den,
                    0 <= (4_000_000 * u) % den,
                    4_000_000 * u < 1_000_000 * den,
            ;
        }
    }
}

/// The fine-scale Bhaskara sine, evaluated exactly.
pub fn sin_half_turn_micro_eval(t: u64) -> (r: u64)
    requires
        t <= 180_000,
    ensures
        r == sin_half_turn_micro(t as int),
        r <= 1_000_000,
{
    proof {
        lemma_arch_bounds(t as int);
        lemma_sin_half_turn_micro_bounds(t as int);
    }
    let u: u64 = t * (180_000 - t);
    (4_000_000 * u) / (40_500_000_000 - u)
}

/// Sine of a signed angle in millidegrees, in thousandths: the angle is
/// reduced to `[0, 360_000)`; on the second half-turn the sine is negated.
pub open spec fn sin_signed(a: int) -> int {
    let m = a % 360_000;
    if m < 180_000 {
        sin_half_turn(m)
    } else {
        -sin_half_turn(m - 180_000)
    }
}

/// Cosine of a signed angle in millidegrees, in thousandths: the sine a
/// quarter turn later.
pub open spec fn cos_signed(a: int) -> int {
    sin_signed(a + 90_000)
}

/// The signed sine lies in `[-1000, 1000]`.
pub proof fn lemma_sin_signed_bounds(a: int)
    ensures
        -1000 <= sin_signed(a) <= 1000,
{
    let m = a % 360_000;
    vstd::arithmetic::div_mod::lemma_mod_bound(a, 360_000);
    if m < 180_000 {
        lemma_sin_half_turn_bounds(m);
    } else {
        lemma_sin_half_turn_bounds(m - 180_000);
    }
}

/// The first angle in `[t, 90_000]` whose fine-scale Bhaskara sine reaches
/// `r` (in millionths), scanning upward; 90° if none does.
pub open spec fn asin_from(r: int, t: int) -> int
    decreases 90_000 - t,
{
    if t < 0 || t >= 90_000 {
        90_000
    } else if sin_half_turn_micro(t) >= r {
        t
    } else {
        asin_from(r, t + 1)
    }
}

/// Arcsine of a sine value in millionths, in millidegrees: the smallest
/// angle in `[0°, 90°]` whose fine-scale Bhaskara sine reaches the value.
pub open spec fn asin_mdeg(r: int) -> int {
    asin_from(r, 0)
}

/// The scan stays within `[t, 90_000]`.
pub proof fn lemma_asin_from_bounds(r: int, t: int)
    requires
        0 <= t <= 90_000,
    ensures
        t <= asin_from(r, t) <= 90_000,
    decreases 90_000 - t,
{
    if t < 90_000 && sin_half_turn_micro(t) < r {
        lemma_asin_from_bounds(r, t + 1);
    }
}

/// The arcsine lies in `[0, 90_000]` millidegrees.
pub proof fn lemma_asin_bounds(r: int)
    ensures
        0 <= asin_mdeg(r) <= 90_000,
{
    lemma_asin_from_bounds(r, 0);
}

/// No angle short of 90° has a full sine, so the arcsine of one (a
/// million millionths) is exactly 90°.
pub proof fn lemma_asin_of_one(r: int, t: int)
    requires
        r >= 1_000_000,
        0 <= t <= 90_000,
    ensures
        asin_from(r, t) == 90_000,
    decreases 90_000 - t,
{
    if t < 90_000 {
        lemma_sin_half_turn_micro_bounds(t);
        assert(sin_half_turn_micro(t) < 1_000_000);
        lemma_asin_of_one(r, t + 1);
    }
}

/// The scan finds the least qualifying angle: its sine reaches `r`, and
/// the sine of every smaller angle in the scanned range falls short.
pub proof fn lemma_asin_from_is_least(r: int, t: int)
    requires
        r <= 1_000_000,
        0 <= t <= 90_000,
    ensures
        sin_half_turn_micro(asin_from(r, t)) >= r,
        forall|u: int| t <= u < asin_from(r, t) ==> sin_half_turn_micro(u) < r,
    decreases 90_000 - t,
{
    if t >= 90_000 {
        lemma_sin_half_turn_micro_bounds(90_000);
    } else if sin_half_turn_micro(t) >= r {
    } else {
        lemma_asin_from_is_least(r, t + 1);
    }
}

/// The arcsine is the smallest angle in `[0°, 90°]` whose sine reaches the
/// value: at the result the sine is at least `r`, below it always less.
pub proof fn lemma_asin_is_least(r: int)
    requires
        r <= 1_000_000,
    ensures
        sin_half_turn_micro(asin_mdeg(r)) >= r,
        forall|u: int| 0 <= u < asin_mdeg(r) ==> sin_half_turn_micro(u) < r,
{
    lemma_asin_from_is_least(r, 0);
}

/// A larger sine value never has a smaller arcsine.
pub proof fn lemma_asin_from_monotone(r1: int, r2: int, t: int)
    requires
        r1 <= r2,
        0 <= t <= 90_000,
    ensures
        asin_from(r1, t) <= asin_from(r2, t),
    decreases 90_000 - t,
{
    if t < 90_000 && sin_half_turn_micro(t) < r2 {
        lemma_asin_from_bounds(r2, t);
        if sin_half_turn_micro(t) < r1 {
            lemma_asin_from_monotone(r1, r2, t + 1);
        }
    }
}

/// The arcsine is monotone in its argument.
pub proof fn lemma_asin_monotone(r1: int, r2: int)
    requires
        r1 <= r2,
    ensures
        asin_mdeg(r1) <= asin_mdeg(r2),
{
    lemma_asin_from_monotone(r1, r2, 0);
}

/// Arcsine in millidegrees of a sine value in millionths, by upward scan.
pub fn asin_micro(r: u64) -> (t: u64)
    ensures
        t == asin_mdeg(r as int),
        t <= 90_000,
{
    let mut t: u64 = 0;
    let mut s: u64 = sin_half_turn_micro_eval(0);
    while s < r && t < 90_000
        invariant
            t <= 90_000,
            s == sin_half_turn_micro(t as int),
            asin_mdeg(r as int) == asin_from(r as int, t as int),
        decreases 90_000 - t,
    {
        t = t + 1;
        s = sin_half_turn_micro_eval(t);
    }
    proof {
        if t < 90_000 {
            assert(s >= r);
            assert(asin_from(r as int, t as int) == t);
        }
    }
    t
}

/// The Bhaskara sine is monotone on the first quarter turn.
pub proof fn lemma_sin_half_turn_monotone(t1: int, t2: int)
    requires
        0 <= t1 <= t2 <= 90_000,
    ensures
        sin_half_turn(t1) <= sin_half_turn(t2),
{
    let u1 = t1 * (180_000 - t1);
    let u2 = t2 * (180_000 - t2);
    assert(0 <= u1 && u1 <= u2 && u2 <= 8_100_000_000) by (nonlinear_arith)
        requires
            0 <= t1 <= t2 <= 90_000,
            u1 == t1 * (180_000 - t1),
            u2 == t2 * (180_000 - t2),
    ;
    vstd::arithmetic::div_mod::lemma_div_is_ordered(
        4000 * u1,
        4000 * u2,
        40_500_000_000 - u1,
    );
    vstd::arithmetic::div_mod::lemma_div_is_ordered_by_denominator(
        4000 * u2,
        40_500_000_000 - u2,
        40_500_000_000 - u1,
    );
}

/// On an interval of the first quarter turn, the sum of squared sine and
/// squared complementary sine is squeezed between the sums built from the
/// interval's two ends.
proof fn lemma_quarter_squares_interval(a: int, lo: int, hi: int)
    requires
        0 <= lo <= a,
        a <= hi <= 90_000,
    ensures
        sin_half_turn(lo) * sin_half_turn(lo) + sin_half_turn(90_000 - hi) * sin_half_turn(
            90_000 - hi,
        ) <= sin_half_turn(a) * sin_half_turn(a) + sin_half_turn(90_000 - a) * sin_half_turn(
            90_000 - a,
        ),
        sin_half_turn(a) * sin_half_turn(a) + sin_half_turn(90_000 - a) * sin_half_turn(90_000 - a)
            <= sin_half_turn(hi) * sin_half_turn(hi) + sin_half_turn(90_000 - lo) * sin_half_turn(
            90_000 - lo,
        ),
{
    lemma_sin_half_turn_monotone(lo, a);
    lemma_sin_half_turn_monotone(a, hi);
    lemma_sin_half_turn_monotone(90_000 - hi, 90_000 - a);
    lemma_sin_half_turn_monotone(90_000 - a, 90_000 - lo);
    lemma_sin_half_turn_bounds(lo);
    lemma_sin_half_turn_bounds(90_000 - hi);
    assert(forall|x: int, y: int| 0 <= x <= y ==> #[trigger] (x * x) <= #[trigger] (y * y))
        by (nonlinear_arith);
}

/// The Bhaskara sine at every multiple of 3.75 degrees on the first
/// quarter turn, evaluated once for the interval bounds below.
proof fn lemma_sin_table()
    ensures
        sin_half_turn(0) == 0,
        sin_half_turn(3750) == 66,
        sin_half_turn(7500) == 131,
        sin_half_turn(11250) == 196,
        sin_half_turn(15000) == 260,
        sin_half_turn(18750) == 322,
        sin_half_turn(22500) == 383,
        sin_half_turn(26250) == 442,
        sin_half_turn(30000) == 500,
        sin_half_turn(33750) == 555,
        sin_half_turn(37500) == 608,
        sin_half_turn(41250) == 658,
        sin_half_turn(45000) == 705,
        sin_half_turn(48750) == 750,
        sin_half_turn(52500) == 792,
        sin_half_turn(56250) == 830,
        sin_half_turn(60000) == 864,
        sin_half_turn(63750) == 895,
        sin_half_turn(67500) == 923,
        sin_half_turn(71250) == 946,
        sin_half_turn(75000) == 965,
        sin_half_turn(78750) == 980,
        sin_half_turn(82500) == 991,
        sin_half_turn(86250) == 997,
        sin_half_turn(90000) == 1000,
{
    assert(0int * (180_000 - 0) == 0);
    assert(0int / 40500000000int == 0);
    assert(sin_half_turn(0) == 0);
    assert(3750int * (180_000 - 3750) == 660937500);
    assert(2643750000000int / 39839062500int == 66);
    assert(sin_half_turn(3750) == 66);
    assert(7500int * (180_000 - 7500) == 1293750000);
    assert(5175000000000int / 39206250000int == 131);
    assert(sin_half_turn(7500) == 131);
    assert(11250int * (180_000 - 11250) == 1898437500);
    assert(7593750000000int / 38601562500int == 196);
    assert(sin_half_turn(11250) == 196);
    assert(15000int * (180_000 - 15000) == 2475000000);
    assert(9900000000000int / 38025000000int == 260);
    assert(sin_half_turn(15000) == 260);
    assert(18750int * (180_000 - 18750) == 3023437500);
    assert(12093750000000int / 37476562500int == 322);
    assert(sin_half_turn(18750) == 322);
    assert(22500int * (180_000 - 22500) == 3543750000);
    assert(14175000000000int / 36956250000int == 383);
    assert(sin_half_turn(22500) == 383);
    assert(26250int * (180_000 - 26250) == 4035937500);
    assert(16143750000000int / 36464062500int == 442);
    assert(sin_half_turn(26250) == 442);
    assert(30000int * (180_000 - 30000) == 4500000000);
    assert(18000000000000int / 36000000000int == 500);
    assert(sin_half_turn(30000) == 500);
    assert(33750int * (180_000 - 33750) == 4935937500);
    assert(19743750000000int / 35564062500int == 555);
    assert(sin_half_turn(33750) == 555);
    assert(37500int * (180_000 - 37500) == 5343750000);
    assert(21375000000000int / 35156250000int == 608);
    assert(sin_half_turn(37500) == 608);
    assert(41250int * (180_000 - 41250) == 5723437500);
    assert(22893750000000int / 34776562500int == 658);
    assert(sin_half_turn(41250) == 658);
    assert(45000int * (180_000 - 45000) == 6075000000);
    assert(24300000000000int / 34425000000int == 705);
    assert(sin_half_turn(45000) == 705);
    assert(48750int * (180_000 - 48750) == 6398437500);
    assert(25593750000000int / 34101562500int == 750);
    assert(sin_half_turn(48750) == 750);
    assert(52500int * (180_000 - 52500) == 6693750000);
    assert(26775000000000int / 33806250000int == 792);
    assert(sin_half_turn(52500) == 792);
    assert(56250int * (180_000 - 56250) == 6960937500);
    assert(27843750000000int / 33539062500int == 830);
    assert(sin_half_turn(56250) == 830);
    assert(60000int * (180_000 - 60000) == 7200000000);
    assert(28800000000000int / 33300000000int == 864);
    assert(sin_half_turn(60000) == 864);
    assert(63750int * (180_000 - 63750) == 7410937500);
    assert(29643750000000int / 33089062500int == 895);
    assert(sin_half_turn(63750) == 895);
    assert(67500int * (180_000 - 67500) == 7593750000);
    assert(30375000000000int / 32906250000int == 923);
    assert(sin_half_turn(67500) == 923);
    assert(71250int * (180_000 - 71250) == 7748437500);
    assert(30993750000000int / 32751562500int == 946);
    assert(sin_half_turn(71250) == 946);
    assert(75000int * (180_000 - 75000) == 7875000000);
    assert(31500000000000int / 32625000000int == 965);
    assert(sin_half_turn(75000) == 965);
    assert(78750int * (180_000 - 78750) == 7973437500);
    assert(31893750000000int / 32526562500int == 980);
    assert(sin_half_turn(78750) == 980);
    assert(82500int * (180_000 - 82500) == 8043750000);
    assert(32175000000000int / 32456250000int == 991);
    assert(sin_half_turn(82500) == 991);
    assert(86250int * (180_000 - 86250) == 8085937500);
    assert(32343750000000int / 32414062500int == 997);
    assert(sin_half_turn(86250) == 997);
    assert(90000int * (180_000 - 90000) == 8100000000);
    assert(32400000000000int / 32400000000int == 1000);
    assert(sin_half_turn(90000) == 1000);
}
/// Over the whole first quarter turn the squared sine plus squared
/// complementary sine stays within seven percent of one (one million, in
/// thousandths squared): Bhaskara's approximation bends the unit circle
/// only slightly.
pub proof fn lemma_quarter_squares(a: int)
    requires
        0 <= a <= 90_000,
    ensures
        920_000 <= sin_half_turn(a) * sin_half_turn(a) + sin_half_turn(90_000 - a)
            * sin_half_turn(90_000 - a) <= 1_070_000,
{
    lemma_sin_table();
    if a <= 3750 {
        lemma_quarter_squares_interval(a, 0, 3750);
    } else if a <= 7500 {
        lemma_quarter_squares_interval(a, 3750, 7500);
    } else if a <= 11250 {
        lemma_quarter_squares_interval(a, 7500, 11250);
    } else if a <= 15000 {
        lemma_quarter_squares_interval(a, 11250, 15000);
    } else if a <= 18750 {
        lemma_quarter_squares_interval(a, 15000, 18750);
    } else if a <= 22500 {
        lemma_quarter_squares_interval(a, 18750, 22500);
    } else if a <= 26250 {
        lemma_quarter_squares_interval(a, 22500, 26250);
    } else if a <= 30000 {
        lemma_quarter_squares_interval(a, 26250, 30000);
    } else if a <= 33750 {
        lemma_quarter_squares_interval(a, 30000, 33750);
    } else if a <= 37500 {
        lemma_quarter_squares_interval(a, 33750, 37500);
    } else if a <= 41250 {
        lemma_quarter_squares_interval(a, 37500, 41250);
    } else if a <= 45000 {
        lemma_quarter_squares_interval(a, 41250, 45000);
    } else if a <= 48750 {
        lemma_quarter_squares_interval(a, 45000, 48750);
    } else if a <= 52500 {
        lemma_quarter_squares_interval(a, 48750, 52500);
    } else if a <= 56250 {
        lemma_quarter_squares_interval(a, 52500, 56250);
    } else if a <= 60000 {
        lemma_quarter_squares_interval(a, 56250, 60000);
    } else if a <= 63750 {
        lemma_quarter_squares_interval(a, 60000, 63750);
    } else if a <= 67500 {
        lemma_quarter_squares_interval(a, 63750, 67500);
    } else if a <= 71250 {
        lemma_quarter_squares_interval(a, 67500, 71250);
    } else if a <= 75000 {
        lemma_quarter_squares_interval(a, 71250, 75000);
    } else if a <= 78750 {
        lemma_quarter_squares_interval(a, 75000, 78750);
    } else if a <= 82500 {
        lemma_quarter_squares_interval(a, 78750, 82500);
    } else if a <= 86250 {
        lemma_quarter_squares_interval(a, 82500, 86250);
    } else {
        lemma_quarter_squares_interval(a, 86250, 90000);
    }
}

/// For any heading, squared sine plus squared cosine stays within seven
/// percent of one: every quadrant reduces to the first quarter turn.
pub proof fn lemma_circle_squares(h: int)
    ensures
        920_000 <= sin_signed(h) * sin_signed(h) + cos_signed(h) * cos_signed(h) <= 1_070_000,
{
    let m = h % 360_000;
    vstd::arithmetic::div_mod::lemma_mod_bound(h, 360_000);
    vstd::arithmetic::div_mod::lemma_add_mod_noop(h, 90_000, 360_000);
    vstd::arithmetic::div_mod::lemma_small_mod(90_000nat, 360_000nat);
    let m2 = (h + 90_000) % 360_000;
    assert(m2 == (m + 90_000) % 360_000);
    assert(forall|x: int, y: int| #[trigger] ((-x) * (-y)) == x * y) by (nonlinear_arith);
    if m < 90_000 {
        vstd::arithmetic::div_mod::lemma_small_mod((m + 90_000) as nat, 360_000nat);
        assert(m2 == m + 90_000);
        lemma_sin_half_turn_symmetric(m + 90_000);
        assert(sin_signed(h) == sin_half_turn(m));
        assert(cos_signed(h) == sin_half_turn(90_000 - m));
        lemma_quarter_squares(m);
    } else if m < 180_000 {
        vstd::arithmetic::div_mod::lemma_small_mod((m + 90_000) as nat, 360_000nat);
        assert(m2 == m + 90_000);
        lemma_sin_half_turn_symmetric(m);
        assert(sin_signed(h) == sin_half_turn(180_000 - m));
        assert(cos_signed(h) == -sin_half_turn(m - 90_000));
        assert(cos_signed(h) * cos_signed(h) == sin_half_turn(m - 90_000) * sin_half_turn(
            m - 90_000,
        ));
        lemma_quarter_squares(180_000 - m);
        assert(90_000 - (180_000 - m) == m - 90_000);
    } else if m < 270_000 {
        vstd::arithmetic::div_mod::lemma_small_mod((m + 90_000) as nat, 360_000nat);
        assert(m2 == m + 90_000);
        assert(sin_signed(h) == -sin_half_turn(m - 180_000));
        assert(sin_signed(h) * sin_signed(h) == sin_half_turn(m - 180_000) * sin_half_turn(
            m - 180_000,
        ));
        lemma_sin_half_turn_symmetric(m - 90_000);
        assert(cos_signed(h) == -sin_half_turn(270_000 - m));
        assert(cos_signed(h) * cos_signed(h) == sin_half_turn(270_000 - m) * sin_half_turn(
            270_000 - m,
        ));
        lemma_quarter_squares(m - 180_000);
        assert(90_000 - (m - 180_000) == 270_000 - m);
    } else {
        vstd::arithmetic::div_mod::lemma_mod_multiples_vanish(1, m - 270_000, 360_000);
        vstd::arithmetic::div_mod::lemma_small_mod((m - 270_000) as nat, 360_000nat);
        assert(m2 == m - 270_000);
        lemma_sin_half_turn_symmetric(m - 180_000);
        assert(sin_signed(h) == -sin_half_turn(360_000 - m));
        assert(sin_signed(h) * sin_signed(h) == sin_half_turn(360_000 - m) * sin_half_turn(
            360_000 - m,
        ));
        assert(cos_signed(h) == sin_half_turn(m - 270_000));
        lemma_quarter_squares(360_000 - m);
        assert(90_000 - (360_000 - m) == m - 270_000);
    }
}

} // verus!
