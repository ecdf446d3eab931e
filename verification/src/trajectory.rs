//! The full jump arc: a tick-by-tick state machine that alternates turn
//! direction every strafe half-period and emits one colored point plus one
//! reference position per tick.
//!
//! Each tick splits its turn into two half-steps around the point sample;
//! on the tick of a direction switch the half-turn is doubled. Positions
//! are in millionths of a unit, colors are a red-to-green-to-blue gradient
//! over the jump duration.

use vstd::prelude::*;
use crate::config::{
    Config, valid_config, tick_interval_us, half_period_us, jump_ticks, lemma_config_bounds,
    JUMP_DURATION_US,
};
use crate::trig::{
    sin_signed, cos_signed, sin_half_turn_milli, lemma_sin_signed_bounds,
    lemma_sin_half_turn_bounds,
};
use crate::sim::{
    speed_sq_at, turn_mdeg_at, turn_for_speed_sq, lemma_speed_bounds, accumulate,
    strafe_length_mdeg, IMPULSE_SQ_MILLI, MAX_STRAFE_LENGTH_MDEG,
};
use crate::config::SimError;

verus! {

/// Exec headings carry this offset (a whole number of turns, in
/// millidegrees) so that unsigned arithmetic can hold a signed angle.
pub const ANGLE_OFFSET_MDEG: u64 = 360_000_000;

/// A position in the plot plane, in millionths of a unit.
#[derive(Clone, Copy, Debug, PartialEq, Eq, Structural)]
pub struct Point {
    pub x_micro: i64,
    pub y_micro: i64,
}

/// An RGB color; each component lies in [0, 255].
#[derive(Clone, Copy, Debug, PartialEq, Eq, Structural)]
pub struct Color {
    pub red: u8,
    pub green: u8,
    pub blue: u8,
}

/// One emitted trajectory sample: a position and its color.
#[derive(Clone, Copy, Debug, PartialEq, Eq, Structural)]
pub struct TrajectoryPoint {
    pub position: Point,
    pub color: Color,
}

/// The per-tick state of the arc simulation: the net deflection from
/// center in millidegrees, the time since the last direction switch in
/// microseconds, and the current turn sense (`true` turns the heading
/// down, `false` up).
pub struct ArcState {
    pub heading_mdeg: int,
    pub switch_timer_us: int,
    pub direction: bool,
}

/// The arc starts at the leftmost extreme of the oscillation: half the
/// strafe length below center, timer cleared, turning upward.
pub open spec fn arc_init(strafe_length: int) -> ArcState {
    ArcState { heading_mdeg: -(strafe_length / 2), switch_timer_us: 0, direction: false }
}

/// A direction switch falls due when the timer has passed one half-period.
pub open spec fn switch_due(c: Config, s: ArcState) -> bool {
    s.switch_timer_us > half_period_us(c)
}

/// The turn sense used during this tick.
pub open spec fn tick_direction(c: Config, s: ArcState) -> bool {
    if switch_due(c, s) {
        !s.direction
    } else {
        s.direction
    }
}

/// The half-turn applied twice around this tick's sample: half the
/// per-tick turn, doubled on the tick of a direction switch.
pub open spec fn tick_half_turn(c: Config, s: ArcState, turn: int) -> int {
    if switch_due(c, s) {
        (turn / 2) * 2
    } else {
        turn / 2
    }
}

/// The heading at which this tick's point is sampled: the stored heading
/// after the first half-step.
pub open spec fn sample_heading(c: Config, s: ArcState, turn: int) -> int {
    if tick_direction(c, s) {
        s.heading_mdeg - tick_half_turn(c, s, turn)
    } else {
        s.heading_mdeg + tick_half_turn(c, s, turn)
    }
}

/// The state after one full tick: both half-steps applied, the timer
/// advanced by one tick interval (from zero if a switch fell due).
pub open spec fn arc_step(c: Config, s: ArcState, turn: int) -> ArcState {
    let mid = sample_heading(c, s, turn);
    let h = tick_half_turn(c, s, turn);
    ArcState {
        heading_mdeg: if tick_direction(c, s) {
            mid - h
        } else {
            mid + h
        },
        switch_timer_us: (if switch_due(c, s) {
            0int
        } else {
            s.switch_timer_us
        }) + tick_interval_us(c),
        direction: tick_direction(c, s),
    }
}

/// The arc state at the start of tick `k`.
pub open spec fn arc_state_at(c: Config, strafe_length: int, k: int) -> ArcState
    decreases k,
{
    if k <= 0 {
        arc_init(strafe_length)
    } else {
        arc_step(c, arc_state_at(c, strafe_length, k - 1), turn_mdeg_at(c, k - 1))
    }
}

/// The vertical growth factor at tick `k`: elapsed seconds plus one, in
/// millionths.
pub open spec fn amp_micro_at(c: Config, k: int) -> int {
    k * tick_interval_us(c) + 1_000_000
}

/// Clamp a value to [0, 255].
pub open spec fn clamp_255(v: int) -> int {
    if v < 0 {
        0
    } else if v > 255 {
        255
    } else {
        v
    }
}

/// The color at elapsed time `t` microseconds: a gradient that cycles once
/// per jump duration, red fading out over the first half while green rises,
/// blue rising over the second half.
pub open spec fn color_at_time(t: int) -> Color {
    let phase = t % 750_000;
    Color {
        red: clamp_255((255 * (375_000 - phase)) / 375_000) as u8,
        green: clamp_255((255 * phase) / 375_000) as u8,
        blue: clamp_255((255 * (phase - 375_000)) / 375_000) as u8,
    }
}

/// The colored point emitted at tick `k`: the sample heading's direction
/// vector, lifted by the growth factor.
pub open spec fn trajectory_point_at(c: Config, strafe_length: int, k: int) -> TrajectoryPoint {
    let h = sample_heading(c, arc_state_at(c, strafe_length, k), turn_mdeg_at(c, k));
    TrajectoryPoint {
        position: Point {
            x_micro: (1000 * sin_signed(h)) as i64,
            y_micro: (1000 * cos_signed(h) + amp_micro_at(c, k)) as i64,
        },
        color: color_at_time(k * tick_interval_us(c)),
    }
}

/// The reference position emitted at tick `k`: the player altitude marker,
/// centered with the growth factor as height.
pub open spec fn reference_point_at(c: Config, k: int) -> Point {
    Point { x_micro: 0, y_micro: amp_micro_at(c, k) as i64 }
}

/// The squared distance, in millionths squared, between tick `k`'s
/// trajectory point and its reference position: how far the emitted
/// direction vector is from unit length.
pub open spec fn radial_offset_sq_micro(c: Config, strafe_length: int, k: int) -> int {
    let p = trajectory_point_at(c, strafe_length, k);
    let dx = p.position.x_micro as int;
    let dy = p.position.y_micro as int - amp_micro_at(c, k);
    dx * dx + dy * dy
}

/// A coarse envelope on the state: each tick turns the heading by at most
/// half a turn (two half-steps of at most a quarter turn each), and the
/// switch timer stays within one half-period plus one tick interval.
pub proof fn lemma_arc_state_bounds(c: Config, strafe_length: int, k: int)
    requires
        valid_config(c),
        0 <= strafe_length <= MAX_STRAFE_LENGTH_MDEG,
        0 <= k <= 151,
    ensures
        -(strafe_length / 2) - 180_000 * k <= arc_state_at(c, strafe_length, k).heading_mdeg
            <= -(strafe_length / 2) + 180_000 * k,
        0 <= arc_state_at(c, strafe_length, k).switch_timer_us <= 1_750_000_000,
    decreases k,
{
    lemma_config_bounds(c);
    if k > 0 {
        lemma_arc_state_bounds(c, strafe_length, k - 1);
        lemma_speed_bounds(c, k - 1);
    }
}

/// Sine of an offset-encoded heading, in millionths: `h` carries
/// `ANGLE_OFFSET_MDEG`, a whole number of turns, which the reduction to
/// one turn cancels.
fn sin_micro_at(h: u64) -> (x: i64)
    requires
        300_000_000 <= h <= 430_000_000,
    ensures
        x == 1000 * sin_signed(h as int - 360_000_000),
        -1_000_000 <= x <= 1_000_000,
{
    proof {
        vstd::arithmetic::div_mod::lemma_mod_multiples_vanish(
            1000,
            h as int - 360_000_000,
            360_000,
        );
        assert((h as int) % 360_000 == (h as int - 360_000_000) % 360_000);
        vstd::arithmetic::div_mod::lemma_mod_bound(h as int, 360_000);
    }
    let m: u64 = h % 360_000;
    if m < 180_000 {
        let s: u64 = sin_half_turn_milli(m);
        proof {
            lemma_sin_half_turn_bounds(m as int);
        }
        (s as i64) * 1000
    } else {
        let s: u64 = sin_half_turn_milli(m - 180_000);
        proof {
            lemma_sin_half_turn_bounds(m as int - 180_000);
        }
        -((s as i64) * 1000)
    }
}

/// Cosine of an offset-encoded heading, in millionths: the sine one
/// quarter turn later.
fn cos_micro_at(h: u64) -> (y: i64)
    requires
        300_000_000 <= h <= 429_000_000,
    ensures
        y == 1000 * cos_signed(h as int - 360_000_000),
        -1_000_000 <= y <= 1_000_000,
{
    sin_micro_at(h + 90_000)
}

/// The gradient color for elapsed time `t` microseconds.
pub fn color_for_time(t: u64) -> (col: Color)
    ensures
        col == color_at_time(t as int),
{
    let phase: u64 = t % 750_000;
    proof {
        lemma_color_channel_math(phase as int);
    }
    let red: u64 = if phase >= 375_000 {
        0
    } else {
        (255 * (375_000 - phase)) / 375_000
    };
    let green: u64 = if phase >= 375_000 {
        255
    } else {
        (255 * phase) / 375_000
    };
    let blue: u64 = if phase < 375_000 {
        0
    } else {
        (255 * (phase - 375_000)) / 375_000
    };
    Color { red: red as u8, green: green as u8, blue: blue as u8 }
}

/// Arithmetic behind the three color channels: which side of the clamp
/// each raw value falls on, for each half of the cycle.
proof fn lemma_color_channel_math(phase: int)
    requires
        0 <= phase < 750_000,
    ensures
        phase < 375_000 ==> 0 <= (255 * (375_000 - phase)) / 375_000 <= 255,
        phase >= 375_000 ==> (255 * (375_000 - phase)) / 375_000 <= 0,
        phase < 375_000 ==> 0 <= (255 * phase) / 375_000 < 255,
        phase >= 375_000 ==> (255 * phase) / 375_000 >= 255,
        phase < 375_000 ==> (255 * (phase - 375_000)) / 375_000 < 0,
        phase >= 375_000 ==> 0 <= (255 * (phase - 375_000)) / 375_000 <= 255,
{
    vstd::arithmetic::div_mod::lemma_div_multiples_vanish(255, 375_000);
    assert(375_000 * 255 == 255 * 375_000);
    if phase < 375_000 {
        vstd::arithmetic::div_mod::lemma_div_pos_is_pos(255 * (375_000 - phase), 375_000);
        vstd::arithmetic::div_mod::lemma_div_is_ordered(
            255 * (375_000 - phase),
            255int * 375_000,
            375_000,
        );
        vstd::arithmetic::div_mod::lemma_div_pos_is_pos(255 * phase, 375_000);
        vstd::arithmetic::div_mod::lemma_div_is_ordered(255 * phase, 255int * 375_000, 375_000);
        if (255 * phase) / 375_000 == 255 {
            vstd::arithmetic::div_mod::lemma_fundamental_div_mod(255 * phase, 375_000);
            vstd::arithmetic::div_mod::lemma_mod_bound(255 * phase, 375_000);
            assert(false) by (nonlinear_arith)
                requires
                    255 * phase == 375_000 * ((255 * phase) / 375_000) + (255 * phase) % 375_000,
                    (255 * phase) / 375_000 == 255,
                    0 <= (255 * phase) % 375_000,
                    phase < 375_000,
            ;
        }
        vstd::arithmetic::div_mod::lemma_div_is_ordered(
            255 * (phase - 375_000),
            -1,
            375_000,
        );
        assert((-1int) / 375_000 == -1) by {
            vstd::arithmetic::div_mod::lemma_fundamental_div_mod(-1, 375_000);
            vstd::arithmetic::div_mod::lemma_mod_bound(-1, 375_000);
            let q = (-1int) / 375_000;
            assert(-1 == 375_000 * q + (-1int) % 375_000);
            assert(0 <= (-1int) % 375_000 < 375_000);
            assert(q == -1) by (nonlinear_arith)
                requires
                    -1 == 375_000 * q + (-1int) % 375_000,
                    0 <= (-1int) % 375_000 < 375_000,
            ;
        }
    } else {
        vstd::arithmetic::div_mod::lemma_div_is_ordered(
            255 * (375_000 - phase),
            0,
            375_000,
        );
        assert(0int / 375_000 == 0) by {
            vstd::arithmetic::div_mod::lemma_div_multiples_vanish(0, 375_000);
        }
        vstd::arithmetic::div_mod::lemma_div_is_ordered(255int * 375_000, 255 * phase, 375_000);
        vstd::arithmetic::div_mod::lemma_div_pos_is_pos(255 * (phase - 375_000), 375_000);
        vstd::arithmetic::div_mod::lemma_div_is_ordered(
            255 * (phase - 375_000),
            255int * 375_000,
            375_000,
        );
    }
}

/// Re-simulates the full jump arc tick by tick and emits the trajectory
/// and the parallel reference positions: one entry per tick whose time
/// lies in `[0, JUMP_DURATION_US]`, each pinned to the tick-recurrence
/// model. `strafe_length` is the oscillation width that `accumulate`
/// produced, in millidegrees.
pub fn generate(c: &Config, strafe_length: u64) -> (r: (Vec<TrajectoryPoint>, Vec<Point>))
    requires
        valid_config(*c),
        strafe_length <= MAX_STRAFE_LENGTH_MDEG,
    ensures
        r.0@.len() == jump_ticks(*c),
        r.1@.len() == jump_ticks(*c),
        forall|i: int|
            0 <= i < jump_ticks(*c) ==> r.0@[i] == trajectory_point_at(
                *c,
                strafe_length as int,
                i,
            ),
        forall|i: int| 0 <= i < jump_ticks(*c) ==> r.1@[i] == reference_point_at(*c, i),
{
    proof {
        lemma_config_bounds(*c);
        assert((c.starting_speed_milli as int) * (c.starting_speed_milli as int)
            <= 160_000_000_000_000_000) by (nonlinear_arith)
            requires
                c.starting_speed_milli <= 400_000_000,
        ;
    }
    let ghost sl: int = strafe_length as int;
    let iv: u64 = c.tick_interval();
    let hp: u64 = c.half_period();
    let n: u64 = JUMP_DURATION_US / iv + 1;
    let mut trajectory: Vec<TrajectoryPoint> = Vec::new();
    let mut reference: Vec<Point> = Vec::new();
    let mut heading: u64 = ANGLE_OFFSET_MDEG - strafe_length / 2;
    let mut timer: u64 = 0;
    let mut down: bool = false;
    let mut speed_sq: u64 = c.starting_speed_milli * c.starting_speed_milli;
    let mut time: u64 = 0;
    let mut k: u64 = 0;
    while k < n
        invariant
            valid_config(*c),
            sl == strafe_length as int,
            strafe_length <= MAX_STRAFE_LENGTH_MDEG,
            iv == tick_interval_us(*c),
            hp == half_period_us(*c),
            n == jump_ticks(*c),
            n <= 151,
            k <= n,
            speed_sq == speed_sq_at(*c, k as int),
            time == k as int * iv as int,
            time <= 151_000_000_000,
            heading as int == ANGLE_OFFSET_MDEG + arc_state_at(*c, sl, k as int).heading_mdeg,
            timer as int == arc_state_at(*c, sl, k as int).switch_timer_us,
            down == arc_state_at(*c, sl, k as int).direction,
            trajectory@.len() == k,
            reference@.len() == k,
            forall|i: int| 0 <= i < k ==> trajectory@[i] == trajectory_point_at(*c, sl, i),
            forall|i: int| 0 <= i < k ==> reference@[i] == reference_point_at(*c, i),
        decreases n - k,
    {
        let ghost s = arc_state_at(*c, sl, k as int);
        let ghost turn_spec = turn_mdeg_at(*c, k as int);
        proof {
            lemma_arc_state_bounds(*c, sl, k as int);
            lemma_speed_bounds(*c, k as int);
            assert(180_000 * (k as int) <= 180_000 * 151) by (nonlinear_arith)
                requires
                    0 <= k as int <= 151,
            ;
        }
        let turn: u64 = turn_for_speed_sq(speed_sq);
        let mut half: u64 = turn / 2;
        if timer > hp {
            down = !down;
            timer = 0;
            half = half * 2;
        }
        proof {
            assert(down == tick_direction(*c, s));
            assert(half as int == tick_half_turn(*c, s, turn_spec));
        }
        if down {
            heading = heading - half;
        } else {
            heading = heading + half;
        }
        proof {
            assert(heading as int == ANGLE_OFFSET_MDEG + sample_heading(*c, s, turn_spec));
        }
        let x: i64 = sin_micro_at(heading);
        let ycos: i64 = cos_micro_at(heading);
        let amp: u64 = time + 1_000_000;
        let y: i64 = ycos + (amp as i64);
        let col: Color = color_for_time(time);
        proof {
            let h = sample_heading(*c, s, turn_spec);
            lemma_sin_signed_bounds(h);
            lemma_sin_signed_bounds(h + 90_000);
            assert(amp as int == amp_micro_at(*c, k as int));
        }
        trajectory.push(TrajectoryPoint { position: Point { x_micro: x, y_micro: y }, color: col });
        reference.push(Point { x_micro: 0, y_micro: amp as i64 });
        if down {
            heading = heading - half;
        } else {
            heading = heading + half;
        }
        speed_sq = speed_sq + IMPULSE_SQ_MILLI;
        time = time + iv;
        timer = timer + iv;
        k = k + 1;
        proof {
            assert(arc_state_at(*c, sl, k as int) == arc_step(*c, s, turn_spec));
            assert(trajectory@[k as int - 1] == trajectory_point_at(*c, sl, k as int - 1));
            assert(reference@[k as int - 1] == reference_point_at(*c, k as int - 1));
            assert(k as int * iv as int == (k as int - 1) * iv as int + iv as int)
                by (nonlinear_arith);
            assert(k as int * iv as int <= 151_000_000_000) by (nonlinear_arith)
                requires
                    0 <= k as int <= 151,
                    0 <= iv as int <= 1_000_000_000,
            ;
        }
    }
    (trajectory, reference)
}

/// The result of one full simulation run.
#[derive(Debug)]
pub struct Simulation {
    /// The full angular width of one oscillation, in millidegrees.
    pub strafe_length_mdeg: u64,
    /// One colored point per tick of the jump arc.
    pub trajectory: Vec<TrajectoryPoint>,
    /// The player-altitude marker for the same ticks.
    pub reference_positions: Vec<Point>,
}

/// Runs both phases for one configuration: validation at the boundary,
/// then the oscillation-width integral, then the full arc. Succeeds on
/// exactly the valid configurations and rejects the rest before any work.
pub fn simulate(c: &Config) -> (r: Result<Simulation, SimError>)
    ensures
        r is Ok <==> valid_config(*c),
        !valid_config(*c) ==> r == Err::<Simulation, SimError>(SimError::InvalidConfiguration),
        r matches Ok(s) ==> {
            &&& s.strafe_length_mdeg == strafe_length_mdeg(*c)
            &&& s.trajectory@.len() == jump_ticks(*c)
            &&& s.reference_positions@.len() == jump_ticks(*c)
            &&& forall|i: int|
                0 <= i < jump_ticks(*c) ==> s.trajectory@[i] == trajectory_point_at(
                    *c,
                    strafe_length_mdeg(*c),
                    i,
                )
            &&& forall|i: int|
                0 <= i < jump_ticks(*c) ==> s.reference_positions@[i] == reference_point_at(*c, i)
        },
{
    match c.validate() {
        Ok(()) => {
            let sl: u64 = accumulate(c);
            let (trajectory, reference_positions) = generate(c, sl);
            Ok(Simulation { strafe_length_mdeg: sl, trajectory, reference_positions })
        },
        Err(e) => Err(e),
    }
}

} // verus!
