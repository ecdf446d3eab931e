use strafe_calculator::config::{Config, SimError};
use strafe_calculator::sim::{accumulate, turn_for_speed_sq};
use strafe_calculator::trajectory::{generate, simulate, color_for_time, Color};

fn config(tick_rate_milli: u64, starting_speed_milli: u64, strafe_count: u64) -> Config {
    Config { tick_rate_milli, starting_speed_milli, strafe_count }
}

#[test]
fn default_config_is_valid() {
    let c = Config::default();
    assert_eq!(c.tick_rate_milli, 60_000);
    assert_eq!(c.starting_speed_milli, 300_000);
    assert_eq!(c.strafe_count, 1);
    assert!(c.validate().is_ok());
}

#[test]
fn rejects_zero_tick_rate() {
    let c = config(0, 300_000, 1);
    assert_eq!(c.validate(), Err(SimError::InvalidConfiguration));
}

#[test]
fn rejects_tick_rate_above_range() {
    let c = config(200_001, 300_000, 1);
    assert_eq!(c.validate(), Err(SimError::InvalidConfiguration));
}

#[test]
fn rejects_zero_strafe_count() {
    let c = config(60_000, 300_000, 0);
    assert_eq!(c.validate(), Err(SimError::InvalidConfiguration));
}

#[test]
fn rejects_speed_below_minimum() {
    // just below 30 units the arcsine argument would pass 1
    let c = config(60_000, 29_999, 1);
    assert_eq!(c.validate(), Err(SimError::InvalidConfiguration));
}

#[test]
fn accepts_minimum_speed() {
    let c = config(60_000, 30_000, 1);
    assert!(c.validate().is_ok());
}

#[test]
fn max_turn_at_minimum_speed() {
    // at exactly 30 units the ratio is one and the turn a full quarter turn
    let turn: u64 = turn_for_speed_sq(30_000 * 30_000);
    assert_eq!(turn, 90_000);
}

#[test]
fn first_tick_turn_at_default_speed() {
    // 30 / 300 = 0.1; the arcsine is a little under 6 degrees
    let turn: u64 = turn_for_speed_sq(300_000 * 300_000);
    assert_eq!(turn, 5_667);
    assert!(5_000 <= turn && turn <= 6_000);
}

#[test]
fn derived_quantities_at_sixty_hertz() {
    let c = config(60_000, 300_000, 1);
    assert_eq!(c.tick_interval(), 16_666);
    assert_eq!(c.half_period(), 750_000);
    let c10 = config(60_000, 300_000, 10);
    assert_eq!(c10.half_period(), 75_000);
}

#[test]
fn accumulate_default_exact() {
    let c = config(60_000, 300_000, 1);
    let sl: u64 = accumulate(&c);
    assert_eq!(sl, 236_395);
}

#[test]
fn accumulate_is_positive_and_bounded() {
    let c = config(60_000, 300_000, 10);
    let sl: u64 = accumulate(&c);
    assert!(sl > 0);
    assert!(sl <= 13_590_000);
}

#[test]
fn trajectory_lengths_match_tick_count() {
    // floor(750_000 / 16_666) + 1 = 46 ticks at 60 Hz
    let c = config(60_000, 300_000, 1);
    let sl: u64 = accumulate(&c);
    let (trajectory, reference) = generate(&c, sl);
    assert_eq!(trajectory.len(), 46);
    assert_eq!(reference.len(), 46);
}

#[test]
fn trajectory_lengths_match_formula_across_configs() {
    let cases: [(u64, u64, u64); 4] = [
        (60_000, 300_000, 1),
        (200_000, 250_000, 10),
        (1, 30_000, 1),
        (128_000, 1_000_000, 3),
    ];
    for &(tr, sp, sc) in cases.iter() {
        let c = config(tr, sp, sc);
        let iv: u64 = c.tick_interval();
        let expected: u64 = 750_000 / iv + 1;
        let sl: u64 = accumulate(&c);
        let (trajectory, reference) = generate(&c, sl);
        assert_eq!(trajectory.len() as u64, expected);
        assert_eq!(reference.len() as u64, expected);
    }
}

#[test]
fn generate_is_deterministic() {
    let c = config(60_000, 300_000, 4);
    let sl: u64 = accumulate(&c);
    let first = generate(&c, sl);
    let second = generate(&c, sl);
    assert_eq!(first.0, second.0);
    assert_eq!(first.1, second.1);
    let again: u64 = accumulate(&c);
    assert_eq!(sl, again);
}

#[test]
fn simulate_end_to_end() {
    let c = config(60_000, 300_000, 1);
    let s = simulate(&c).unwrap();
    assert_eq!(s.strafe_length_mdeg, 236_395);
    assert_eq!(s.trajectory.len(), 46);
    assert_eq!(s.reference_positions.len(), 46);
    let direct = generate(&c, s.strafe_length_mdeg);
    assert_eq!(s.trajectory, direct.0);
    assert_eq!(s.reference_positions, direct.1);
}

#[test]
fn simulate_rejects_invalid_configuration() {
    let c = config(60_000, 0, 1);
    assert!(simulate(&c).is_err());
}

#[test]
fn first_points_at_default_config() {
    let c = config(60_000, 300_000, 1);
    let sl: u64 = accumulate(&c);
    let (trajectory, reference) = generate(&c, sl);
    // the arc starts near the leftmost extreme, on the unit circle
    assert_eq!(trajectory[0].position.x_micro, -902_000);
    assert_eq!(trajectory[0].position.y_micro, 572_000);
    assert_eq!(reference[0].x_micro, 0);
    assert_eq!(reference[0].y_micro, 1_000_000);
    // reference positions climb by one tick interval each tick
    assert_eq!(reference[1].y_micro, 1_016_666);
    assert_eq!(reference[45].y_micro, 1_000_000 + 45 * 16_666);
}

#[test]
fn x_positions_stay_on_unit_circle() {
    let c = config(60_000, 300_000, 6);
    let sl: u64 = accumulate(&c);
    let (trajectory, _) = generate(&c, sl);
    for p in trajectory.iter() {
        assert!(-1_000_000 <= p.position.x_micro && p.position.x_micro <= 1_000_000);
    }
}

#[test]
fn direction_flips_every_half_period() {
    // strafe_count = 10 at 60 Hz: the half-period of 75 ms spans four to
    // five ticks of 16.666 ms, so the sweep reverses at ticks 5 and 10
    let c = config(60_000, 300_000, 10);
    let sl: u64 = accumulate(&c);
    let (trajectory, _) = generate(&c, sl);
    for k in 1usize..5 {
        assert!(trajectory[k].position.x_micro > trajectory[k - 1].position.x_micro);
    }
    for k in 5usize..10 {
        assert!(trajectory[k].position.x_micro < trajectory[k - 1].position.x_micro);
    }
    assert!(trajectory[10].position.x_micro > trajectory[9].position.x_micro);
}

#[test]
fn color_gradient_endpoints() {
    assert_eq!(color_for_time(0), Color { red: 255, green: 0, blue: 0 });
    assert_eq!(color_for_time(374_999), Color { red: 0, green: 254, blue: 0 });
    assert_eq!(color_for_time(375_000), Color { red: 0, green: 255, blue: 0 });
    assert_eq!(color_for_time(749_999), Color { red: 0, green: 255, blue: 254 });
    // the gradient cycles once per jump duration
    assert_eq!(color_for_time(750_000), Color { red: 255, green: 0, blue: 0 });
}

#[test]
fn emitted_colors_fade_red_to_green() {
    let c = config(60_000, 300_000, 1);
    let sl: u64 = accumulate(&c);
    let (trajectory, _) = generate(&c, sl);
    assert_eq!(trajectory[0].color, Color { red: 255, green: 0, blue: 0 });
    let mut last_red: u8 = 255;
    let mut last_green: u8 = 0;
    for (k, p) in trajectory.iter().enumerate() {
        if k > 0 && (k as u64) * 16_666 < 375_000 {
            assert!(p.color.red <= last_red);
            assert!(p.color.green >= last_green);
        }
        last_red = p.color.red;
        last_green = p.color.green;
    }
}

#[test]
fn turns_strictly_decrease_as_speed_rises() {
    // at 60 Hz from 300 units the speed rises every tick, and at the fine
    // ratio scale each later tick turns strictly less than the one before
    let mut speed_sq: u64 = 300_000 * 300_000;
    let mut previous: u64 = turn_for_speed_sq(speed_sq);
    assert_eq!(previous, 5_667);
    let mut k: u64 = 1;
    while k < 46 {
        speed_sq += 900_000_000;
        let turn: u64 = turn_for_speed_sq(speed_sq);
        assert!(turn < previous);
        previous = turn;
        k += 1;
    }
    let second: u64 = turn_for_speed_sq(300_000 * 300_000 + 900_000_000);
    let third: u64 = turn_for_speed_sq(300_000 * 300_000 + 2 * 900_000_000);
    assert_eq!(second, 5_638);
    assert_eq!(third, 5_610);
}

#[test]
fn points_stay_near_unit_circle_around_reference() {
    let c = config(60_000, 300_000, 7);
    let sl: u64 = accumulate(&c);
    let (trajectory, reference) = generate(&c, sl);
    for (k, p) in trajectory.iter().enumerate() {
        let dx: i64 = p.position.x_micro;
        let dy: i64 = p.position.y_micro - reference[k].y_micro;
        let d2: i64 = dx * dx + dy * dy;
        assert!(920_000_000_000 <= d2 && d2 <= 1_070_000_000_000);
    }
}
