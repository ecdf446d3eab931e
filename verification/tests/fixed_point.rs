use strafe_calculator::sqrt::isqrt;
use strafe_calculator::trig::{sin_half_turn_milli, sin_half_turn_micro_eval, asin_micro};

#[test]
fn isqrt_exact_squares_and_floors() {
    assert_eq!(isqrt(0), 0);
    assert_eq!(isqrt(1), 1);
    assert_eq!(isqrt(899_999_999), 29_999);
    assert_eq!(isqrt(900_000_000), 30_000);
    assert_eq!(isqrt(900_059_999), 30_000);
    assert_eq!(isqrt(90_000_000_000), 300_000);
}

#[test]
fn sine_anchor_values() {
    assert_eq!(sin_half_turn_milli(0), 0);
    assert_eq!(sin_half_turn_milli(90_000), 1_000);
    assert_eq!(sin_half_turn_milli(180_000), 0);
    // half of the quarter turn: sin 30 degrees = 1/2
    assert_eq!(sin_half_turn_milli(30_000), 500);
    assert_eq!(sin_half_turn_milli(150_000), 500);
}

#[test]
fn sine_symmetric_about_quarter_turn() {
    let mut t: u64 = 0;
    while t <= 90_000 {
        assert_eq!(sin_half_turn_milli(t), sin_half_turn_milli(180_000 - t));
        t += 7_919;
    }
}

#[test]
fn arcsine_inverts_fine_sine() {
    assert_eq!(asin_micro(0), 0);
    assert_eq!(asin_micro(1_000_000), 90_000);
    assert_eq!(asin_micro(500_000), 30_000);
    // the arcsine is the smallest angle whose sine reaches the value
    let mut r: u64 = 0;
    while r <= 1_000_000 {
        let t: u64 = asin_micro(r);
        assert!(sin_half_turn_micro_eval(t) >= r);
        if t > 0 {
            assert!(sin_half_turn_micro_eval(t - 1) < r);
        }
        r += 73_001;
    }
}

#[test]
fn fine_sine_anchor_values() {
    assert_eq!(sin_half_turn_micro_eval(0), 0);
    assert_eq!(sin_half_turn_micro_eval(30_000), 500_000);
    assert_eq!(sin_half_turn_micro_eval(90_000), 1_000_000);
}

#[test]
fn speed_strictly_increases_every_tick() {
    // the acceleration law over one full jump at the default configuration
    let mut speed_sq: u64 = 300_000 * 300_000;
    let mut previous: u64 = 0;
    let mut k: u64 = 0;
    while k < 46 {
        let speed: u64 = isqrt(speed_sq);
        assert!(speed > previous);
        previous = speed;
        speed_sq += 900_000_000;
        k += 1;
    }
}
