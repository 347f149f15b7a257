use pixel_modulator::{Phase, Signal, Sine, Square, FULL_SCALE};

fn turns(p: Phase) -> f64 {
    p.0 as f64 / 4294967296.0
}

fn sine_value(p: Phase) -> f64 {
    (std::f64::consts::TAU * turns(p)).sin()
}

#[test]
fn sine_scenario_quarter_turns() {
    let sine = Sine::from_freq(1000, 100000);
    assert_eq!(sine.phase_at(0), Phase(0));
    assert_eq!(sine_value(sine.phase_at(0)), 0.0);
    assert!((sine_value(sine.phase_at(25)) - 1.0).abs() < 1e-6);
    assert!(sine_value(sine.phase_at(50)).abs() < 1e-6);
    assert!((sine_value(sine.phase_at(75)) + 1.0).abs() < 1e-6);
    assert_eq!(sine.frequency(), 1000);
}

#[test]
fn square_scenario_half_periods() {
    let square = Square::from_freq(1000, 100000);
    for i in 0..50 {
        assert_eq!(Square::sample(&square, i), FULL_SCALE, "index {}", i);
    }
    for i in 50..100 {
        assert_eq!(Square::sample(&square, i), -FULL_SCALE, "index {}", i);
    }
    assert_eq!(Signal::sample(&square, 10), FULL_SCALE);
}

#[test]
fn square_with_deviation_shifts_phase() {
    let square = Square::from_freq(1000, 100000);
    assert_eq!(square.sample_with_deviation(0, Phase(2147483648)), -FULL_SCALE);
    assert_eq!(square.sample_with_deviation(60, Phase(2147483648)), FULL_SCALE);
}

#[test]
fn phase_per_pixel_step() {
    let sine = Sine::from_freq(1000, 100000);
    assert_eq!(sine.phase_at(1), Phase(42949673));
    assert_eq!(sine.phase_with_deviation(1, Phase(7)), Phase(42949680));
}

#[test]
fn exact_rate_is_periodic_over_dot_clock() {
    // 2^32 * 3 / 256 is a whole number of units, so the phase comes back
    // exactly after 256 pixels.
    let sine = Sine::from_freq(3, 256);
    for i in [0u32, 1, 17, 255, 1000] {
        assert_eq!(sine.phase_at(i), sine.phase_at(i + 256));
        assert_eq!(sine.phase_at(i), sine.phase_at(i + 5 * 256));
    }
}

#[test]
fn next_frame_continues_phase() {
    let frame = 6 * 3;
    let mut sine = Sine::from_freq(1000, 100000);
    let before = sine;
    sine.next_frame(frame);
    assert_eq!(sine.phase_at(0), before.phase_at(frame));
    assert_eq!(sine.phase_at(7), before.phase_at(frame + 7));

    let mut square = Square::from_freq(1234, 100000);
    let before = square;
    square.next_frame(frame);
    assert_eq!(square.phase_at(0), before.phase_at(frame));
    assert_eq!(square.phase_at(40), before.phase_at(frame + 40));
}

#[test]
fn next_frame_wraps_large_frames() {
    let mut square = Square::from_freq(1000, 100000);
    square.next_frame(2034160);
    assert_eq!(square.phase_at(0), Phase(42949673u32.wrapping_mul(2034160)));
}
