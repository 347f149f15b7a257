use pixel_modulator::{DiscreteTime, Phase};

#[test]
fn from_fraction_rounds_to_nearest_unit() {
    // 2^32 / 100 = 42949672.96
    assert_eq!(Phase::from_fraction(1, 100), Phase(42949673));
    assert_eq!(Phase::from_fraction(1, 2), Phase(2147483648));
    assert_eq!(Phase::from_fraction(0, 7), Phase(0));
}

#[test]
fn from_fraction_wraps_whole_turns() {
    assert_eq!(Phase::from_fraction(5, 4), Phase::from_fraction(1, 4));
    assert_eq!(Phase::from_fraction(3, 1), Phase(0));
}

#[test]
fn from_fraction_negative_wraps_into_turn() {
    assert_eq!(Phase::from_fraction(-1, 4), Phase(3221225472));
    assert_eq!(Phase::from_fraction(-1, 1), Phase(0));
    assert_eq!(Phase::from_fraction(-5, 4), Phase(3221225472));
}

#[test]
fn add_wraps_silently() {
    let a = Phase(4294967295);
    assert_eq!(a.add(Phase(2)), Phase(1));
    assert_eq!(Phase(10).add(Phase(20)), Phase(30));
}

#[test]
fn mul_wraps_silently() {
    assert_eq!(Phase(1 << 31).mul(2), Phase(0));
    assert_eq!(Phase(3).mul(5), Phase(15));
    assert_eq!(Phase(4294967295).mul(3), Phase(4294967293));
}

#[test]
fn add_assign_accumulates() {
    let mut p = Phase(4294967290);
    p.add_assign(Phase(10));
    assert_eq!(p, Phase(4));
}

#[test]
fn first_half_boundary() {
    assert!(Phase(0).is_first_half());
    assert!(Phase(2147483647).is_first_half());
    assert!(!Phase(2147483648).is_first_half());
}

#[test]
fn discrete_time_to_phase() {
    // Half a second of a 3 Hz wave is one and a half turns: half a turn.
    let t = DiscreteTime { numerator: 1, denominator: 2 };
    assert_eq!(t.to_phase(3), Phase(2147483648));
    let quarter = DiscreteTime { numerator: 1, denominator: 4 };
    assert_eq!(quarter.to_phase(1), Phase(1073741824));
}
