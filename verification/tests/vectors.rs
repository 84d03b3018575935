use boids::fixed::{LIMIT, ONE, VECTOR_LIMIT};
use boids::vector::Vec2;

#[test]
fn new_and_zero_hold_their_components() {
    let v = Vec2::new(3, -4);
    assert_eq!(v.x, 3);
    assert_eq!(v.y, -4);
    assert_eq!(Vec2::zero(), Vec2 { x: 0, y: 0 });
}

#[test]
fn plus_and_minus_work_by_component() {
    let a = Vec2::new(5, -7);
    let b = Vec2::new(-2, 10);
    assert_eq!(a.plus(b), Vec2::new(3, 3));
    assert_eq!(a.minus(b), Vec2::new(7, -17));
    assert_eq!(a.minus(a), Vec2::zero());
    assert_eq!(a.plus(b), b.plus(a));
}

#[test]
fn scaled_multiplies_by_a_fixed_point_number() {
    let v = Vec2::new(39321, 52428);
    assert_eq!(v.scaled(ONE), v);
    assert_eq!(v.scaled(0), Vec2::zero());
    assert_eq!(v.scaled(3 * ONE / 2), Vec2::new(58981, 78642));
    assert_eq!(v.scaled(-ONE), Vec2::new(-39321, -52428));
    assert_eq!(Vec2::new(100000, -100000).scaled(98304), Vec2::new(150000, -150000));
}

#[test]
fn scaled_rounds_toward_zero_on_both_sides() {
    assert_eq!(Vec2::new(3, -3).scaled(ONE / 2), Vec2::new(1, -1));
    assert_eq!(Vec2::new(1, -1).scaled(ONE / 2), Vec2::new(0, 0));
}

#[test]
fn length_squared_is_exact() {
    assert_eq!(Vec2::new(3, 4).length_squared(), 25);
    assert_eq!(Vec2::new(-3, -4).length_squared(), 25);
    assert_eq!(Vec2::zero().length_squared(), 0);
    assert_eq!(Vec2::new(i64::MIN, i64::MIN).length_squared(), 1u128 << 127);
    assert_eq!(Vec2::new(i64::MAX, 0).length_squared(), (i64::MAX as u128) * (i64::MAX as u128));
}

#[test]
fn distance_squared_is_symmetric() {
    let a = Vec2::new(100 * ONE, 100 * ONE);
    let b = Vec2::new(103 * ONE, 104 * ONE);
    let expected = 25 * (ONE as u128) * (ONE as u128);
    assert_eq!(a.distance_squared(b), expected);
    assert_eq!(b.distance_squared(a), expected);
    assert_eq!(a.distance_squared(a), 0);
}

#[test]
fn normalize_three_four_five() {
    assert_eq!(Vec2::new(3 * ONE, 4 * ONE).normalize(), Some(Vec2::new(39321, 52428)));
    assert_eq!(Vec2::new(-3 * ONE, -4 * ONE).normalize(), Some(Vec2::new(-39321, -52428)));
    assert_eq!(Vec2::new(3 * ONE, -4 * ONE).normalize(), Some(Vec2::new(39321, -52428)));
}

#[test]
fn normalize_keeps_an_axis_exact() {
    assert_eq!(Vec2::new(7 * ONE, 0).normalize(), Some(Vec2::new(ONE, 0)));
    assert_eq!(Vec2::new(0, -7).normalize().map(|v| v.y), None);
    assert_eq!(Vec2::new(0, -16).normalize(), Some(Vec2::new(0, -ONE)));
    assert_eq!(Vec2::new(-VECTOR_LIMIT, 0).normalize(), Some(Vec2::new(-ONE, 0)));
}

#[test]
fn normalize_on_the_diagonal() {
    assert_eq!(Vec2::new(ONE, ONE).normalize(), Some(Vec2::new(46340, 46340)));
    assert_eq!(Vec2::new(64 * LIMIT, 64 * LIMIT).normalize(), Some(Vec2::new(46340, 46340)));
    assert_eq!(Vec2::new(12, -11).normalize(), Some(Vec2::new(48310, -44284)));
    assert_eq!(Vec2::new(5, -16).normalize(), Some(Vec2::new(19547, -62552)));
    assert_eq!(Vec2::new(-VECTOR_LIMIT, 1).normalize(), Some(Vec2::new(-ONE, 0)));
}

#[test]
fn normalize_turns_down_what_has_no_direction() {
    assert_eq!(Vec2::zero().normalize(), None);
    assert_eq!(Vec2::new(15, 0).normalize(), None);
    assert_eq!(Vec2::new(11, 10).normalize(), None);
    assert_eq!(Vec2::new(-11, -11).normalize(), None);
    assert!(Vec2::new(16, 0).normalize().is_some());
    assert!(Vec2::new(12, 11).normalize().is_some());
}

#[test]
fn normalize_gives_unit_vectors() {
    let mut seed: u64 = 0x2545_F491_4F6C_DD1D;
    for _ in 0..2000 {
        seed ^= seed << 13;
        seed ^= seed >> 7;
        seed ^= seed << 17;
        let x = (seed % (2 * VECTOR_LIMIT as u64 + 1)) as i64 - VECTOR_LIMIT;
        seed ^= seed << 13;
        seed ^= seed >> 7;
        seed ^= seed << 17;
        let y = (seed % (2 * VECTOR_LIMIT as u64 + 1)) as i64 - VECTOR_LIMIT;
        let unit = Vec2::new(x, y).normalize().unwrap();
        assert!(unit.is_unit());
        assert!(unit.x.abs() <= ONE && unit.y.abs() <= ONE);
        assert!(unit.x.signum() * x.signum() >= 0 && unit.y.signum() * y.signum() >= 0);
    }
}

#[test]
fn is_unit_accepts_the_rounded_length_one_only() {
    assert!(Vec2::new(ONE, 0).is_unit());
    assert!(Vec2::new(0, -ONE).is_unit());
    assert!(Vec2::new(46340, 46340).is_unit());
    assert!(Vec2::new(39321, 52428).is_unit());
    assert!(Vec2::new(ONE - 3, 0).is_unit());
    assert!(!Vec2::new(ONE - 4, 0).is_unit());
    assert!(!Vec2::new(ONE + 1, 0).is_unit());
    assert!(!Vec2::new(ONE, ONE).is_unit());
    assert!(!Vec2::zero().is_unit());
}
