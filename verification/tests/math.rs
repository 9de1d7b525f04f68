use retrorocket::angle::{cos_mt, sin_mt, wrap_turn, TURN};
use retrorocket::fixed::{fmul, ONE};
use retrorocket::rng::Rng;
use retrorocket::vec2::Vec2;

#[test]
fn fixed_product_rounds_toward_zero() {
    assert_eq!(fmul(1500, 1500), 2250);
    assert_eq!(fmul(-1500, 1500), -2250);
    assert_eq!(fmul(1500, -1500), -2250);
    assert_eq!(fmul(-1500, -1500), 2250);
    assert_eq!(fmul(999, 1), 0);
    assert_eq!(fmul(-999, 1), 0);
    assert_eq!(fmul(ONE, 123_456), 123_456);
}

#[test]
fn sine_is_exact_at_quarter_turns() {
    assert_eq!(sin_mt(0), 0);
    assert_eq!(sin_mt(250), ONE);
    assert_eq!(sin_mt(500), 0);
    assert_eq!(sin_mt(750), -ONE);
    assert_eq!(sin_mt(TURN), 0);
    assert_eq!(cos_mt(0), ONE);
    assert_eq!(cos_mt(250), 0);
    assert_eq!(cos_mt(500), -ONE);
    assert_eq!(cos_mt(-250), 0);
    assert_eq!(sin_mt(-250), -ONE);
}

#[test]
fn sine_stays_in_range_and_wraps() {
    for a in -2500..2500 {
        let v = sin_mt(a);
        assert!(-ONE <= v && v <= ONE);
        assert_eq!(v, sin_mt(a + TURN));
    }
    assert_eq!(wrap_turn(-1), 999);
    assert_eq!(wrap_turn(2500), 500);
    assert_eq!(wrap_turn(-2500), 500);
}

#[test]
fn draws_stay_in_range_and_replay() {
    let mut r1 = Rng::new(42);
    let mut r2 = Rng::new(42);
    for n in 1u64..50 {
        let a = r1.draw(n);
        let b = r2.draw(n);
        assert_eq!(a, b);
        assert!(a < n);
    }
    let mut r3 = Rng::new(42);
    assert_eq!(r3.draw(0), 0);
}

#[test]
fn perpendicular_turns_a_quarter_counterclockwise() {
    let v = Vec2 { x: 3, y: 4 };
    let p = v.perp();
    assert_eq!(p.x, -4);
    assert_eq!(p.y, 3);
    let s = v.add(p);
    assert_eq!(s.x, -1);
    assert_eq!(s.y, 7);
    let d = v.scale(500);
    assert_eq!(d.x, 1);
    assert_eq!(d.y, 2);
}
