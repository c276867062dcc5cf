use euler_curves::point::Point;
use euler_curves::policy::EndCondition;
use euler_curves::scalar::is_degenerate;
use euler_curves::scalar::Scalar;
use euler_curves::scalar::INFINITY_BITS;
use euler_curves::scalar::MINUS_ONE_BITS;
use euler_curves::scalar::ONE_BITS;
use euler_curves::scalar::SIGN_BIT;

fn s(value: f64) -> Scalar {
    Scalar::from_bits(value.to_bits())
}

fn f(scalar: Scalar) -> f64 {
    f64::from_bits(scalar.to_bits())
}

fn samples() -> Vec<f64> {
    vec![
        f64::NEG_INFINITY,
        f64::MIN,
        -150.0,
        -1.0,
        -f64::MIN_POSITIVE,
        -5e-324,
        -0.0,
        0.0,
        5e-324,
        f64::MIN_POSITIVE,
        0.001,
        1.0,
        1.0000000000000002,
        150.0,
        f64::MAX,
        f64::INFINITY,
        f64::NAN,
        -f64::NAN,
        f64::from_bits(0x7ff0_0000_0000_0001),
    ]
}

#[test]
fn constants_are_the_patterns_they_name() {
    assert_eq!(SIGN_BIT, (-0.0f64).to_bits());
    assert_eq!(INFINITY_BITS, f64::INFINITY.to_bits());
    assert_eq!(ONE_BITS, 1.0f64.to_bits());
    assert_eq!(MINUS_ONE_BITS, (-1.0f64).to_bits());
    assert_eq!(f(Scalar::zero()), 0.0);
    assert!(f(Scalar::zero()).is_sign_positive());
    assert_eq!(f(Scalar::one()), 1.0);
    assert_eq!(f(Scalar::minus_one()), -1.0);
}

#[test]
fn degenerate_is_nan_or_infinite() {
    assert!(is_degenerate(s(f64::NAN)));
    assert!(is_degenerate(s(f64::INFINITY)));
    assert!(is_degenerate(s(f64::NEG_INFINITY)));
    assert!(!is_degenerate(s(0.0)));
    assert!(!is_degenerate(s(-0.0)));
    assert!(!is_degenerate(s(5e-324)));
    assert!(!is_degenerate(s(f64::MAX)));
    for value in samples() {
        assert_eq!(is_degenerate(s(value)), value.is_nan() || value.is_infinite());
        assert_eq!(s(value).is_not_a_number(), value.is_nan());
    }
}

#[test]
fn comparisons_agree_with_the_numbers() {
    for a in samples() {
        for b in samples() {
            assert_eq!(s(a).gt(s(b)), a > b, "{a} > {b}");
            assert_eq!(s(a).ge(s(b)), a >= b, "{a} >= {b}");
        }
    }
}

#[test]
fn zeros_compare_equal() {
    assert!(!s(0.0).gt(s(-0.0)));
    assert!(!s(-0.0).gt(s(0.0)));
    assert!(s(0.0).ge(s(-0.0)));
    assert!(s(-0.0).ge(s(0.0)));
    assert_ne!(s(0.0), s(-0.0));
}

#[test]
fn abs_clears_the_sign() {
    for value in samples() {
        assert_eq!(s(value).abs().to_bits(), value.abs().to_bits());
    }
    assert_eq!(f(s(-150.0).abs()), 150.0);
}

#[test]
fn max_and_min_pass_over_nan() {
    for a in samples() {
        for b in samples() {
            let greater = f(s(a).max(s(b)));
            let lesser = f(s(a).min(s(b)));
            if a.is_nan() && b.is_nan() {
                assert!(greater.is_nan() && lesser.is_nan());
            } else {
                assert_eq!(greater, a.max(b));
                assert_eq!(lesser, a.min(b));
            }
        }
    }
    assert_eq!(f(s(2.0).max(s(3.0))), 3.0);
    assert_eq!(f(s(2.0).min(s(3.0))), 2.0);
}

#[test]
fn max_and_min_keep_the_first_of_equals() {
    assert_eq!(s(0.0).max(s(-0.0)), s(0.0));
    assert_eq!(s(-0.0).max(s(0.0)), s(-0.0));
    assert_eq!(s(0.0).min(s(-0.0)), s(0.0));
    assert_eq!(s(-0.0).min(s(0.0)), s(-0.0));
    let quiet = Scalar::from_bits(0x7ff8_0000_0000_0000);
    let other = Scalar::from_bits(0x7ff8_0000_0000_0001);
    assert_eq!(quiet.max(other), other);
    assert_eq!(quiet.min(other), other);
    assert_eq!(s(1.0).max(quiet), s(1.0));
    assert_eq!(quiet.min(s(1.0)), s(1.0));
}

#[test]
fn every_u32_converts_exactly() {
    for n in [0u32, 1, 2, 3, 4, 5, 7, 8, 9, 10, 255, 256, 1000, 65535, 65536, 1 << 31, u32::MAX - 1, u32::MAX] {
        assert_eq!(Scalar::from_u32(n).to_bits(), (n as f64).to_bits(), "{n}");
    }
    for shift in 0..32 {
        let n = 1u32 << shift;
        assert_eq!(Scalar::from_u32(n).to_bits(), (n as f64).to_bits());
        assert_eq!(Scalar::from_u32(n - 1).to_bits(), ((n - 1) as f64).to_bits());
        assert_eq!(Scalar::from_u32(n | 1).to_bits(), ((n | 1) as f64).to_bits());
    }
}

#[test]
fn point_defaults_to_the_origin() {
    let origin = Point::default();
    assert_eq!(f(origin.x), 0.0);
    assert_eq!(f(origin.y), 0.0);
    assert_eq!(origin.x.to_bits(), 0);
    assert_eq!(origin.y.to_bits(), 0);
}

#[test]
fn pair_becomes_point() {
    let p: Point = (s(0.0), s(5.0)).into();
    assert_eq!(p, Point { x: s(0.0), y: s(5.0) });
    assert_eq!(Point::from((s(1.5), s(-2.0))), Point { x: s(1.5), y: s(-2.0) });
}

#[test]
fn no_bound_is_never_reached() {
    let open = EndCondition { max_x: None, max_abs_y: None, max_points: usize::MAX };
    for x in samples() {
        for y in samples() {
            assert!(!open.has_reached(&Point { x: s(x), y: s(y) }));
        }
    }
}

#[test]
fn bounds_are_reached_only_beyond_them() {
    let both = EndCondition { max_x: Some(s(150.0)), max_abs_y: Some(s(150.0)), max_points: 1 };
    assert!(!both.has_reached(&Point { x: s(150.0), y: s(150.0) }));
    assert!(!both.has_reached(&Point { x: s(150.0), y: s(-150.0) }));
    assert!(both.has_reached(&Point { x: s(150.00000000000003), y: s(0.0) }));
    assert!(both.has_reached(&Point { x: s(0.0), y: s(150.00000000000003) }));
    assert!(both.has_reached(&Point { x: s(0.0), y: s(-150.00000000000003) }));
    assert!(both.has_reached(&Point { x: s(f64::INFINITY), y: s(0.0) }));
    assert!(both.has_reached(&Point { x: s(0.0), y: s(f64::NEG_INFINITY) }));
    assert!(!both.has_reached(&Point { x: s(f64::NAN), y: s(f64::NAN) }));
    assert!(!both.has_reached(&Point { x: s(-1.0e300), y: s(0.0) }));
    for x in samples() {
        for y in samples() {
            let p = Point { x: s(x), y: s(y) };
            assert_eq!(both.has_reached(&p), x > 150.0 || y.abs() > 150.0);
            assert_eq!(
                both.accepts(&p),
                !(x > 150.0 || y.abs() > 150.0) && x.is_finite() && y.is_finite()
            );
        }
    }
}

#[test]
fn each_bound_works_alone() {
    let only_x = EndCondition { max_x: Some(s(1.0)), max_abs_y: None, max_points: 1 };
    assert!(only_x.has_reached(&Point { x: s(2.0), y: s(0.0) }));
    assert!(!only_x.has_reached(&Point { x: s(0.0), y: s(1.0e300) }));
    let only_y = EndCondition { max_x: None, max_abs_y: Some(s(1.0)), max_points: 1 };
    assert!(only_y.has_reached(&Point { x: s(0.0), y: s(-2.0) }));
    assert!(!only_y.has_reached(&Point { x: s(1.0e300), y: s(0.0) }));
    let nan_bound = EndCondition { max_x: Some(s(f64::NAN)), max_abs_y: None, max_points: 1 };
    assert!(!nan_bound.has_reached(&Point { x: s(f64::INFINITY), y: s(0.0) }));
}
