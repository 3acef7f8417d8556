use raytracer::math::Scalar;

fn s(x: f64) -> Scalar {
    Scalar::from_bits(x.to_bits())
}

fn f(x: Scalar) -> f64 {
    f64::from_bits(x.to_bits())
}

fn battery() -> Vec<f64> {
    vec![
        f64::NEG_INFINITY,
        -1.0e300,
        -2.5,
        -1.0,
        -1.0e-300,
        -0.0,
        0.0,
        5.0e-324,
        0.5,
        0.9,
        1.0,
        3.75,
        1.0e300,
        f64::INFINITY,
        f64::NAN,
    ]
}

#[test]
fn scalars_order_as_doubles() {
    for &a in battery().iter() {
        for &b in battery().iter() {
            assert_eq!(s(a).lt(s(b)), a < b);
            assert_eq!(s(a).le(s(b)), a <= b);
        }
    }
}

#[test]
fn min_and_max_ignore_nan() {
    for &a in battery().iter() {
        for &b in battery().iter() {
            let lo = f(s(a).min(s(b)));
            let hi = f(s(a).max(s(b)));
            let want_lo = a.min(b);
            let want_hi = a.max(b);
            assert!(lo == want_lo || (lo.is_nan() && want_lo.is_nan()));
            assert!(hi == want_hi || (hi.is_nan() && want_hi.is_nan()));
        }
    }
}

#[test]
fn neg_and_abs_work_on_the_sign_bit() {
    for &a in battery().iter() {
        assert_eq!(s(a).neg().to_bits(), (-a).to_bits());
        assert_eq!(s(a).abs().to_bits(), a.abs().to_bits());
        assert_eq!(s(a).is_nan(), a.is_nan());
    }
}

#[test]
fn key_orders_numbers_and_merges_zeros() {
    assert_eq!(s(0.0).key(), 0);
    assert_eq!(s(-0.0).key(), 0);
    assert_eq!(s(1.0).key(), 0x3FF0_0000_0000_0000);
    assert_eq!(s(-1.0).key(), -0x3FF0_0000_0000_0000);
    assert!(s(-2.0).key() < s(-1.0).key());
    assert!(s(1.0).key() < s(f64::INFINITY).key());
}

#[test]
fn constants_are_the_doubles_they_name() {
    assert_eq!(f(Scalar::zero()), 0.0);
    assert_eq!(f(Scalar::one()), 1.0);
    assert_eq!(f(Scalar::infinity()), f64::INFINITY);
    assert_eq!(f(Scalar::neg_infinity()), f64::NEG_INFINITY);
}

#[test]
fn clamp_holds_to_the_bounds() {
    assert_eq!(f(s(2.0).clamp(s(0.0), s(1.0))), 1.0);
    assert_eq!(f(s(-3.0).clamp(s(0.0), s(1.0))), 0.0);
    assert_eq!(f(s(0.25).clamp(s(0.0), s(1.0))), 0.25);
    assert_eq!(f(s(1.0).clamp(s(0.0), s(0.999))), 0.999);
    assert!(f(s(f64::NAN).clamp(s(0.0), s(1.0))).is_nan());
    assert_eq!(f(s(f64::INFINITY).clamp(s(-1.0), s(1.0))), 1.0);
}

#[test]
fn finite_and_within_follow_the_doubles() {
    for &a in battery().iter() {
        assert_eq!(s(a).is_finite(), a.is_finite());
        for &lo in battery().iter() {
            for &hi in battery().iter() {
                assert_eq!(s(a).within(s(lo), s(hi)), lo <= a && a <= hi);
            }
        }
    }
}
