use rand_distr::format::{equal, halve, is_nan_value, less_than, reciprocal_positive};
use rand_distr::{ChiSquared, ChiSquaredError, ChiSquaredRepr, Gamma, GammaError, GammaRepr};

fn b(x: f32) -> u32 {
    x.to_bits()
}

const MIN_SUBNORMAL_F32: f32 = 1.4e-45;

fn samples_f32() -> Vec<f32> {
    vec![
        0.0,
        -0.0,
        MIN_SUBNORMAL_F32,
        -MIN_SUBNORMAL_F32,
        2.0 * MIN_SUBNORMAL_F32,
        3.0 * MIN_SUBNORMAL_F32,
        f32::MIN_POSITIVE,
        f32::MIN_POSITIVE * 1.5,
        f32::MIN_POSITIVE - MIN_SUBNORMAL_F32,
        0.5,
        1.0,
        -1.0,
        1.0 + f32::EPSILON,
        1.0 - f32::EPSILON / 2.0,
        2.0,
        11.0,
        1e30,
        f32::MAX,
        f32::MIN,
        f32::INFINITY,
        f32::NEG_INFINITY,
        f32::NAN,
        -f32::NAN,
    ]
}

#[test]
fn f32_comparisons_agree_with_f32() {
    for &x in samples_f32().iter() {
        for &y in samples_f32().iter() {
            assert_eq!(less_than(b(x), b(y)), x < y, "{} < {}", x, y);
            assert_eq!(equal(b(x), b(y)), x == y, "{} == {}", x, y);
        }
        assert_eq!(is_nan_value(b(x)), x.is_nan());
    }
}

#[test]
fn f32_halving_agrees_with_f32() {
    for &x in samples_f32().iter() {
        let h = halve(b(x));
        if x.is_nan() {
            assert!(f32::from_bits(h).is_nan());
        } else {
            assert_eq!(h, b(0.5 * x), "0.5 * {}", x);
        }
    }
}

#[test]
fn f32_reciprocal_positivity_agrees_with_f32() {
    for &x in samples_f32().iter() {
        assert_eq!(reciprocal_positive(b(x)), 1.0 / x > 0.0, "1 / {}", x);
    }
}

#[test]
fn f32_gamma() {
    let g = Gamma::new(b(2.0), b(5.0)).unwrap();
    assert_eq!(g.repr(), GammaRepr::Large { shape: b(2.0), scale: b(5.0) });
    let g = Gamma::new(b(0.25), b(5.0)).unwrap();
    assert_eq!(g.repr(), GammaRepr::Small { shape: b(0.25), scale: b(5.0) });
    assert_eq!(Gamma::new(b(1.0), b(f32::INFINITY)), Err(GammaError::ScaleTooLarge));
    assert_eq!(Gamma::new(b(3.0), b(f32::INFINITY)), Err(GammaError::ScaleTooLarge));
    assert_eq!(Gamma::new(b(-1.0), b(1.0)), Err(GammaError::ShapeTooSmall));
    assert_eq!(Gamma::new(b(1.0), b(f32::NAN)), Err(GammaError::ScaleTooSmall));
}

#[test]
fn f32_chi_squared() {
    assert_eq!(ChiSquared::new(b(MIN_SUBNORMAL_F32)), Err(ChiSquaredError::DoFTooSmall));
    assert_eq!(ChiSquared::new(b(1.0)).unwrap().repr(), ChiSquaredRepr::DoFExactlyOne);
    assert_eq!(
        ChiSquared::new(b(11.0)).unwrap().repr(),
        ChiSquaredRepr::DoFAnythingElse(Gamma::new(b(5.5), b(2.0)).unwrap())
    );
}
