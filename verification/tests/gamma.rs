use rand_distr::format::{
    equal, halve, is_nan_value, is_positive, less_than, reciprocal_positive, Binary,
};
use rand_distr::{
    Beta, BetaError, ChiSquared, ChiSquaredError, ChiSquaredRepr, FisherF, FisherFError, Gamma,
    GammaError, GammaRepr, StudentT,
};

fn b(x: f64) -> u64 {
    x.to_bits()
}

const MIN_SUBNORMAL: f64 = 4.9406564584124654e-324;

fn samples() -> Vec<f64> {
    vec![
        0.0,
        -0.0,
        MIN_SUBNORMAL,
        -MIN_SUBNORMAL,
        2.0 * MIN_SUBNORMAL,
        3.0 * MIN_SUBNORMAL,
        f64::MIN_POSITIVE,
        f64::MIN_POSITIVE * 1.5,
        f64::MIN_POSITIVE - MIN_SUBNORMAL,
        0.5,
        1.0,
        -1.0,
        1.0 + f64::EPSILON,
        1.0 - f64::EPSILON / 2.0,
        2.0,
        30.0,
        1e300,
        f64::MAX,
        f64::MIN,
        f64::INFINITY,
        f64::NEG_INFINITY,
        f64::NAN,
        -f64::NAN,
    ]
}

#[test]
fn test_chi_squared_invalid_dof_is_refused() {
    assert_eq!(ChiSquared::new(b(-1.0)), Err(ChiSquaredError::DoFTooSmall));
}

#[test]
#[should_panic]
fn test_chi_squared_invalid_dof() {
    ChiSquared::new(b(-1.0)).unwrap();
}

#[test]
#[should_panic]
fn test_beta_invalid_dof() {
    Beta::new(b(0.), b(0.)).unwrap();
}

#[test]
fn comparisons_agree_with_f64() {
    for &x in samples().iter() {
        for &y in samples().iter() {
            assert_eq!(less_than(b(x), b(y)), x < y, "{} < {}", x, y);
            assert_eq!(less_than(b(y), b(x)), x > y, "{} > {}", x, y);
            assert_eq!(equal(b(x), b(y)), x == y, "{} == {}", x, y);
        }
        assert_eq!(is_nan_value(b(x)), x.is_nan());
        assert_eq!(is_positive(b(x)), x > 0.0);
    }
}

#[test]
fn halving_agrees_with_f64() {
    for &x in samples().iter() {
        let h = halve(b(x));
        if x.is_nan() {
            assert!(f64::from_bits(h).is_nan());
        } else {
            assert_eq!(h, b(0.5 * x), "0.5 * {}", x);
        }
    }
    assert_eq!(halve(b(2.0)), b(1.0));
    assert_eq!(halve(b(MIN_SUBNORMAL)), b(0.0));
    assert_eq!(halve(b(3.0 * MIN_SUBNORMAL)), b(2.0 * MIN_SUBNORMAL));
}

#[test]
fn reciprocal_positivity_agrees_with_f64() {
    for &x in samples().iter() {
        assert_eq!(reciprocal_positive(b(x)), 1.0 / x > 0.0, "1 / {}", x);
    }
}

#[test]
fn constants_are_the_f64_constants() {
    assert_eq!(<u64 as Binary>::zero(), b(0.0));
    assert_eq!(<u64 as Binary>::one(), b(1.0));
    assert_eq!(<u64 as Binary>::two(), b(2.0));
    assert_eq!(<u32 as Binary>::zero(), 0.0f32.to_bits());
    assert_eq!(<u32 as Binary>::one(), 1.0f32.to_bits());
    assert_eq!(<u32 as Binary>::two(), 2.0f32.to_bits());
}

#[test]
fn gamma_errors() {
    assert_eq!(Gamma::new(b(0.0), b(1.0)), Err(GammaError::ShapeTooSmall));
    assert_eq!(Gamma::new(b(-2.0), b(1.0)), Err(GammaError::ShapeTooSmall));
    assert_eq!(Gamma::new(b(f64::NAN), b(1.0)), Err(GammaError::ShapeTooSmall));
    assert_eq!(Gamma::new(b(2.0), b(0.0)), Err(GammaError::ScaleTooSmall));
    assert_eq!(Gamma::new(b(2.0), b(-0.0)), Err(GammaError::ScaleTooSmall));
    assert_eq!(Gamma::new(b(2.0), b(f64::NAN)), Err(GammaError::ScaleTooSmall));
    assert_eq!(Gamma::new(b(1.0), b(f64::INFINITY)), Err(GammaError::ScaleTooLarge));
    // `1 / scale == 0` for every shape, not only for shape 1.
    assert_eq!(Gamma::new(b(2.0), b(f64::INFINITY)), Err(GammaError::ScaleTooLarge));
    assert_eq!(Gamma::new(b(0.5), b(f64::INFINITY)), Err(GammaError::ScaleTooLarge));
    assert_eq!(Gamma::new(b(f64::INFINITY), b(f64::INFINITY)), Err(GammaError::ScaleTooLarge));
    // The shape is checked first.
    assert_eq!(Gamma::new(b(-1.0), b(-1.0)), Err(GammaError::ShapeTooSmall));
}

#[test]
fn gamma_schemes() {
    let g = Gamma::new(b(2.0), b(5.0)).unwrap();
    assert_eq!(g.repr(), GammaRepr::Large { shape: b(2.0), scale: b(5.0) });
    let g = Gamma::new(b(1.0), b(5.0)).unwrap();
    assert_eq!(g.repr(), GammaRepr::One { scale: b(5.0) });
    let g = Gamma::new(b(0.5), b(5.0)).unwrap();
    assert_eq!(g.repr(), GammaRepr::Small { shape: b(0.5), scale: b(5.0) });
    let g = Gamma::new(b(f64::INFINITY), b(1.0)).unwrap();
    assert_eq!(g.repr(), GammaRepr::Large { shape: b(f64::INFINITY), scale: b(1.0) });
    // The largest finite scale still has a positive reciprocal.
    let g = Gamma::new(b(1.0), b(f64::MAX)).unwrap();
    assert_eq!(g.repr(), GammaRepr::One { scale: b(f64::MAX) });
    let g = Gamma::new(b(2.0), b(f64::MAX)).unwrap();
    assert_eq!(g.repr(), GammaRepr::Large { shape: b(2.0), scale: b(f64::MAX) });
}

#[test]
fn chi_squared_schemes() {
    let c = ChiSquared::new(b(1.0)).unwrap();
    assert_eq!(c.repr(), ChiSquaredRepr::DoFExactlyOne);
    let c = ChiSquared::new(b(30.0)).unwrap();
    assert_eq!(c.repr(), ChiSquaredRepr::DoFAnythingElse(Gamma::new(b(15.0), b(2.0)).unwrap()));
    let c = ChiSquared::new(b(2.0)).unwrap();
    assert_eq!(
        c.repr(),
        ChiSquaredRepr::DoFAnythingElse(Gamma::new(b(1.0), b(2.0)).unwrap())
    );
    match ChiSquared::new(b(0.5)).unwrap().repr() {
        ChiSquaredRepr::DoFAnythingElse(g) => {
            assert_eq!(g.repr(), GammaRepr::Small { shape: b(0.25), scale: b(2.0) })
        }
        ChiSquaredRepr::DoFExactlyOne => panic!("expected a Gamma distribution"),
    }
}

#[test]
fn chi_squared_errors() {
    assert_eq!(ChiSquared::new(b(0.0)), Err(ChiSquaredError::DoFTooSmall));
    assert_eq!(ChiSquared::new(b(f64::NAN)), Err(ChiSquaredError::DoFTooSmall));
    assert_eq!(ChiSquared::new(b(f64::NEG_INFINITY)), Err(ChiSquaredError::DoFTooSmall));
    // The half of the smallest subnormal rounds to zero.
    assert_eq!(ChiSquared::new(b(MIN_SUBNORMAL)), Err(ChiSquaredError::DoFTooSmall));
    assert!(ChiSquared::new(b(2.0 * MIN_SUBNORMAL)).is_ok());
    assert!(ChiSquared::new(b(f64::INFINITY)).is_ok());
}

#[test]
fn fisher_f() {
    let f = FisherF::new(b(2.0), b(32.0)).unwrap();
    assert_eq!(f.numer(), ChiSquared::new(b(2.0)).unwrap());
    assert_eq!(f.denom(), ChiSquared::new(b(32.0)).unwrap());
    assert_eq!(f.numer_dof(), b(2.0));
    assert_eq!(f.denom_dof(), b(32.0));
    assert_eq!(FisherF::new(b(0.0), b(32.0)), Err(FisherFError::MTooSmall));
    assert_eq!(FisherF::new(b(f64::NAN), b(-1.0)), Err(FisherFError::MTooSmall));
    assert_eq!(FisherF::new(b(2.0), b(-1.0)), Err(FisherFError::NTooSmall));
    assert_eq!(FisherF::new(b(2.0), b(f64::NAN)), Err(FisherFError::NTooSmall));
}

#[test]
fn student_t() {
    let t = StudentT::new(b(11.0)).unwrap();
    assert_eq!(t.chi(), ChiSquared::new(b(11.0)).unwrap());
    assert_eq!(t.dof(), b(11.0));
    assert_eq!(StudentT::new(b(-11.0)), Err(ChiSquaredError::DoFTooSmall));
    assert_eq!(StudentT::new(b(MIN_SUBNORMAL)), Err(ChiSquaredError::DoFTooSmall));
    let t = StudentT::new(b(1.0)).unwrap();
    assert_eq!(t.chi().repr(), ChiSquaredRepr::DoFExactlyOne);
}

#[test]
fn beta() {
    let x = Beta::new(b(1.0), b(2.0)).unwrap();
    assert_eq!(x.gamma_a().repr(), GammaRepr::One { scale: b(1.0) });
    assert_eq!(x.gamma_b().repr(), GammaRepr::Large { shape: b(2.0), scale: b(1.0) });
    assert_eq!(Beta::new(b(0.0), b(0.0)), Err(BetaError::AlphaTooSmall));
    assert_eq!(Beta::new(b(f64::NAN), b(1.0)), Err(BetaError::AlphaTooSmall));
    assert_eq!(Beta::new(b(1.0), b(0.0)), Err(BetaError::BetaTooSmall));
    assert_eq!(Beta::new(b(0.5), b(-3.0)), Err(BetaError::BetaTooSmall));
    let x = Beta::new(b(0.5), b(f64::INFINITY)).unwrap();
    assert_eq!(x.gamma_a().repr(), GammaRepr::Small { shape: b(0.5), scale: b(1.0) });
}
