//! The Gamma distribution and the distributions built on it: chi-squared,
//! Fisher F, Student t and Beta.
//!
//! Each constructor checks its parameters exactly as IEEE-754 comparisons do
//! (parameters are `f64` or `f32` bit patterns, see `format`) and chooses the
//! sampling scheme.  A value of one of these types names a
//! distribution; drawing samples from it is floating-point work done by the
//! caller from the parameters held here.
use crate::format::{
    eq, equal, half_of, half_positive, halve, is_positive, less_than, lt, nan, positive,
    positive_infinity, reciprocal_of_positive, reciprocal_positive, smallest_subnormal, Binary,
};
use crate::ieee::{
    lemma_classes, lemma_half_is_positive, lemma_half_unique,
    lemma_half_vanishes, lemma_one_and_two, lemma_reciprocal_of_finite, lemma_trichotomy,
    lemma_zero,
};
use vstd::prelude::*;

verus! {

/// Error type returned from `Gamma::new`.
#[derive(Clone, Copy, Debug, PartialEq, Eq, Structural)]
pub enum Error {
    /// `shape <= 0` or `nan`.
    ShapeTooSmall,
    /// `scale <= 0` or `nan`.
    ScaleTooSmall,
    /// `1 / scale == 0`.
    ScaleTooLarge,
}

/// The sampling scheme of a Gamma distribution, with the parameters it is
/// drawn from.
#[derive(Clone, Copy, Debug, PartialEq, Eq, Structural)]
pub enum GammaRepr<N> {
    /// `shape > 1`: the method of Marsaglia and Tsang with `d = shape - 1/3`.
    Large { shape: N, scale: N },
    /// `shape == 1`: an exponential distribution of rate `1 / scale`.
    One { scale: N },
    /// `shape < 1`: a `Gamma(shape + 1, scale)` sample boosted by `u^(1 / shape)`.
    Small { shape: N, scale: N },
}

/// The Gamma distribution `Gamma(shape, scale)`.
///
/// Its density is `x^(k - 1) * exp(-x / θ) / (Γ(k) * θ^k)`, where `k` is the
/// shape and `θ` the scale, both strictly positive.
#[derive(Clone, Copy, Debug, PartialEq, Eq)]
pub struct Gamma<N: Binary> {
    repr: GammaRepr<N>,
}

impl<N: Binary> View for Gamma<N> {
    type V = GammaRepr<N>;

    closed spec fn view(&self) -> GammaRepr<N> {
        self.repr
    }
}

/// The scheme that `Gamma::new` picks for valid parameters.
pub open spec fn gamma_repr_for<N: Binary>(shape: N, scale: N) -> GammaRepr<N> {
    if eq(shape, N::one_value()) {
        GammaRepr::One { scale }
    } else if lt(shape, N::one_value()) {
        GammaRepr::Small { shape, scale }
    } else {
        GammaRepr::Large { shape, scale }
    }
}

/// Whether `Gamma::new(shape, scale)` succeeds.
pub open spec fn gamma_accepts<N: Binary>(shape: N, scale: N) -> bool {
    &&& positive(shape)
    &&& positive(scale)
    &&& reciprocal_of_positive(scale)
}

/// A scheme that some valid parameters lead to: the shape lies on the side of
/// 1 that the variant names, and the scale is positive with a positive
/// reciprocal.
pub open spec fn valid_gamma_repr<N: Binary>(r: GammaRepr<N>) -> bool {
    match r {
        GammaRepr::Large { shape, scale } => lt(N::one_value(), shape) && positive(scale)
            && reciprocal_of_positive(scale),
        GammaRepr::One { scale } => positive(scale) && reciprocal_of_positive(scale),
        GammaRepr::Small { shape, scale } => positive(shape) && lt(shape, N::one_value())
            && positive(scale) && reciprocal_of_positive(scale),
    }
}

/// The scale of a scheme.
pub open spec fn gamma_scale<N: Binary>(r: GammaRepr<N>) -> N {
    match r {
        GammaRepr::Large { scale, .. } => scale,
        GammaRepr::One { scale } => scale,
        GammaRepr::Small { scale, .. } => scale,
    }
}

impl<N: Binary> Gamma<N> {
    /// The scheme is one that valid parameters lead to.
    pub open spec fn well_formed(&self) -> bool {
        valid_gamma_repr(self@)
    }

    /// Construct an object representing the `Gamma(shape, scale)`
    /// distribution.
    pub fn new(shape: N, scale: N) -> (r: Result<Gamma<N>, Error>)
        ensures
            r matches Err(Error::ShapeTooSmall) <==> !positive(shape),
            r matches Err(Error::ScaleTooSmall) <==> positive(shape) && !positive(scale),
            r matches Err(Error::ScaleTooLarge) <==> positive(shape) && positive(scale)
                && !reciprocal_of_positive(scale),
            r is Ok <==> gamma_accepts(shape, scale),
            r matches Ok(g) ==> g@ == gamma_repr_for(shape, scale) && g.well_formed(),
            r matches Ok(g) ==> {
                &&& (g@ is One <==> eq(shape, N::one_value()))
                &&& (g@ is Small <==> lt(shape, N::one_value()))
                &&& (g@ is Large <==> lt(N::one_value(), shape))
                &&& (g@ matches GammaRepr::One { scale: t } ==> t == scale)
                &&& (g@ matches GammaRepr::Small { shape: u, scale: t } ==> u == shape && t == scale)
                &&& (g@ matches GammaRepr::Large { shape: u, scale: t } ==> u == shape && t == scale)
            },
    {
        let one = N::one();
        if !is_positive(shape) {
            return Err(Error::ShapeTooSmall);
        }
        if !is_positive(scale) {
            return Err(Error::ScaleTooSmall);
        }
        if !reciprocal_positive(scale) {
            return Err(Error::ScaleTooLarge);
        }
        proof {
            N::lemma_format();
            N::lemma_pattern(shape, one);
            lemma_one_and_two(N::exponent_width(), N::fraction_width());
            lemma_trichotomy(N::exponent_width(), N::fraction_width(), shape.pattern(), one.pattern());
        }
        let repr = if equal(shape, one) {
            GammaRepr::One { scale }
        } else if less_than(shape, one) {
            GammaRepr::Small { shape, scale }
        } else {
            GammaRepr::Large { shape, scale }
        };
        Ok(Gamma { repr })
    }

    /// The sampling scheme and its parameters.
    pub fn repr(&self) -> (r: GammaRepr<N>)
        ensures
            r == self@,
    {
        self.repr
    }
}

/// Error type returned from `ChiSquared::new` and `StudentT::new`.
#[derive(Clone, Copy, Debug, PartialEq, Eq, Structural)]
pub enum ChiSquaredError {
    /// `0.5 * k <= 0` or `nan`.
    DoFTooSmall,
}

/// The sampling scheme of a chi-squared distribution.
#[derive(Clone, Copy, Debug, PartialEq, Eq)]
pub enum ChiSquaredRepr<N: Binary> {
    /// `k == 1`: the square of a standard normal sample.
    DoFExactlyOne,
    /// Any other `k`: `Gamma(k / 2, 2)`.
    DoFAnythingElse(Gamma<N>),
}

/// The chi-squared distribution `χ²(k)`, where `k` is the degrees of freedom.
///
/// For `k > 0` integral this is the sum of the squares of `k` independent
/// standard normal variables; for other `k` it is `Gamma(k / 2, 2)`.
#[derive(Clone, Copy, Debug, PartialEq, Eq)]
pub struct ChiSquared<N: Binary> {
    repr: ChiSquaredRepr<N>,
}

impl<N: Binary> View for ChiSquared<N> {
    type V = ChiSquaredRepr<N>;

    closed spec fn view(&self) -> ChiSquaredRepr<N> {
        self.repr
    }
}

/// Whether `ChiSquared::new(k)` succeeds: `k == 1`, or `0.5 * k > 0`.
pub open spec fn chi_squared_accepts<N: Binary>(k: N) -> bool {
    eq(k, N::one_value()) || half_positive(k)
}

/// `c` is the scheme that `ChiSquared::new(k)` picks: the special case for
/// `k == 1`, otherwise `Gamma(0.5 * k, 2)` as `Gamma::new` builds it.
pub open spec fn is_chi_squared_repr_for<N: Binary>(c: ChiSquaredRepr<N>, k: N) -> bool {
    if eq(k, N::one_value()) {
        c == ChiSquaredRepr::<N>::DoFExactlyOne
    } else {
        exists|h: N|
            #[trigger] half_of(h, k) && (c matches ChiSquaredRepr::DoFAnythingElse(g) && g@
                == gamma_repr_for(h, N::two_value()))
    }
}

impl<N: Binary> ChiSquared<N> {
    /// A chi-squared distribution other than `χ²(1)` is a well-formed Gamma
    /// distribution of scale 2.
    pub open spec fn well_formed(&self) -> bool {
        self@ matches ChiSquaredRepr::DoFAnythingElse(g) ==> g.well_formed() && gamma_scale(g@)
            == N::two_value()
    }

    /// Create a new chi-squared distribution with degrees-of-freedom `k`.
    pub fn new(k: N) -> (r: Result<ChiSquared<N>, ChiSquaredError>)
        ensures
            r is Err <==> !chi_squared_accepts(k),
            r matches Ok(c) ==> is_chi_squared_repr_for(c@, k) && c.well_formed(),
            r matches Ok(c) ==> (c@ is DoFExactlyOne <==> eq(k, N::one_value())),
            r matches Ok(c) ==> (c@ matches ChiSquaredRepr::DoFAnythingElse(g) ==> exists|h: N|
                #[trigger] half_of(h, k) && {
                    &&& (g@ is One <==> eq(h, N::one_value()))
                    &&& (g@ is Small <==> lt(h, N::one_value()))
                    &&& (g@ is Large <==> lt(N::one_value(), h))
                    &&& (g@ matches GammaRepr::One { scale: t } ==> t == N::two_value())
                    &&& (g@ matches GammaRepr::Small { shape: u, scale: t } ==> u == h && t == N::two_value())
                    &&& (g@ matches GammaRepr::Large { shape: u, scale: t } ==> u == h && t == N::two_value())
                }),
    {
        proof {
            N::lemma_format();
            lemma_one_and_two(N::exponent_width(), N::fraction_width());
            lemma_zero(N::exponent_width(), N::fraction_width());
        }
        let repr = if equal(k, N::one()) {
            ChiSquaredRepr::DoFExactlyOne
        } else {
            let half_k = halve(k);
            proof {
                N::lemma_pattern(half_k, k);
                N::lemma_pattern(k, k);
                lemma_half_is_positive(
                    N::exponent_width(),
                    N::fraction_width(),
                    half_k.pattern(),
                    k.pattern(),
                );
            }
            if !is_positive(half_k) {
                return Err(ChiSquaredError::DoFTooSmall);
            }
            let g = Gamma::new(half_k, N::two()).unwrap();
            proof {
                assert(half_of(half_k, k));
            }
            ChiSquaredRepr::DoFAnythingElse(g)
        };
        Ok(ChiSquared { repr })
    }

    /// The sampling scheme.
    pub fn repr(&self) -> (r: ChiSquaredRepr<N>)
        ensures
            r == self@,
    {
        self.repr
    }
}

/// Error type returned from `FisherF::new`.
#[derive(Clone, Copy, Debug, PartialEq, Eq, Structural)]
pub enum FisherFError {
    /// `m <= 0` or `nan`.
    MTooSmall,
    /// `n <= 0` or `nan`.
    NTooSmall,
}

/// The Fisher F distribution `F(m, n)`, the ratio of two normalised
/// chi-squared distributions: `F(m, n) = (χ²(m) / m) / (χ²(n) / n)`.
///
/// It holds both chi-squared distributions and both degrees of freedom; a
/// sample is `numer / denom * (n / m)`.
#[derive(Clone, Copy, Debug, PartialEq, Eq)]
pub struct FisherF<N: Binary> {
    numer: ChiSquared<N>,
    denom: ChiSquared<N>,
    numer_dof: N,
    denom_dof: N,
}

impl<N: Binary> View for FisherF<N> {
    /// `(numer, denom, m, n)`.
    type V = (ChiSquared<N>, ChiSquared<N>, N, N);

    closed spec fn view(&self) -> (ChiSquared<N>, ChiSquared<N>, N, N) {
        (self.numer, self.denom, self.numer_dof, self.denom_dof)
    }
}

impl<N: Binary> FisherF<N> {
    /// Both degrees of freedom are positive, and each chi-squared distribution
    /// is the well-formed one its degrees of freedom give.
    pub open spec fn well_formed(&self) -> bool {
        &&& positive(self@.2)
        &&& positive(self@.3)
        &&& is_chi_squared_repr_for(self@.0@, self@.2) && self@.0.well_formed()
        &&& is_chi_squared_repr_for(self@.1@, self@.3) && self@.1.well_formed()
    }

    /// Create a new `FisherF` distribution, with the given parameters.
    ///
    /// When both are positive, each must be one that `ChiSquared::new`
    /// accepts (the only positive value it refuses is the smallest subnormal).
    pub fn new(m: N, n: N) -> (r: Result<FisherF<N>, FisherFError>)
        requires
            positive(m) && positive(n) ==> chi_squared_accepts(m) && chi_squared_accepts(n),
        ensures
            r matches Err(FisherFError::MTooSmall) <==> !positive(m),
            r matches Err(FisherFError::NTooSmall) <==> positive(m) && !positive(n),
            r matches Ok(f) ==> {
                &&& is_chi_squared_repr_for(f@.0@, m)
                &&& is_chi_squared_repr_for(f@.1@, n)
                &&& f@.2 == m
                &&& f@.3 == n
                &&& f.well_formed()
            },
    {
        if !is_positive(m) {
            return Err(FisherFError::MTooSmall);
        }
        if !is_positive(n) {
            return Err(FisherFError::NTooSmall);
        }
        Ok(
            FisherF {
                numer: ChiSquared::new(m).unwrap(),
                denom: ChiSquared::new(n).unwrap(),
                numer_dof: m,
                denom_dof: n,
            },
        )
    }

    /// The numerator's chi-squared distribution, `χ²(m)`.
    pub fn numer(&self) -> (r: ChiSquared<N>)
        ensures
            r == self@.0,
    {
        self.numer
    }

    /// The denominator's chi-squared distribution, `χ²(n)`.
    pub fn denom(&self) -> (r: ChiSquared<N>)
        ensures
            r == self@.1,
    {
        self.denom
    }

    /// The numerator's degrees of freedom, `m`.
    pub fn numer_dof(&self) -> (r: N)
        ensures
            r == self@.2,
    {
        self.numer_dof
    }

    /// The denominator's degrees of freedom, `n`.
    pub fn denom_dof(&self) -> (r: N)
        ensures
            r == self@.3,
    {
        self.denom_dof
    }
}

/// The Student t distribution, `t(nu)`, where `nu` is the degrees of freedom.
#[derive(Clone, Copy, Debug, PartialEq, Eq)]
pub struct StudentT<N: Binary> {
    chi: ChiSquared<N>,
    dof: N,
}

impl<N: Binary> View for StudentT<N> {
    /// `(χ²(nu), nu)`.
    type V = (ChiSquared<N>, N);

    closed spec fn view(&self) -> (ChiSquared<N>, N) {
        (self.chi, self.dof)
    }
}

impl<N: Binary> StudentT<N> {
    /// The chi-squared distribution is the well-formed one the degrees of
    /// freedom give.
    pub open spec fn well_formed(&self) -> bool {
        &&& chi_squared_accepts(self@.1)
        &&& is_chi_squared_repr_for(self@.0@, self@.1)
        &&& self@.0.well_formed()
    }

    /// Create a new Student t distribution with `n` degrees of freedom.
    pub fn new(n: N) -> (r: Result<StudentT<N>, ChiSquaredError>)
        ensures
            r is Err <==> !chi_squared_accepts(n),
            r matches Ok(t) ==> is_chi_squared_repr_for(t@.0@, n) && t@.1 == n && t.well_formed(),
    {
        Ok(StudentT { chi: ChiSquared::new(n)?, dof: n })
    }

    /// The chi-squared distribution `χ²(nu)`.
    pub fn chi(&self) -> (r: ChiSquared<N>)
        ensures
            r == self@.0,
    {
        self.chi
    }

    /// The degrees of freedom `nu`.
    pub fn dof(&self) -> (r: N)
        ensures
            r == self@.1,
    {
        self.dof
    }
}

/// Error type returned from `Beta::new`.
#[derive(Clone, Copy, Debug, PartialEq, Eq, Structural)]
pub enum BetaError {
    /// `alpha <= 0` or `nan`.
    AlphaTooSmall,
    /// `beta <= 0` or `nan`.
    BetaTooSmall,
}

/// The Beta distribution with shape parameters `alpha` and `beta`, drawn as
/// `x / (x + y)` from `x ~ Gamma(alpha, 1)` and `y ~ Gamma(beta, 1)`.
#[derive(Clone, Copy, Debug, PartialEq, Eq)]
pub struct Beta<N: Binary> {
    gamma_a: Gamma<N>,
    gamma_b: Gamma<N>,
}

impl<N: Binary> View for Beta<N> {
    /// `(Gamma(alpha, 1), Gamma(beta, 1))`.
    type V = (Gamma<N>, Gamma<N>);

    closed spec fn view(&self) -> (Gamma<N>, Gamma<N>) {
        (self.gamma_a, self.gamma_b)
    }
}

impl<N: Binary> Beta<N> {
    /// Both Gamma distributions are well formed and have scale 1.
    pub open spec fn well_formed(&self) -> bool {
        &&& self@.0.well_formed() && gamma_scale(self@.0@) == N::one_value()
        &&& self@.1.well_formed() && gamma_scale(self@.1@) == N::one_value()
    }

    /// Construct an object representing the `Beta(alpha, beta)` distribution.
    pub fn new(alpha: N, beta: N) -> (r: Result<Beta<N>, BetaError>)
        ensures
            r matches Err(BetaError::AlphaTooSmall) <==> !positive(alpha),
            r matches Err(BetaError::BetaTooSmall) <==> positive(alpha) && !positive(beta),
            r matches Ok(b) ==> b@.0@ == gamma_repr_for(alpha, N::one_value()) && b@.1@
                == gamma_repr_for(beta, N::one_value()) && b.well_formed(),
            r matches Ok(b) ==> {
                &&& (b@.0@ is One <==> eq(alpha, N::one_value()))
                &&& (b@.0@ is Small <==> lt(alpha, N::one_value()))
                &&& (b@.0@ is Large <==> lt(N::one_value(), alpha))
                &&& (b@.0@ matches GammaRepr::One { scale: t } ==> t == N::one_value())
                &&& (b@.0@ matches GammaRepr::Small { shape: u, scale: t } ==> u == alpha && t == N::one_value())
                &&& (b@.0@ matches GammaRepr::Large { shape: u, scale: t } ==> u == alpha && t == N::one_value())
            },
            r matches Ok(b) ==> {
                &&& (b@.1@ is One <==> eq(beta, N::one_value()))
                &&& (b@.1@ is Small <==> lt(beta, N::one_value()))
                &&& (b@.1@ is Large <==> lt(N::one_value(), beta))
                &&& (b@.1@ matches GammaRepr::One { scale: t } ==> t == N::one_value())
                &&& (b@.1@ matches GammaRepr::Small { shape: u, scale: t } ==> u == beta && t == N::one_value())
                &&& (b@.1@ matches GammaRepr::Large { shape: u, scale: t } ==> u == beta && t == N::one_value())
            },
    {
        proof {
            N::lemma_format();
            lemma_one_and_two(N::exponent_width(), N::fraction_width());
        }
        let gamma_a = match Gamma::new(alpha, N::one()) {
            Ok(g) => g,
            Err(_) => {
                return Err(BetaError::AlphaTooSmall);
            },
        };
        let gamma_b = match Gamma::new(beta, N::one()) {
            Ok(g) => g,
            Err(_) => {
                return Err(BetaError::BetaTooSmall);
            },
        };
        Ok(Beta { gamma_a, gamma_b })
    }

    /// `Gamma(alpha, 1)`.
    pub fn gamma_a(&self) -> (r: Gamma<N>)
        ensures
            r == self@.0,
    {
        self.gamma_a
    }

    /// `Gamma(beta, 1)`.
    pub fn gamma_b(&self) -> (r: Gamma<N>)
        ensures
            r == self@.1,
    {
        self.gamma_b
    }
}

/// Among positive scales, `1 / scale == 0` exactly for `+inf`: so
/// `Gamma::new` refuses a scale as too large exactly when the shape is
/// positive and the scale is `+inf`, and accepts exactly the positive shapes
/// with a positive finite scale.
pub proof fn lemma_gamma_scale_too_large<N: Binary>(shape: N, scale: N)
    ensures
        (positive(shape) && positive(scale) && !reciprocal_of_positive(scale)) <==> (positive(
            shape,
        ) && positive_infinity(scale)),
        gamma_accepts(shape, scale) <==> positive(shape) && positive(scale)
            && !positive_infinity(scale),
{
    let w = N::exponent_width();
    let p = N::fraction_width();
    N::lemma_format();
    N::lemma_pattern(scale, scale);
    N::lemma_pattern(shape, shape);
    lemma_one_and_two(w, p);
    lemma_zero(w, p);
    lemma_classes(w, p, scale.pattern());
    if !nan(shape) {
        lemma_trichotomy(w, p, shape.pattern(), N::one_value().pattern());
    }
    if !nan(scale) && !crate::ieee::sign_is_negative(w, p, scale.pattern())
        && !positive_infinity(scale) {
        lemma_reciprocal_of_finite(w, p, scale.pattern());
    }
}

/// `ChiSquared::new(k)` accepts exactly the positive `k` other than the
/// smallest subnormal (whose half rounds to zero).
pub proof fn lemma_chi_squared_accepts<N: Binary>(k: N)
    ensures
        chi_squared_accepts(k) <==> positive(k) && !smallest_subnormal(k),
{
    let w = N::exponent_width();
    let p = N::fraction_width();
    N::lemma_format();
    N::lemma_pattern(k, k);
    lemma_one_and_two(w, p);
    lemma_zero(w, p);
    lemma_classes(w, p, k.pattern());
    if positive(k) {
        lemma_half_vanishes(w, p, k.pattern());
    }
    if eq(k, N::one_value()) {
        lemma_trichotomy(w, p, k.pattern(), N::one_value().pattern());
        lemma_half_vanishes(w, p, k.pattern());
    }
}

/// The scheme of a chi-squared distribution is fixed by its degrees of
/// freedom.
pub proof fn lemma_chi_squared_repr_unique<N: Binary>(
    c1: ChiSquaredRepr<N>,
    c2: ChiSquaredRepr<N>,
    k: N,
)
    requires
        chi_squared_accepts(k),
        is_chi_squared_repr_for(c1, k),
        is_chi_squared_repr_for(c2, k),
    ensures
        c1 == c2,
{
    if !eq(k, N::one_value()) {
        let h1 = choose|h: N|
            #[trigger] half_of(h, k) && (c1 matches ChiSquaredRepr::DoFAnythingElse(g) && g@
                == gamma_repr_for(h, N::two_value()));
        let h2 = choose|h: N|
            #[trigger] half_of(h, k) && (c2 matches ChiSquaredRepr::DoFAnythingElse(g) && g@
                == gamma_repr_for(h, N::two_value()));
        N::lemma_format();
        N::lemma_pattern(h1, h2);
        N::lemma_pattern(h2, h2);
        N::lemma_pattern(k, k);
        lemma_half_unique(N::exponent_width(), N::fraction_width(), h1.pattern(), h2.pattern(), k.pattern());
        if let ChiSquaredRepr::DoFAnythingElse(g1) = c1 {
            if let ChiSquaredRepr::DoFAnythingElse(g2) = c2 {
                assert(g1 == g2);
            }
        }
    }
}

/// With scale 1, as `Beta::new` builds its Gamma distributions, `Gamma::new`
/// refuses exactly the shapes that are not positive.
pub proof fn lemma_unit_scale_accepted<N: Binary>(shape: N)
    ensures
        gamma_accepts(shape, N::one_value()) <==> positive(shape),
{
    N::lemma_format();
    lemma_one_and_two(N::exponent_width(), N::fraction_width());
}

/// The scheme `Gamma::new` picks follows the shape: an exponential exactly
/// for `shape == 1`, the boosted scheme exactly for `shape < 1`, Marsaglia and
/// Tsang exactly for `shape > 1`, each carrying the given shape and scale.
pub proof fn law_gamma_scheme_follows_shape<N: Binary>(shape: N, scale: N)
    requires
        gamma_accepts(shape, scale),
    ensures
        ({
            let g = gamma_repr_for(shape, scale);
            &&& (g is One <==> eq(shape, N::one_value()))
            &&& (g is Small <==> lt(shape, N::one_value()))
            &&& (g is Large <==> lt(N::one_value(), shape))
            &&& (g matches GammaRepr::One { scale: t } ==> t == scale)
            &&& (g matches GammaRepr::Small { shape: u, scale: t } ==> u == shape && t == scale)
            &&& (g matches GammaRepr::Large { shape: u, scale: t } ==> u == shape && t == scale)
        }),
{
    N::lemma_format();
    N::lemma_pattern(shape, shape);
    lemma_one_and_two(N::exponent_width(), N::fraction_width());
    lemma_zero(N::exponent_width(), N::fraction_width());
    lemma_trichotomy(
        N::exponent_width(),
        N::fraction_width(),
        shape.pattern(),
        N::one_value().pattern(),
    );
}

/// `χ²(k)` is the special case exactly for `k == 1`; for any other accepted
/// `k` it is `Gamma(0.5 * k, 2)`, whose scheme follows the rounded half of `k`
/// and carries it as its shape and 2 as its scale.
pub proof fn law_chi_squared_scheme_follows_half<N: Binary>(c: ChiSquaredRepr<N>, k: N)
    requires
        chi_squared_accepts(k),
        is_chi_squared_repr_for(c, k),
    ensures
        c is DoFExactlyOne <==> eq(k, N::one_value()),
        c matches ChiSquaredRepr::DoFAnythingElse(g) ==> exists|h: N|
            #[trigger] half_of(h, k) && {
                &&& (g@ is One <==> eq(h, N::one_value()))
                &&& (g@ is Small <==> lt(h, N::one_value()))
                &&& (g@ is Large <==> lt(N::one_value(), h))
                &&& (g@ matches GammaRepr::One { scale: t } ==> t == N::two_value())
                &&& (g@ matches GammaRepr::Small { shape: u, scale: t } ==> u == h && t == N::two_value())
                &&& (g@ matches GammaRepr::Large { shape: u, scale: t } ==> u == h && t == N::two_value())
            },
{
    if !eq(k, N::one_value()) {
        let h = choose|h: N|
            #[trigger] half_of(h, k) && (c matches ChiSquaredRepr::DoFAnythingElse(g) && g@
                == gamma_repr_for(h, N::two_value()));
        let w = N::exponent_width();
        let p = N::fraction_width();
        N::lemma_format();
        N::lemma_pattern(h, h);
        N::lemma_pattern(k, k);
        lemma_one_and_two(w, p);
        lemma_zero(w, p);
        lemma_half_is_positive(w, p, h.pattern(), k.pattern());
        lemma_trichotomy(w, p, h.pattern(), N::one_value().pattern());
        law_gamma_scheme_follows_shape(h, N::two_value());
    }
}

} // verus!
