//! The Gamma distribution and the distributions derived from it (chi-squared,
//! Fisher F, Student t and Beta), with parameters given as IEEE-754 bit
//! patterns of `f64` or `f32`.
pub mod format;
pub mod gamma;
pub mod ieee;

pub use crate::gamma::{
    Beta, BetaError, ChiSquared, ChiSquaredError, ChiSquaredRepr, Error as GammaError, FisherF,
    FisherFError, Gamma, GammaRepr, StudentT,
};
