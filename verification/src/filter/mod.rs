//! Antialiasing kernels and their exact contribution of a curve to a pixel.
use vstd::prelude::*;
use crate::scalar::Scalar;

pub mod box_filter;
pub mod dynamic_filter;

pub use self::box_filter::BoxFilter;
pub use self::dynamic_filter::DynamicFilter;

verus! {

/// A filter has no kernel data for the curve, or none for the piece asked for.
#[derive(Debug, Copy, Clone, PartialEq, Eq)]
pub struct UnsupportedCurveType;

/// Why a filter description was turned down.
#[derive(Debug, Copy, Clone, PartialEq, Eq)]
pub enum ConfigurationError {
    /// A tile has not as many coefficients as exponent tuples.
    UnpairedCoefficients,
    /// A tile uses an exponent above the greatest one it declares.
    ExponentTooHigh,
    /// The grid of tiles has not one tile for each piece of the support.
    SupportMismatch,
}

/// The extent of a kernel along both axes, in filter pieces: the pair of the
/// horizontal and the vertical range.
pub type Support<S> = ((S, S), (S, S));

/// The number of one-pixel pieces that a range of the support spans.
pub open spec fn spec_piece_count<S: Scalar>(range: (S, S)) -> usize {
    range.1.spec_sub(range.0).spec_to_usize()
}

/// The number of one-pixel pieces that a range of the support spans.
pub fn piece_count<S: Scalar>(range: (S, S)) -> (r: usize)
    ensures
        r == spec_piece_count(range),
{
    range.1.sub(range.0).to_usize()
}

pub trait Filter<S: Scalar> {
    spec fn spec_support(&self) -> Support<S>;

    /// The support of the filter; it never changes.
    fn support(&self) -> (r: Support<S>)
        ensures
            r == self.spec_support(),
    ;
}

pub trait Evaluate<S: Scalar, C> {
    spec fn spec_eval(&self, curve: C, filter_piece: (u32, u32)) -> Result<
        (S, S),
        UnsupportedCurveType,
    >;

    /// The contribution of `curve`, given in the frame of its unit cell, to the
    /// pixel under `filter_piece`, and the part of it that carries over to
    /// every pixel further left on the scanline.
    fn eval(&self, curve: C, filter_piece: (u32, u32)) -> (r: Result<
        (S, S),
        UnsupportedCurveType,
    >)
        ensures
            r == self.spec_eval(curve, filter_piece),
    ;
}

} // verus!
