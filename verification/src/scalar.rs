//! The number type that coordinates, kernel coefficients and coverage values
//! are made of.
use vstd::prelude::*;

verus! {

/// A number type with the four arithmetic operations, a square root, an order
/// and conversions from and to pixel counts.
///
/// Each operation is a function of its arguments alone: the executable method
/// returns exactly what the specification function of the same name gives.
/// Nothing else is assumed about the arithmetic, so every statement proved
/// over this trait holds for rounding arithmetic as well as for exact
/// arithmetic.
pub trait Scalar: Copy + Sized {
    /// The additive identity.
    spec fn spec_zero() -> Self;

    /// The multiplicative identity.
    spec fn spec_one() -> Self;

    /// One half.
    spec fn spec_half() -> Self;

    /// The number nearest to a count.
    spec fn spec_from_usize(n: usize) -> Self;

    /// The count obtained by dropping the fractional part.
    spec fn spec_to_usize(self) -> usize;

    spec fn spec_add(self, rhs: Self) -> Self;

    spec fn spec_sub(self, rhs: Self) -> Self;

    spec fn spec_mul(self, rhs: Self) -> Self;

    spec fn spec_div(self, rhs: Self) -> Self;

    spec fn spec_neg(self) -> Self;

    spec fn spec_sqrt(self) -> Self;

    /// Strict numeric order.
    spec fn spec_lt(self, rhs: Self) -> bool;

    /// Numeric order that admits equality.
    spec fn spec_le(self, rhs: Self) -> bool;

    /// Numeric equality; it may differ from identity of representation.
    spec fn spec_eq(self, rhs: Self) -> bool;

    fn zero() -> (r: Self)
        ensures
            r == Self::spec_zero(),
    ;

    fn one() -> (r: Self)
        ensures
            r == Self::spec_one(),
    ;

    fn half() -> (r: Self)
        ensures
            r == Self::spec_half(),
    ;

    fn from_usize(n: usize) -> (r: Self)
        ensures
            r == Self::spec_from_usize(n),
    ;

    fn to_usize(self) -> (r: usize)
        ensures
            r == self.spec_to_usize(),
    ;

    fn add(self, rhs: Self) -> (r: Self)
        ensures
            r == self.spec_add(rhs),
    ;

    fn sub(self, rhs: Self) -> (r: Self)
        ensures
            r == self.spec_sub(rhs),
    ;

    fn mul(self, rhs: Self) -> (r: Self)
        ensures
            r == self.spec_mul(rhs),
    ;

    fn div(self, rhs: Self) -> (r: Self)
        ensures
            r == self.spec_div(rhs),
    ;

    fn neg(self) -> (r: Self)
        ensures
            r == self.spec_neg(),
    ;

    fn sqrt(self) -> (r: Self)
        ensures
            r == self.spec_sqrt(),
    ;

    fn lt(self, rhs: Self) -> (r: bool)
        ensures
            r == self.spec_lt(rhs),
    ;

    fn le(self, rhs: Self) -> (r: bool)
        ensures
            r == self.spec_le(rhs),
    ;

    fn eq(self, rhs: Self) -> (r: bool)
        ensures
            r == self.spec_eq(rhs),
    ;
}

/// Whether zero behaves in `S` as it does in exact arithmetic: a number less
/// itself is zero, a product with a zero factor is zero, zero over anything
/// but zero is zero, and zero added to zero is zero.
///
/// Arithmetic with infinities or with values that are not numbers does not
/// have this property.
pub open spec fn zero_annihilates<S: Scalar>() -> bool {
    &&& forall|a: S| (#[trigger] a.spec_sub(a)) == S::spec_zero()
    &&& forall|a: S| (#[trigger] S::spec_zero().spec_mul(a)) == S::spec_zero()
    &&& forall|a: S| (#[trigger] a.spec_mul(S::spec_zero())) == S::spec_zero()
    &&& forall|a: S| a != S::spec_zero() ==> (#[trigger] S::spec_zero().spec_div(a)) == S::spec_zero()
    &&& S::spec_zero().spec_add(S::spec_zero()) == S::spec_zero()
}

} // verus!
