//! The box kernel: constant over a rectangle, zero elsewhere.
use vstd::prelude::*;
use crate::scalar::{zero_annihilates, Scalar};
use crate::fixed::{lemma_fixed_zero_annihilates, Fixed};
use crate::geometry::Line;
use super::{Evaluate, Filter, Support, UnsupportedCurveType};

verus! {

#[derive(Debug, PartialEq)]
pub struct BoxFilter<S: Scalar> {
    support: Support<S>,
    area: S,
}

impl<S: Scalar> Copy for BoxFilter<S> {
}

impl<S: Scalar> Clone for BoxFilter<S> {
    fn clone(&self) -> (r: Self)
        ensures
            r == *self,
    {
        *self
    }
}

impl<S: Scalar> BoxFilter<S> {
    /// The area under the kernel's rectangle.
    pub closed spec fn area(&self) -> S {
        self.area
    }

    pub closed spec fn extent(&self) -> Support<S> {
        self.support
    }

    /// The signed height that a segment covers, over the kernel's area.
    pub open spec fn accumulator(&self, line: Line<S>) -> S {
        line.end.y.spec_sub(line.start.y).spec_div(self.area())
    }

    /// The signed area between a segment and the vertical axis, by the
    /// trapezoid rule, over the kernel's area.
    pub open spec fn pixel_value(&self, line: Line<S>) -> S {
        S::spec_half().spec_mul(line.end.y.spec_sub(line.start.y)).spec_mul(
            line.end.x.spec_add(line.start.x),
        ).spec_div(self.area())
    }

    /// A box of width `x` and height `y`, centred on the pixel.
    pub fn new(x: S, y: S) -> (r: BoxFilter<S>)
        ensures
            r.area() == x.spec_mul(y),
            r.extent() == (
                (x.spec_neg().spec_div(S::spec_from_usize(2)), x.spec_div(S::spec_from_usize(2))),
                (y.spec_neg().spec_div(S::spec_from_usize(2)), y.spec_div(S::spec_from_usize(2))),
            ),
    {
        let area = x.mul(y);
        let two = S::from_usize(2);
        BoxFilter {
            support: ((x.neg().div(two), x.div(two)), (y.neg().div(two), y.div(two))),
            area: area,
        }
    }
}

impl<S: Scalar> Filter<S> for BoxFilter<S> {
    open spec fn spec_support(&self) -> Support<S> {
        self.extent()
    }

    fn support(&self) -> (r: Support<S>) {
        self.support
    }
}

impl<S: Scalar> Evaluate<S, Line<S>> for BoxFilter<S> {
    open spec fn spec_eval(&self, line: Line<S>, filter_piece: (u32, u32)) -> Result<
        (S, S),
        UnsupportedCurveType,
    > {
        Ok((self.pixel_value(line), self.accumulator(line)))
    }

    fn eval(&self, line: Line<S>, filter_piece: (u32, u32)) -> (r: Result<
        (S, S),
        UnsupportedCurveType,
    >) {
        let accumulator = line.end.y.sub(line.start.y);
        let pixel_value = S::half().mul(accumulator).mul(line.end.x.add(line.start.x));
        Ok((pixel_value.div(self.area), accumulator.div(self.area)))
    }
}

/// A segment that starts where it ends contributes nothing, to the pixel and
/// to the pixels left of it, where zero behaves as in exact arithmetic and the
/// kernel's area is not zero.
pub proof fn lemma_box_point_contributes_nothing<S: Scalar>(
    filter: BoxFilter<S>,
    line: Line<S>,
    filter_piece: (u32, u32),
)
    requires
        zero_annihilates::<S>(),
        filter.area() != S::spec_zero(),
        line.start == line.end,
    ensures
        filter.spec_eval(line, filter_piece) == Ok::<(S, S), UnsupportedCurveType>(
            (S::spec_zero(), S::spec_zero()),
        ),
{
    let dy = line.end.y.spec_sub(line.start.y);
    assert(dy == S::spec_zero());
    assert(S::spec_half().spec_mul(dy) == S::spec_zero());
    assert(S::spec_zero().spec_mul(line.end.x.spec_add(line.start.x)) == S::spec_zero());
    assert(S::spec_zero().spec_div(filter.area()) == S::spec_zero());
}

/// In fixed-point arithmetic a segment that starts where it ends contributes
/// nothing under any box whose area is not zero.
pub proof fn lemma_fixed_box_point_contributes_nothing(
    filter: BoxFilter<Fixed>,
    line: Line<Fixed>,
    filter_piece: (u32, u32),
)
    requires
        filter.area() != Fixed::spec_zero(),
        line.start == line.end,
    ensures
        filter.spec_eval(line, filter_piece) == Ok::<(Fixed, Fixed), UnsupportedCurveType>(
            (Fixed::spec_zero(), Fixed::spec_zero()),
        ),
{
    lemma_fixed_zero_annihilates();
    lemma_box_point_contributes_nothing(filter, line, filter_piece);
}

} // verus!
