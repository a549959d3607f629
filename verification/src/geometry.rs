//! Points, displacements, segments and axis-aligned rectangles in pixel space.
use vstd::prelude::*;
use crate::scalar::Scalar;

verus! {

/// A position in pixel space.
#[derive(Debug, Copy, Clone, PartialEq)]
pub struct Point<S: Scalar> {
    pub x: S,
    pub y: S,
}

/// A displacement in pixel space.
#[derive(Debug, Copy, Clone, PartialEq)]
pub struct Vec2d<S: Scalar> {
    pub x: S,
    pub y: S,
}

impl<S: Scalar> Point<S> {
    pub open spec fn spec_origin() -> Point<S> {
        Point { x: S::spec_zero(), y: S::spec_zero() }
    }

    /// The displacement that leads from `rhs` to `self`.
    pub open spec fn spec_sub(self, rhs: Point<S>) -> Vec2d<S> {
        Vec2d { x: self.x.spec_sub(rhs.x), y: self.y.spec_sub(rhs.y) }
    }

    pub open spec fn spec_mul(self, rhs: S) -> Point<S> {
        Point { x: self.x.spec_mul(rhs), y: self.y.spec_mul(rhs) }
    }

    pub open spec fn spec_add(self, rhs: Vec2d<S>) -> Point<S> {
        Point { x: self.x.spec_add(rhs.x), y: self.y.spec_add(rhs.y) }
    }

    pub open spec fn spec_sub_vec(self, rhs: Vec2d<S>) -> Point<S> {
        Point { x: self.x.spec_sub(rhs.x), y: self.y.spec_sub(rhs.y) }
    }

    pub open spec fn spec_vec_from_origin(self) -> Vec2d<S> {
        self.spec_sub(Self::spec_origin())
    }

    pub open spec fn spec_offset(self, delta_x: S, delta_y: S) -> Point<S> {
        self.spec_add(Vec2d { x: delta_x, y: delta_y })
    }

    pub fn origin() -> (r: Point<S>)
        ensures
            r == Self::spec_origin(),
    {
        Point::new(S::zero(), S::zero())
    }

    pub fn new(x: S, y: S) -> (r: Point<S>)
        ensures
            r.x == x,
            r.y == y,
    {
        Point { x: x, y: y }
    }

    pub fn vec_from_origin(self) -> (r: Vec2d<S>)
        ensures
            r == self.spec_vec_from_origin(),
    {
        self.sub(Point::origin())
    }

    /// Moves the point by `delta_x` to the right and by `delta_y` down.
    pub fn offset(self, delta_x: S, delta_y: S) -> (r: Point<S>)
        ensures
            r == self.spec_offset(delta_x, delta_y),
    {
        let delta_vec = Vec2d::new(delta_x, delta_y);
        self.add(delta_vec)
    }

    pub fn sub(self, rhs: Point<S>) -> (r: Vec2d<S>)
        ensures
            r == self.spec_sub(rhs),
    {
        Vec2d { x: self.x.sub(rhs.x), y: self.y.sub(rhs.y) }
    }

    /// Scales both coordinates by `rhs`.
    pub fn mul(self, rhs: S) -> (r: Point<S>)
        ensures
            r == self.spec_mul(rhs),
    {
        Point { x: self.x.mul(rhs), y: self.y.mul(rhs) }
    }

    pub fn add(self, rhs: Vec2d<S>) -> (r: Point<S>)
        ensures
            r == self.spec_add(rhs),
    {
        Point { x: self.x.add(rhs.x), y: self.y.add(rhs.y) }
    }

    pub fn sub_vec(self, rhs: Vec2d<S>) -> (r: Point<S>)
        ensures
            r == self.spec_sub_vec(rhs),
    {
        Point { x: self.x.sub(rhs.x), y: self.y.sub(rhs.y) }
    }
}

impl<S: Scalar> Vec2d<S> {
    /// The vector turned by a quarter: `(y, -x)`.
    pub open spec fn spec_orth(self) -> Vec2d<S> {
        Vec2d { x: self.y, y: self.x.spec_neg() }
    }

    /// The Euclidean length.
    pub open spec fn spec_norm(self) -> S {
        self.x.spec_mul(self.x).spec_add(self.y.spec_mul(self.y)).spec_sqrt()
    }

    pub open spec fn spec_add(self, rhs: Vec2d<S>) -> Vec2d<S> {
        Vec2d { x: self.x.spec_add(rhs.x), y: self.y.spec_add(rhs.y) }
    }

    pub open spec fn spec_sub(self, rhs: Vec2d<S>) -> Vec2d<S> {
        Vec2d { x: self.x.spec_sub(rhs.x), y: self.y.spec_sub(rhs.y) }
    }

    pub open spec fn spec_neg(self) -> Vec2d<S> {
        Vec2d { x: self.x.spec_neg(), y: self.y.spec_neg() }
    }

    pub open spec fn spec_mul(self, rhs: S) -> Vec2d<S> {
        Vec2d { x: self.x.spec_mul(rhs), y: self.y.spec_mul(rhs) }
    }

    pub open spec fn spec_div(self, rhs: S) -> Vec2d<S> {
        Vec2d { x: self.x.spec_div(rhs), y: self.y.spec_div(rhs) }
    }

    pub fn new(x: S, y: S) -> (r: Vec2d<S>)
        ensures
            r.x == x,
            r.y == y,
    {
        Vec2d { x: x, y: y }
    }

    pub fn orth(self) -> (r: Vec2d<S>)
        ensures
            r == self.spec_orth(),
    {
        Vec2d::new(self.y, self.x.neg())
    }

    pub fn norm(self) -> (r: S)
        ensures
            r == self.spec_norm(),
    {
        self.x.mul(self.x).add(self.y.mul(self.y)).sqrt()
    }

    pub fn add(self, rhs: Vec2d<S>) -> (r: Vec2d<S>)
        ensures
            r == self.spec_add(rhs),
    {
        Vec2d { x: self.x.add(rhs.x), y: self.y.add(rhs.y) }
    }

    pub fn sub(self, rhs: Vec2d<S>) -> (r: Vec2d<S>)
        ensures
            r == self.spec_sub(rhs),
    {
        Vec2d { x: self.x.sub(rhs.x), y: self.y.sub(rhs.y) }
    }

    pub fn neg(self) -> (r: Vec2d<S>)
        ensures
            r == self.spec_neg(),
    {
        Vec2d { x: self.x.neg(), y: self.y.neg() }
    }

    pub fn mul(self, rhs: S) -> (r: Vec2d<S>)
        ensures
            r == self.spec_mul(rhs),
    {
        Vec2d { x: self.x.mul(rhs), y: self.y.mul(rhs) }
    }

    pub fn div(self, rhs: S) -> (r: Vec2d<S>)
        ensures
            r == self.spec_div(rhs),
    {
        Vec2d { x: self.x.div(rhs), y: self.y.div(rhs) }
    }
}

/// A directed straight segment; its direction gives the sign of the area it
/// contributes.
#[derive(Debug, Copy, Clone, PartialEq)]
pub struct Line<S: Scalar> {
    pub start: Point<S>,
    pub end: Point<S>,
}

impl<S: Scalar> Line<S> {
    pub fn new(start: Point<S>, end: Point<S>) -> (r: Line<S>)
        ensures
            r.start == start,
            r.end == end,
    {
        Line { start: start, end: end }
    }
}

/// A directed quadratic segment with one control point.
#[derive(Debug, Copy, Clone, PartialEq)]
pub struct QuadraticBezier<S: Scalar> {
    pub start: Point<S>,
    pub control: Point<S>,
    pub end: Point<S>,
}

impl<S: Scalar> QuadraticBezier<S> {
    pub fn new(start: Point<S>, control: Point<S>, end: Point<S>) -> (r: QuadraticBezier<S>)
        ensures
            r.start == start,
            r.control == control,
            r.end == end,
    {
        QuadraticBezier { start: start, control: control, end: end }
    }
}

#[derive(Debug, Copy, Clone, PartialEq)]
pub struct Size<S: Scalar> {
    pub width: S,
    pub height: S,
}

/// An axis-aligned rectangle. Its size may be negative until it is normalized.
#[derive(Debug, Copy, Clone, PartialEq)]
pub struct Rect<S: Scalar> {
    pub origin: Point<S>,
    pub size: Size<S>,
}

impl<S: Scalar> Rect<S> {
    pub open spec fn spec_new(x: S, y: S, width: S, height: S) -> Rect<S> {
        Rect { origin: Point { x: x, y: y }, size: Size { width: width, height: height } }
    }

    /// The same rectangle with a size that is not negative: an extent below
    /// zero is negated and the origin moved by it.
    pub open spec fn spec_normalize(self) -> Rect<S> {
        let flip_x = self.size.width.spec_lt(S::spec_zero());
        let flip_y = self.size.height.spec_lt(S::spec_zero());
        Rect {
            origin: Point {
                x: if flip_x { self.origin.x.spec_add(self.size.width) } else { self.origin.x },
                y: if flip_y { self.origin.y.spec_add(self.size.height) } else { self.origin.y },
            },
            size: Size {
                width: if flip_x { self.size.width.spec_neg() } else { self.size.width },
                height: if flip_y { self.size.height.spec_neg() } else { self.size.height },
            },
        }
    }

    pub open spec fn spec_top_left(self) -> Point<S> {
        self.spec_normalize().origin
    }

    pub open spec fn spec_top_right(self) -> Point<S> {
        let rect = self.spec_normalize();
        rect.origin.spec_offset(rect.size.width, S::spec_zero())
    }

    pub open spec fn spec_bottom_left(self) -> Point<S> {
        let rect = self.spec_normalize();
        rect.origin.spec_offset(S::spec_zero(), rect.size.height)
    }

    pub open spec fn spec_bottom_right(self) -> Point<S> {
        let rect = self.spec_normalize();
        rect.origin.spec_offset(rect.size.width, rect.size.height)
    }

    /// Whether `point` lies in the normalized rectangle, edges included.
    pub open spec fn spec_is_inside(self, point: Point<S>) -> bool {
        let rect = self.spec_normalize();
        &&& rect.spec_top_left().x.spec_le(point.x)
        &&& point.x.spec_le(rect.spec_top_right().x)
        &&& rect.spec_top_left().y.spec_le(point.y)
        &&& point.y.spec_le(rect.spec_bottom_left().y)
    }

    /// Whether one of the corners of `other` lies in `self`.
    pub open spec fn spec_intersects(self, other: Rect<S>) -> bool {
        ||| self.spec_is_inside(other.spec_top_left())
        ||| self.spec_is_inside(other.spec_top_right())
        ||| self.spec_is_inside(other.spec_bottom_left())
        ||| self.spec_is_inside(other.spec_bottom_right())
    }

    /// The unit cell whose top-left corner is the pixel's position.
    pub open spec fn spec_pixel_rect(pixel: (usize, usize)) -> Rect<S> {
        Self::spec_new(
            S::spec_from_usize(pixel.0),
            S::spec_from_usize(pixel.1),
            S::spec_one(),
            S::spec_one(),
        )
    }

    pub fn new(x: S, y: S, width: S, height: S) -> (r: Rect<S>)
        ensures
            r == Self::spec_new(x, y, width, height),
    {
        Rect { origin: Point { x: x, y: y }, size: Size { width: width, height: height } }
    }

    pub fn normalize(self) -> (r: Rect<S>)
        ensures
            r == self.spec_normalize(),
    {
        let mut rect = self;
        if rect.size.width.lt(S::zero()) {
            rect.origin.x = rect.origin.x.add(rect.size.width);
            rect.size.width = rect.size.width.neg();
        }
        if rect.size.height.lt(S::zero()) {
            rect.origin.y = rect.origin.y.add(rect.size.height);
            rect.size.height = rect.size.height.neg();
        }
        rect
    }

    pub fn top_left(self) -> (r: Point<S>)
        ensures
            r == self.spec_top_left(),
    {
        self.normalize().origin
    }

    pub fn top_right(self) -> (r: Point<S>)
        ensures
            r == self.spec_top_right(),
    {
        let rect = self.normalize();
        rect.origin.offset(rect.size.width, S::zero())
    }

    pub fn bottom_left(self) -> (r: Point<S>)
        ensures
            r == self.spec_bottom_left(),
    {
        let rect = self.normalize();
        rect.origin.offset(S::zero(), rect.size.height)
    }

    pub fn bottom_right(self) -> (r: Point<S>)
        ensures
            r == self.spec_bottom_right(),
    {
        let rect = self.normalize();
        rect.origin.offset(rect.size.width, rect.size.height)
    }

    pub fn is_inside(self, point: Point<S>) -> (r: bool)
        ensures
            r == self.spec_is_inside(point),
    {
        let rect = self.normalize();
        rect.top_left().x.le(point.x) && point.x.le(rect.top_right().x)
            && rect.top_left().y.le(point.y) && point.y.le(rect.bottom_left().y)
    }

    pub fn intersects(self, other: Rect<S>) -> (r: bool)
        ensures
            r == self.spec_intersects(other),
    {
        self.is_inside(other.top_left()) || self.is_inside(other.top_right())
            || self.is_inside(other.bottom_left()) || self.is_inside(other.bottom_right())
    }

    pub fn intersects_pixel(self, pixel: (usize, usize)) -> (r: bool)
        ensures
            r == self.spec_intersects(Self::spec_pixel_rect(pixel)),
    {
        let other = Rect::new(S::from_usize(pixel.0), S::from_usize(pixel.1), S::one(), S::one());
        self.intersects(other)
    }
}

/// The extent of an image in whole pixels.
#[derive(Debug, Copy, Clone, PartialEq, Eq)]
pub struct ImageSize {
    pub width: usize,
    pub height: usize,
}

impl<S: Scalar> From<Size<S>> for ImageSize {
    fn from(size: Size<S>) -> (r: ImageSize) {
        ImageSize::from_size(size)
    }
}

impl<S: Scalar> vstd::std_specs::convert::FromSpecImpl<Size<S>> for ImageSize {
    open spec fn obeys_from_spec() -> bool {
        true
    }

    open spec fn from_spec(size: Size<S>) -> ImageSize {
        ImageSize::spec_from_size(size)
    }
}

impl<S: Scalar> Default for Point<S> {
    fn default() -> (r: Point<S>)
        ensures
            r == Self::spec_origin(),
    {
        Point::origin()
    }
}

impl<S: Scalar> Default for Vec2d<S> {
    fn default() -> (r: Vec2d<S>)
        ensures
            r == (Vec2d { x: S::spec_zero(), y: S::spec_zero() }),
    {
        Vec2d::new(S::zero(), S::zero())
    }
}

impl<S: Scalar> Default for Line<S> {
    fn default() -> (r: Line<S>)
        ensures
            r.start == Point::<S>::spec_origin(),
            r.end == Point::<S>::spec_origin(),
    {
        Line::new(Point::origin(), Point::origin())
    }
}

impl<S: Scalar> Default for QuadraticBezier<S> {
    fn default() -> (r: QuadraticBezier<S>)
        ensures
            r.start == Point::<S>::spec_origin(),
            r.control == Point::<S>::spec_origin(),
            r.end == Point::<S>::spec_origin(),
    {
        QuadraticBezier::new(Point::origin(), Point::origin(), Point::origin())
    }
}

impl ImageSize {
    pub open spec fn spec_from_size<S: Scalar>(size: Size<S>) -> ImageSize {
        ImageSize { width: size.width.spec_to_usize(), height: size.height.spec_to_usize() }
    }

    /// The whole-pixel extent of a size: each side's fractional part is dropped.
    pub fn from_size<S: Scalar>(size: Size<S>) -> (r: ImageSize)
        ensures
            r == Self::spec_from_size(size),
    {
        ImageSize { width: size.width.to_usize(), height: size.height.to_usize() }
    }
}

} // verus!
