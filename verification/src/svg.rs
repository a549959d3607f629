//! Turning the elements and attributes of a vector drawing into segments.
//!
//! The reader of the document hands over what it finds, one element or
//! attribute at a time; the [`Parser`] collects a path of segments for each
//! shape it knows and the nominal size of the canvas.
use vstd::prelude::*;
use crate::scalar::Scalar;
use crate::geometry::{Line, Point, Vec2d};

verus! {

/// A shape as a list of segments.
pub struct Path<S: Scalar> {
    pub lines: Vec<Line<S>>,
}

/// A drawing: its shapes, and its size if the document states one.
pub struct VectorGraphic<S: Scalar> {
    pub paths: Vec<Path<S>>,
    pub size: Option<(S, S)>,
}

/// The elements of a document, as far as they are told apart.
#[derive(Debug, Copy, Clone, PartialEq, Eq)]
pub enum ElementKind {
    Svg,
    Line,
    Polygon,
    Other,
}

/// The attributes of an element, as far as they are told apart.
#[derive(Debug, Copy, Clone, PartialEq, Eq)]
pub enum AttributeKind {
    Width,
    Height,
    X1,
    X2,
    Y1,
    Y2,
    StrokeWidth,
    Points,
    Other,
}

/// The unit that a length is given in.
#[derive(Debug, Copy, Clone, PartialEq, Eq)]
pub enum LengthUnit {
    /// No unit: the number counts pixels.
    Bare,
    In,
    Cm,
    Mm,
    Pt,
    Pc,
    Other,
}

/// The value of an attribute.
pub enum AttributeValue<S: Scalar> {
    Number(S),
    NumberList(Vec<S>),
    Length(S, LengthUnit),
    Other,
}

/// A length is given in a unit that has no size in pixels.
#[derive(Debug, Copy, Clone, PartialEq, Eq)]
pub struct UnsupportedUnit;

/// The size of a unit in pixels at `dpi` dots per inch, if it has one: an
/// inch is `dpi`, a centimetre 0.39 of it, a millimetre 0.039 of it, a point
/// a 72nd and a pica a 6th; a bare number counts pixels.
pub open spec fn spec_unit_size<S: Scalar>(unit: LengthUnit, dpi: S) -> Option<S> {
    match unit {
        LengthUnit::In => Some(dpi),
        LengthUnit::Cm => Some(
            dpi.spec_mul(S::spec_from_usize(39).spec_div(S::spec_from_usize(100))),
        ),
        LengthUnit::Mm => Some(
            dpi.spec_mul(S::spec_from_usize(39).spec_div(S::spec_from_usize(1000))),
        ),
        LengthUnit::Pt => Some(dpi.spec_div(S::spec_from_usize(72))),
        LengthUnit::Pc => Some(dpi.spec_div(S::spec_from_usize(6))),
        LengthUnit::Bare => Some(S::spec_one()),
        LengthUnit::Other => None,
    }
}

/// The size of a unit in pixels at `dpi` dots per inch.
pub fn unit_size<S: Scalar>(unit: LengthUnit, dpi: S) -> (r: Option<S>)
    ensures
        r == spec_unit_size(unit, dpi),
{
    match unit {
        LengthUnit::In => Some(dpi),
        LengthUnit::Cm => Some(dpi.mul(S::from_usize(39).div(S::from_usize(100)))),
        LengthUnit::Mm => Some(dpi.mul(S::from_usize(39).div(S::from_usize(1000)))),
        LengthUnit::Pt => Some(dpi.div(S::from_usize(72))),
        LengthUnit::Pc => Some(dpi.div(S::from_usize(6))),
        LengthUnit::Bare => Some(S::one()),
        LengthUnit::Other => None,
    }
}

/// Collects the size of the canvas from the root element.
pub struct SvgRootMachine<S: Scalar> {
    pub width: Option<S>,
    pub height: Option<S>,
}

impl<S: Scalar> SvgRootMachine<S> {
    pub fn new() -> (r: Self)
        ensures
            r.width is None,
            r.height is None,
    {
        SvgRootMachine { width: None, height: None }
    }

    /// Takes a number for the width or the height; anything else is ignored.
    pub fn attribute(&mut self, id: AttributeKind, val: AttributeValue<S>)
        ensures
            final(self).width == (match (id, val) {
                (AttributeKind::Width, AttributeValue::Number(num)) => Some(num),
                _ => old(self).width,
            }),
            final(self).height == (match (id, val) {
                (AttributeKind::Height, AttributeValue::Number(num)) => Some(num),
                _ => old(self).height,
            }),
    {
        let val = match val {
            AttributeValue::Number(num) => num,
            _ => {
                return ;
            },
        };
        match id {
            AttributeKind::Width => {
                self.width = Some(val);
            },
            AttributeKind::Height => {
                self.height = Some(val);
            },
            _ => {},
        }
    }

    /// The size, if both the width and the height were given.
    pub fn complete(self) -> (r: Option<(S, S)>)
        ensures
            r == (match (self.width, self.height) {
                (Some(width), Some(height)) => Some((width, height)),
                _ => None,
            }),
    {
        match (self.width, self.height) {
            (Some(width), Some(height)) => Some((width, height)),
            _ => None,
        }
    }
}

/// Collects the end points and the stroke width of a line element.
pub struct LineMachine<S: Scalar> {
    pub x1: Option<S>,
    pub y1: Option<S>,
    pub x2: Option<S>,
    pub y2: Option<S>,
    pub width: Option<S>,
}

/// The outline of a stroke of `width` from `(x1, y1)` to `(x2, y2)`: the
/// rectangle whose long sides lie half the width to either side of the line,
/// as four segments that follow one another.
pub open spec fn stroke_outline<S: Scalar>(x1: S, y1: S, x2: S, y2: S, width: S) -> Seq<Line<S>> {
    let v_orth = (Vec2d { x: x2.spec_sub(x1), y: y2.spec_sub(y1) }).spec_orth();
    let v_orth_n = v_orth.spec_div(v_orth.spec_norm());
    let half = v_orth_n.spec_mul(width).spec_div(S::spec_from_usize(2));
    let start = Point { x: x1, y: y1 };
    let end = Point { x: x2, y: y2 };
    let p1 = start.spec_add(half);
    let p2 = end.spec_add(half);
    let p3 = end.spec_sub_vec(half);
    let p4 = start.spec_sub_vec(half);
    seq![
        Line { start: p1, end: p2 },
        Line { start: p2, end: p3 },
        Line { start: p3, end: p4 },
        Line { start: p4, end: p1 },
    ]
}

impl<S: Scalar> LineMachine<S> {
    pub fn new() -> (r: Self)
        ensures
            r.x1 is None,
            r.y1 is None,
            r.x2 is None,
            r.y2 is None,
            r.width is None,
    {
        LineMachine { x1: None, y1: None, x2: None, y2: None, width: None }
    }

    /// Whether all four coordinates were given.
    pub open spec fn is_complete(self) -> bool {
        self.x1 is Some && self.y1 is Some && self.x2 is Some && self.y2 is Some
    }

    /// The segments that the element stands for: the outline of its stroke,
    /// one pixel wide unless a width was given; none if a coordinate is
    /// missing.
    pub open spec fn outline(self) -> Seq<Line<S>> {
        if self.is_complete() {
            stroke_outline(
                self.x1.unwrap(),
                self.y1.unwrap(),
                self.x2.unwrap(),
                self.y2.unwrap(),
                match self.width {
                    Some(width) => width,
                    None => S::spec_one(),
                },
            )
        } else {
            Seq::empty()
        }
    }

    /// Takes a number for a coordinate or the stroke width; anything else is
    /// ignored.
    pub fn attribute(&mut self, id: AttributeKind, val: AttributeValue<S>)
        ensures
            match val {
                AttributeValue::Number(num) => {
                    &&& final(self).x1 == if id == AttributeKind::X1 {
                        Some(num)
                    } else {
                        old(self).x1
                    }
                    &&& final(self).x2 == if id == AttributeKind::X2 {
                        Some(num)
                    } else {
                        old(self).x2
                    }
                    &&& final(self).y1 == if id == AttributeKind::Y1 {
                        Some(num)
                    } else {
                        old(self).y1
                    }
                    &&& final(self).y2 == if id == AttributeKind::Y2 {
                        Some(num)
                    } else {
                        old(self).y2
                    }
                    &&& final(self).width == if id == AttributeKind::StrokeWidth {
                        Some(num)
                    } else {
                        old(self).width
                    }
                },
                _ => *final(self) == *old(self),
            },
    {
        let val = match val {
            AttributeValue::Number(num) => num,
            _ => {
                return ;
            },
        };
        match id {
            AttributeKind::X1 => {
                self.x1 = Some(val);
            },
            AttributeKind::X2 => {
                self.x2 = Some(val);
            },
            AttributeKind::Y1 => {
                self.y1 = Some(val);
            },
            AttributeKind::Y2 => {
                self.y2 = Some(val);
            },
            AttributeKind::StrokeWidth => {
                self.width = Some(val);
            },
            _ => {},
        }
    }

    /// Appends the element's segments to `lines`.
    pub fn complete(self, lines: &mut Vec<Line<S>>)
        ensures
            final(lines)@ == old(lines)@ + self.outline(),
    {
        let x1 = match self.x1 {
            Some(val) => val,
            None => {
                assert(lines@ =~= lines@ + self.outline());
                return ;
            },
        };
        let y1 = match self.y1 {
            Some(val) => val,
            None => {
                assert(lines@ =~= lines@ + self.outline());
                return ;
            },
        };
        let x2 = match self.x2 {
            Some(val) => val,
            None => {
                assert(lines@ =~= lines@ + self.outline());
                return ;
            },
        };
        let y2 = match self.y2 {
            Some(val) => val,
            None => {
                assert(lines@ =~= lines@ + self.outline());
                return ;
            },
        };
        let width = match self.width {
            Some(width) => width,
            None => S::one(),
        };

        let v_orth = Vec2d::new(x2.sub(x1), y2.sub(y1)).orth();
        let v_orth_n = v_orth.div(v_orth.norm());
        let half = v_orth_n.mul(width).div(S::from_usize(2));

        let start = Point::new(x1, y1);
        let end = Point::new(x2, y2);

        let p1 = start.add(half);
        let p2 = end.add(half);
        let p3 = end.sub_vec(half);
        let p4 = start.sub_vec(half);

        lines.push(Line::new(p1, p2));
        lines.push(Line::new(p2, p3));
        lines.push(Line::new(p3, p4));
        lines.push(Line::new(p4, p1));
        assert(lines@ =~= old(lines)@ + self.outline());
    }
}

/// Collects the corners of a polygon element.
pub struct PolygonMachine<S: Scalar> {
    pub pts: Vec<Point<S>>,
}

/// The points that a list of numbers gives, two numbers to a point; a number
/// left over at the end is dropped.
pub open spec fn paired<S: Scalar>(numbers: Seq<S>) -> Seq<Point<S>> {
    Seq::new(
        (numbers.len() / 2) as nat,
        |i: int| Point { x: numbers[2 * i], y: numbers[2 * i + 1] },
    )
}

/// The segments from each point to the next one.
pub open spec fn chained<S: Scalar>(pts: Seq<Point<S>>) -> Seq<Line<S>> {
    if pts.len() < 2 {
        Seq::empty()
    } else {
        Seq::new((pts.len() - 1) as nat, |i: int| Line { start: pts[i], end: pts[i + 1] })
    }
}

impl<S: Scalar> PolygonMachine<S> {
    pub fn new() -> (r: PolygonMachine<S>)
        ensures
            r.pts@.len() == 0,
    {
        PolygonMachine { pts: Vec::new() }
    }

    /// Takes the list of points: it replaces the points held so far, by the
    /// points of a list of numbers, or by none if the value is no such list.
    /// Other attributes are ignored.
    pub fn attribute(&mut self, id: AttributeKind, val: AttributeValue<S>)
        ensures
            final(self).pts@ == (if id == AttributeKind::Points {
                match val {
                    AttributeValue::NumberList(list) => paired(list@),
                    _ => Seq::empty(),
                }
            } else {
                old(self).pts@
            }),
    {
        match id {
            AttributeKind::Points => {
                self.pts.clear();
                if let AttributeValue::NumberList(list) = val {
                    let count = list.len();
                    let pairs = count / 2;
                    let mut i: usize = 0;
                    while i < pairs
                        invariant
                            i <= pairs,
                            count == list@.len(),
                            pairs == count / 2,
                            self.pts@.len() == i,
                            forall|k: int|
                                0 <= k < i ==> self.pts@[k] == (Point {
                                    x: list@[2 * k],
                                    y: list@[2 * k + 1],
                                }),
                        decreases pairs - i,
                    {
                        self.pts.push(Point::new(list[2 * i], list[2 * i + 1]));
                        i += 1;
                    }
                    assert(self.pts@ =~= paired(list@));
                }
            },
            _ => {},
        }
    }

    /// Appends the segments between consecutive corners to `lines`; the last
    /// corner is not joined to the first.
    pub fn complete(self, lines: &mut Vec<Line<S>>)
        ensures
            final(lines)@ == old(lines)@ + chained(self.pts@),
    {
        if self.pts.len() < 2 {
            assert(lines@ =~= lines@ + chained(self.pts@));
            return ;
        }
        let ghost segments = chained(self.pts@);
        let last = self.pts.len() - 1;
        let mut i: usize = 0;
        assert(lines@ =~= old(lines)@ + segments.take(0));
        while i < last
            invariant
                2 <= self.pts@.len(),
                last == self.pts@.len() - 1,
                i <= last,
                segments == chained(self.pts@),
                lines@ == old(lines)@ + segments.take(i as int),
            decreases self.pts@.len() - i,
        {
            lines.push(Line::new(self.pts[i], self.pts[i + 1]));
            assert(segments.take(i + 1) =~= segments.take(i as int).push(segments[i as int]));
            assert(lines@ =~= old(lines)@ + segments.take(i + 1));
            i += 1;
        }
        assert(segments.take(i as int) =~= segments);
    }
}

/// The element that is being read.
pub enum Element<S: Scalar> {
    Svg(SvgRootMachine<S>),
    Line(LineMachine<S>),
    Polygon(PolygonMachine<S>),
}

impl<S: Scalar> Element<S> {
    pub fn element_id(&self) -> (r: ElementKind)
        ensures
            r == (match *self {
                Element::Svg(_) => ElementKind::Svg,
                Element::Line(_) => ElementKind::Line,
                Element::Polygon(_) => ElementKind::Polygon,
            }),
    {
        match *self {
            Element::Svg(_) => ElementKind::Svg,
            Element::Line(_) => ElementKind::Line,
            Element::Polygon(_) => ElementKind::Polygon,
        }
    }
}

/// Builds a drawing from the elements and attributes of a document, in the
/// order in which they occur.
pub struct Parser<S: Scalar> {
    pub result: VectorGraphic<S>,
    pub elem: Option<Element<S>>,
    pub dpi: S,
}

/// The shapes of a drawing, each as its segments.
pub open spec fn shapes<S: Scalar>(paths: Seq<Path<S>>) -> Seq<Seq<Line<S>>> {
    Seq::new(paths.len(), |i: int| paths[i].lines@)
}

impl<S: Scalar> Parser<S> {
    /// A parser that has read nothing yet, for a canvas of `dpi` dots per
    /// inch.
    pub fn new(dpi: S) -> (r: Self)
        ensures
            r.dpi == dpi,
            r.elem is None,
            r.result.size is None,
            r.result.paths@.len() == 0,
    {
        Parser { result: VectorGraphic { paths: Vec::new(), size: None }, elem: None, dpi: dpi }
    }

    /// An element begins. One of the known kinds becomes the element that is
    /// being read, with nothing collected yet; another kind changes nothing.
    pub fn element_start(&mut self, id: ElementKind)
        ensures
            final(self).result == old(self).result,
            final(self).dpi == old(self).dpi,
            match id {
                ElementKind::Svg => final(self).elem matches Some(Element::Svg(m)) && m.width
                    is None && m.height is None,
                ElementKind::Line => final(self).elem matches Some(Element::Line(m))
                    && !m.is_complete() && m.width is None && m.x1 is None && m.x2 is None && m.y1
                    is None && m.y2 is None,
                ElementKind::Polygon => final(self).elem matches Some(Element::Polygon(m))
                    && m.pts@.len() == 0,
                ElementKind::Other => final(self).elem == old(self).elem,
            },
    {
        let elem = match id {
            ElementKind::Svg => Element::Svg(SvgRootMachine::new()),
            ElementKind::Line => Element::Line(LineMachine::new()),
            ElementKind::Polygon => Element::Polygon(PolygonMachine::new()),
            ElementKind::Other => {
                return ;
            },
        };
        self.elem = Some(elem);
    }

    /// The value that an element is given for an attribute: a length becomes
    /// the number of pixels it measures.
    pub open spec fn in_pixels(val: AttributeValue<S>, dpi: S) -> AttributeValue<S> {
        match val {
            AttributeValue::Length(num, unit) => match spec_unit_size(unit, dpi) {
                Some(size) => AttributeValue::Number(num.spec_mul(size)),
                None => AttributeValue::Other,
            },
            other => other,
        }
    }

    /// Whether a value is a length in a unit that has no size in pixels.
    pub open spec fn has_unsupported_unit(val: AttributeValue<S>, dpi: S) -> bool {
        match val {
            AttributeValue::Length(_, unit) => spec_unit_size(unit, dpi) is None,
            _ => false,
        }
    }

    /// An attribute of the element that is being read. Outside a known
    /// element it is ignored. A length in a unit without a size in pixels is
    /// turned down, and nothing changes.
    pub fn attribute(&mut self, id: AttributeKind, val: AttributeValue<S>) -> (r: Result<
        (),
        UnsupportedUnit,
    >)
        ensures
            final(self).result == old(self).result,
            final(self).dpi == old(self).dpi,
            r is Err <==> old(self).elem is Some && Self::has_unsupported_unit(val, old(self).dpi),
            r is Err ==> final(self).elem == old(self).elem,
            old(self).elem is None ==> final(self).elem is None,
            r is Ok ==> match old(self).elem {
                None => true,
                Some(Element::Svg(before)) => final(self).elem matches Some(Element::Svg(after))
                    && after.width == (match (id, Self::in_pixels(val, old(self).dpi)) {
                    (AttributeKind::Width, AttributeValue::Number(num)) => Some(num),
                    _ => before.width,
                }) && after.height == (match (id, Self::in_pixels(val, old(self).dpi)) {
                    (AttributeKind::Height, AttributeValue::Number(num)) => Some(num),
                    _ => before.height,
                }),
                Some(Element::Line(before)) => final(self).elem matches Some(Element::Line(after))
                    && (match Self::in_pixels(val, old(self).dpi) {
                    AttributeValue::Number(num) => {
                        &&& after.x1 == if id == AttributeKind::X1 {
                            Some(num)
                        } else {
                            before.x1
                        }
                        &&& after.x2 == if id == AttributeKind::X2 {
                            Some(num)
                        } else {
                            before.x2
                        }
                        &&& after.y1 == if id == AttributeKind::Y1 {
                            Some(num)
                        } else {
                            before.y1
                        }
                        &&& after.y2 == if id == AttributeKind::Y2 {
                            Some(num)
                        } else {
                            before.y2
                        }
                        &&& after.width == if id == AttributeKind::StrokeWidth {
                            Some(num)
                        } else {
                            before.width
                        }
                    },
                    _ => after == before,
                }),
                Some(Element::Polygon(before)) => final(self).elem matches Some(
                    Element::Polygon(after),
                ) && after.pts@ == (if id == AttributeKind::Points {
                    match val {
                        AttributeValue::NumberList(list) => paired(list@),
                        _ => Seq::empty(),
                    }
                } else {
                    before.pts@
                }),
            },
    {
        let mut elem = match self.elem.take() {
            Some(elem) => elem,
            None => {
                return Ok(());
            },
        };
        let val = match val {
            AttributeValue::Length(num, unit) => match unit_size(unit, self.dpi) {
                Some(size) => AttributeValue::Number(num.mul(size)),
                None => {
                    self.elem = Some(elem);
                    return Err(UnsupportedUnit);
                },
            },
            other => other,
        };
        match elem {
            Element::Svg(mut machine) => {
                machine.attribute(id, val);
                self.elem = Some(Element::Svg(machine));
            },
            Element::Line(mut machine) => {
                machine.attribute(id, val);
                self.elem = Some(Element::Line(machine));
            },
            Element::Polygon(mut machine) => {
                machine.attribute(id, val);
                self.elem = Some(Element::Polygon(machine));
            },
        }
        Ok(())
    }

    /// The start tag of an element ends: what was collected for the element
    /// goes into the drawing. A root element gives the size; a line or a
    /// polygon adds one more path.
    pub fn element_end(&mut self)
        ensures
            final(self).elem is None,
            final(self).dpi == old(self).dpi,
            match old(self).elem {
                None => final(self).result == old(self).result,
                Some(Element::Svg(m)) => {
                    &&& final(self).result.paths == old(self).result.paths
                    &&& final(self).result.size == (match (m.width, m.height) {
                        (Some(width), Some(height)) => Some((width, height)),
                        _ => None,
                    })
                },
                Some(Element::Line(m)) => {
                    &&& final(self).result.size == old(self).result.size
                    &&& shapes(final(self).result.paths@) == shapes(old(self).result.paths@).push(
                        m.outline(),
                    )
                },
                Some(Element::Polygon(m)) => {
                    &&& final(self).result.size == old(self).result.size
                    &&& shapes(final(self).result.paths@) == shapes(old(self).result.paths@).push(
                        chained(m.pts@),
                    )
                },
            },
    {
        match self.elem.take() {
            None => {},
            Some(Element::Svg(mach)) => {
                self.result.size = mach.complete();
            },
            Some(Element::Line(mach)) => {
                let mut new_path: Vec<Line<S>> = Vec::with_capacity(4);
                mach.complete(&mut new_path);
                assert(new_path@ =~= mach.outline());
                self.result.paths.push(Path { lines: new_path });
                assert(shapes(self.result.paths@) =~= shapes(old(self).result.paths@).push(
                    mach.outline(),
                ));
            },
            Some(Element::Polygon(mach)) => {
                let mut new_path: Vec<Line<S>> = Vec::new();
                let ghost pts = mach.pts@;
                mach.complete(&mut new_path);
                assert(new_path@ =~= chained(pts));
                self.result.paths.push(Path { lines: new_path });
                assert(shapes(self.result.paths@) =~= shapes(old(self).result.paths@).push(
                    chained(pts),
                ));
            },
        };
    }

    /// All segments of the drawing, shape after shape.
    pub open spec fn spec_curves(paths: Seq<Path<S>>) -> Seq<Line<S>>
        decreases paths.len(),
    {
        if paths.len() == 0 {
            Seq::empty()
        } else {
            Self::spec_curves(paths.drop_last()) + paths.last().lines@
        }
    }
}

/// All segments of a drawing in one list, shape after shape.
pub fn curves_of<S: Scalar>(graphic: &VectorGraphic<S>) -> (r: Vec<Line<S>>)
    ensures
        r@ == Parser::<S>::spec_curves(graphic.paths@),
{
    let mut curves: Vec<Line<S>> = Vec::new();
    let mut i: usize = 0;
    assert(graphic.paths@.take(0) =~= Seq::<Path<S>>::empty());
    while i < graphic.paths.len()
        invariant
            i <= graphic.paths@.len(),
            curves@ == Parser::<S>::spec_curves(graphic.paths@.take(i as int)),
        decreases graphic.paths@.len() - i,
    {
        assert(graphic.paths@.take(i + 1).drop_last() =~= graphic.paths@.take(i as int));
        let ghost before = curves@;
        let path = &graphic.paths[i];
        let mut k: usize = 0;
        while k < path.lines.len()
            invariant
                k <= path.lines@.len(),
                curves@ == before + path.lines@.take(k as int),
            decreases path.lines@.len() - k,
        {
            curves.push(path.lines[k]);
            assert(path.lines@.take(k + 1) =~= path.lines@.take(k as int).push(
                path.lines@[k as int],
            ));
            assert(curves@ =~= before + path.lines@.take(k + 1));
            k += 1;
        }
        assert(path.lines@.take(k as int) =~= path.lines@);
        i += 1;
    }
    assert(graphic.paths@.take(i as int) =~= graphic.paths@);
    curves
}

} // verus!
