//! Clipping of curves to pixel cells and accumulation of filtered coverage.
use vstd::prelude::*;
use crate::scalar::Scalar;
use crate::geometry::{ImageSize, Line, Point, Rect, Vec2d};
use crate::filter::{piece_count, spec_piece_count, Evaluate, Filter, UnsupportedCurveType};
use vstd::arithmetic::div_mod::lemma_fundamental_div_mod_converse;
use rayon::iter::{IntoParallelIterator, ParallelIterator};

verus! {

/// What the rasterizer needs of a curve: its extent, its part inside a
/// rectangle, and its translation.
pub trait Curve<S: Scalar>: Sized {
    spec fn spec_bounding_box(&self) -> Rect<S>;

    spec fn spec_clip_to_rect(&self, rect: Rect<S>) -> Option<Self>;

    spec fn spec_offset(&self, offset: Vec2d<S>) -> Self;

    fn bounding_box(&self) -> (r: Rect<S>)
        ensures
            r == self.spec_bounding_box(),
    ;

    /// The part of the curve inside `rect`, if there is one.
    fn clip_to_rect(&self, rect: Rect<S>) -> (r: Option<Self>)
        ensures
            r == self.spec_clip_to_rect(rect),
    ;

    /// The curve moved by `offset`; `self` is left as it is.
    fn offset(&self, offset: Vec2d<S>) -> (r: Self)
        ensures
            r == self.spec_offset(offset),
    ;
}

/// The four half-plane constraints of a rectangle on a segment, in the order
/// left, right, top, bottom. Each is a pair `(p, q)`: `p` is the rate at which
/// the segment approaches the edge, `q` the distance of its start from it.
pub open spec fn constraints<S: Scalar>(line: Line<S>, rect: Rect<S>) -> Seq<(S, S)> {
    let delta_x = line.end.x.spec_sub(line.start.x);
    let delta_y = line.end.y.spec_sub(line.start.y);
    let xmin = rect.origin.x;
    let xmax = rect.origin.x.spec_add(rect.size.width);
    let ymin = rect.origin.y;
    let ymax = rect.origin.y.spec_add(rect.size.height);
    seq![
        (delta_x.spec_neg(), line.start.x.spec_sub(xmin)),
        (delta_x, xmax.spec_sub(line.start.x)),
        (delta_y.spec_neg(), line.start.y.spec_sub(ymin)),
        (delta_y, ymax.spec_sub(line.start.y)),
    ]
}

/// The segment runs parallel to the edge and starts beyond it.
pub open spec fn shuts_out<S: Scalar>(c: (S, S)) -> bool {
    &&& !c.0.spec_lt(S::spec_zero())
    &&& !S::spec_zero().spec_lt(c.0)
    &&& c.0.spec_eq(S::spec_zero())
    &&& c.1.spec_lt(S::spec_zero())
}

/// Whether one of the constraints shuts the whole segment out.
pub open spec fn shut_out<S: Scalar>(cs: Seq<(S, S)>) -> bool {
    exists|i: int| 0 <= i < cs.len() && shuts_out(#[trigger] cs[i])
}

/// The parameters at which the segment enters through an edge it moves
/// towards, in the order of the constraints.
pub open spec fn entries<S: Scalar>(cs: Seq<(S, S)>) -> Seq<S>
    decreases cs.len(),
{
    if cs.len() == 0 {
        Seq::empty()
    } else {
        let c = cs.last();
        let before = entries(cs.drop_last());
        if c.0.spec_lt(S::spec_zero()) {
            before.push(c.1.spec_div(c.0))
        } else {
            before
        }
    }
}

/// The parameters at which the segment leaves through an edge it moves away
/// from, in the order of the constraints.
pub open spec fn exits<S: Scalar>(cs: Seq<(S, S)>) -> Seq<S>
    decreases cs.len(),
{
    if cs.len() == 0 {
        Seq::empty()
    } else {
        let c = cs.last();
        let before = exits(cs.drop_last());
        if !c.0.spec_lt(S::spec_zero()) && S::spec_zero().spec_lt(c.0) {
            before.push(c.1.spec_div(c.0))
        } else {
            before
        }
    }
}

/// The greatest member of `s`; of several that are equally great, the last.
pub open spec fn greatest<S: Scalar>(s: Seq<S>) -> S
    recommends
        s.len() > 0,
    decreases s.len(),
{
    if s.len() <= 1 {
        s[0]
    } else {
        let m = greatest(s.drop_last());
        if s.last().spec_lt(m) {
            m
        } else {
            s.last()
        }
    }
}

/// The least member of `s`; of several that are equally small, the first.
pub open spec fn least<S: Scalar>(s: Seq<S>) -> S
    recommends
        s.len() > 0,
    decreases s.len(),
{
    if s.len() <= 1 {
        s[0]
    } else {
        let m = least(s.drop_last());
        if s.last().spec_lt(m) {
            s.last()
        } else {
            m
        }
    }
}

/// The parameter at which the segment enters the rectangle: the greatest of
/// the entry candidates and 0.
pub open spec fn entry_parameter<S: Scalar>(line: Line<S>, rect: Rect<S>) -> S {
    greatest(entries(constraints(line, rect)).push(S::spec_zero()))
}

/// The parameter at which the segment leaves the rectangle: the least of the
/// exit candidates and 1.
pub open spec fn exit_parameter<S: Scalar>(line: Line<S>, rect: Rect<S>) -> S {
    least(exits(constraints(line, rect)).push(S::spec_one()))
}

/// The point of the segment at parameter `t`.
pub open spec fn point_at<S: Scalar>(line: Line<S>, t: S) -> Point<S> {
    line.start.spec_add(line.end.spec_sub(line.start).spec_mul(t))
}

/// The segment lies on the right or on the bottom edge of the rectangle: those
/// edges belong to the neighbouring cells.
pub open spec fn on_far_edge<S: Scalar>(line: Line<S>, rect: Rect<S>) -> bool {
    let xmax = rect.origin.x.spec_add(rect.size.width);
    let ymax = rect.origin.y.spec_add(rect.size.height);
    ||| (line.start.x.spec_eq(xmax) && line.end.x.spec_eq(xmax))
    ||| (line.start.y.spec_eq(ymax) && line.end.y.spec_eq(ymax))
}

/// The part of a segment between its entry and its exit parameter.
pub open spec fn clipped<S: Scalar>(line: Line<S>, rect: Rect<S>) -> Line<S> {
    Line {
        start: point_at(line, entry_parameter(line, rect)),
        end: point_at(line, exit_parameter(line, rect)),
    }
}

/// Parametric clipping of a segment against a rectangle that is half-open on
/// its far edges.
pub open spec fn clip_line<S: Scalar>(line: Line<S>, rect: Rect<S>) -> Option<Line<S>> {
    if shut_out(constraints(line, rect)) {
        None
    } else if exit_parameter(line, rect).spec_lt(entry_parameter(line, rect)) {
        None
    } else if on_far_edge(clipped(line, rect), rect) {
        None
    } else {
        Some(clipped(line, rect))
    }
}

/// The greatest member of a list that is not empty.
fn max_of<S: Scalar>(values: &Vec<S>) -> (r: S)
    requires
        values@.len() > 0,
    ensures
        r == greatest(values@),
{
    let mut best = values[0];
    let mut i: usize = 1;
    assert(values@.take(1).drop_last() =~= Seq::<S>::empty());
    while i < values.len()
        invariant
            1 <= i <= values@.len(),
            best == greatest(values@.take(i as int)),
        decreases values@.len() - i,
    {
        assert(values@.take(i + 1).drop_last() =~= values@.take(i as int));
        if !values[i].lt(best) {
            best = values[i];
        }
        i += 1;
    }
    assert(values@.take(i as int) =~= values@);
    best
}

/// The least member of a list that is not empty.
fn min_of<S: Scalar>(values: &Vec<S>) -> (r: S)
    requires
        values@.len() > 0,
    ensures
        r == least(values@),
{
    let mut best = values[0];
    let mut i: usize = 1;
    while i < values.len()
        invariant
            1 <= i <= values@.len(),
            best == least(values@.take(i as int)),
        decreases values@.len() - i,
    {
        assert(values@.take(i + 1).drop_last() =~= values@.take(i as int));
        if values[i].lt(best) {
            best = values[i];
        }
        i += 1;
    }
    assert(values@.take(i as int) =~= values@);
    best
}

impl<S: Scalar> Curve<S> for Line<S> {
    /// The rectangle spanned by the two end points; it is not normalized.
    open spec fn spec_bounding_box(&self) -> Rect<S> {
        Rect::spec_new(
            self.start.x,
            self.start.y,
            self.end.x.spec_sub(self.start.x),
            self.end.y.spec_sub(self.start.y),
        )
    }

    open spec fn spec_clip_to_rect(&self, rect: Rect<S>) -> Option<Self> {
        clip_line(*self, rect)
    }

    open spec fn spec_offset(&self, offset: Vec2d<S>) -> Self {
        Line { start: self.start.spec_add(offset), end: self.end.spec_add(offset) }
    }

    fn bounding_box(&self) -> (r: Rect<S>) {
        Rect::new(
            self.start.x,
            self.start.y,
            self.end.x.sub(self.start.x),
            self.end.y.sub(self.start.y),
        )
    }

    fn clip_to_rect(&self, rect: Rect<S>) -> (r: Option<Self>) {
        let delta_x = self.end.x.sub(self.start.x);
        let delta_y = self.end.y.sub(self.start.y);
        let xmin = rect.origin.x;
        let xmax = rect.origin.x.add(rect.size.width);
        let ymin = rect.origin.y;
        let ymax = rect.origin.y.add(rect.size.height);

        let pq: [(S, S); 4] = [
            (delta_x.neg(), self.start.x.sub(xmin)),
            (delta_x, xmax.sub(self.start.x)),
            (delta_y.neg(), self.start.y.sub(ymin)),
            (delta_y, ymax.sub(self.start.y)),
        ];
        let ghost cs = constraints(*self, rect);
        assert(pq@ =~= cs);

        let mut lt_zero: Vec<S> = Vec::new();
        let mut gt_zero: Vec<S> = Vec::new();
        let mut i: usize = 0;
        assert(cs.take(0) =~= Seq::<(S, S)>::empty());
        while i < 4
            invariant
                i <= 4,
                pq@ == cs,
                cs == constraints(*self, rect),
                lt_zero@ == entries(cs.take(i as int)),
                gt_zero@ == exits(cs.take(i as int)),
                forall|k: int| 0 <= k < i ==> !shuts_out(#[trigger] cs[k]),
            decreases 4 - i,
        {
            let (p, q) = pq[i];
            assert(cs.take(i + 1).drop_last() =~= cs.take(i as int));
            assert(cs.take(i + 1).last() == cs[i as int]);
            if p.lt(S::zero()) {
                lt_zero.push(q.div(p));
            } else if S::zero().lt(p) {
                gt_zero.push(q.div(p));
            } else if p.eq(S::zero()) && q.lt(S::zero()) {
                assert(shuts_out(cs[i as int]));
                return None;
            }
            i += 1;
        }
        assert(cs.take(4) =~= cs);

        lt_zero.push(S::zero());
        gt_zero.push(S::one());

        let t1 = max_of(&lt_zero);
        let t2 = min_of(&gt_zero);

        if t2.lt(t1) {
            return None;
        }
        let line = Line {
            start: self.start.add(self.end.sub(self.start).mul(t1)),
            end: self.start.add(self.end.sub(self.start).mul(t2)),
        };

        if line.start.x.eq(xmax) && line.end.x.eq(xmax) || line.start.y.eq(ymax) && line.end.y.eq(
            ymax,
        ) {
            return None;
        }
        Some(line)
    }

    fn offset(&self, offset: Vec2d<S>) -> (r: Line<S>) {
        Line { start: self.start.add(offset), end: self.end.add(offset) }
    }
}


/// The cell that every curve is clipped to, once it is moved into the frame
/// of its pixel.
pub open spec fn unit_cell<S: Scalar>() -> Rect<S> {
    Rect::spec_new(S::spec_zero(), S::spec_zero(), S::spec_one(), S::spec_one())
}

/// The translation that takes a curve into the frame of the cell `index` of a
/// row-major grid with `width` columns whose first cell lies at `origin`.
pub open spec fn cell_offset<S: Scalar>(origin: Point<S>, width: int, index: int) -> Vec2d<S> {
    let row = index / width;
    let col = index % width;
    origin.spec_add(
        Vec2d { x: S::spec_from_usize(col as usize), y: S::spec_from_usize(row as usize) },
    ).spec_vec_from_origin().spec_neg()
}

/// The parts of `curves` that lie in the unit cell after translation by
/// `offset`, in the order of the curves.
pub open spec fn fragments<S: Scalar, C: Curve<S>>(curves: Seq<C>, offset: Vec2d<S>) -> Seq<C>
    decreases curves.len(),
{
    if curves.len() == 0 {
        Seq::empty()
    } else {
        let before = fragments(curves.drop_last(), offset);
        match curves.last().spec_offset(offset).spec_clip_to_rect(unit_cell()) {
            Some(part) => before.push(part),
            None => before,
        }
    }
}

/// The contents of a table of cells.
pub open spec fn grid_of<C>(cells: Seq<Vec<C>>) -> Seq<Seq<C>> {
    Seq::new(cells.len(), |i: int| cells[i]@)
}

/// The table of fragments for a grid of `width` by `height` cells.
pub open spec fn cut_grid<S: Scalar, C: Curve<S>>(
    origin: Point<S>,
    width: int,
    height: int,
    curves: Seq<C>,
) -> Seq<Seq<C>> {
    Seq::new((width * height) as nat, |i: int| fragments(curves, cell_offset(origin, width, i)))
}

fn cut_cell<S: Scalar, C: Curve<S>>(origin: Point<S>, curves: &[C], width: usize, index: usize) -> (r:
    Vec<C>)
    requires
        width > 0,
    ensures
        r@ == fragments(curves@, cell_offset(origin, width as int, index as int)),
{
    let row = index / width;
    let col = index % width;
    let pixel_origin = origin.add(Vec2d::new(S::from_usize(col), S::from_usize(row)));
    let offset = pixel_origin.vec_from_origin().neg();
    let pixel_rect = Rect::new(S::zero(), S::zero(), S::one(), S::one());
    let mut parts: Vec<C> = Vec::new();
    let mut i: usize = 0;
    assert(curves@.take(0) =~= Seq::<C>::empty());
    while i < curves.len()
        invariant
            i <= curves@.len(),
            pixel_rect == unit_cell::<S>(),
            parts@ == fragments(curves@.take(i as int), offset),
        decreases curves@.len() - i,
    {
        assert(curves@.take(i + 1).drop_last() =~= curves@.take(i as int));
        match curves[i].offset(offset).clip_to_rect(pixel_rect) {
            Some(part) => {
                parts.push(part);
            },
            None => {},
        }
        i += 1;
    }
    assert(curves@.take(i as int) =~= curves@);
    parts
}

/// Cuts every cell of a grid with rayon's `into_par_iter`, `map` and `collect`
/// on the range of cell numbers. The contract claims that the result holds,
/// at each cell's number, what `cut_cell` returns for that cell: the cells
/// are independent, and collecting an indexed parallel iterator into a `Vec`
/// keeps the order of the range.
#[verifier::external_body]
fn cut_cells<S, C>(origin: Point<S>, curves: &[C], width: usize, count: usize) -> (r: Vec<Vec<C>>) where
    S: Scalar + Send + Sync,
    C: Curve<S> + Send + Sync,

    requires
        count > 0 ==> width > 0,
    ensures
        r@.len() == count,
        forall|i: int|
            0 <= i < count ==> (#[trigger] r@[i])@ == fragments(
                curves@,
                cell_offset(origin, width as int, i),
            ),
{
    (0..count).into_par_iter().map(|index| cut_cell(origin, curves, width, index)).collect()
}

/// Cuts `curves` into the cells of a grid of `size` whose first cell lies at
/// `origin`: cell by cell, row-major, the fragments of the curves in order.
pub fn cut_curves<S, C>(origin: Point<S>, size: ImageSize, curves: &[C]) -> (r: Vec<Vec<C>>) where
    S: Scalar + Send + Sync,
    C: Curve<S> + Send + Sync,

    requires
        size.width * size.height <= usize::MAX,
    ensures
        grid_of(r@) == cut_grid(origin, size.width as int, size.height as int, curves@),
{
    let count = size.width * size.height;
    assert(count > 0 ==> size.width > 0) by (nonlinear_arith)
        requires
            count == size.width * size.height,
    ;
    let cells = cut_cells(origin, curves, size.width, count);
    assert(grid_of(cells@) =~= cut_grid(
        origin,
        size.width as int,
        size.height as int,
        curves@,
    ));
    cells
}

/// Whether the filter has no data for one of the fragments.
pub open spec fn cell_fails<S: Scalar, C, F: Evaluate<S, C>>(
    filter: &F,
    parts: Seq<C>,
    piece: (u32, u32),
) -> bool {
    exists|i: int| 0 <= i < parts.len() && (#[trigger] filter.spec_eval(parts[i], piece)) is Err
}

/// The pair `(value, carried)` after the contributions of `parts` under
/// `piece` are added, one fragment after the other: each pixel value to
/// `value`, each accumulator to `carried`.
pub open spec fn cell_sums<S: Scalar, C, F: Evaluate<S, C>>(
    filter: &F,
    parts: Seq<C>,
    piece: (u32, u32),
    value: S,
    carried: S,
) -> (S, S)
    decreases parts.len(),
{
    if parts.len() == 0 {
        (value, carried)
    } else {
        let before = cell_sums(filter, parts.drop_last(), piece, value, carried);
        match filter.spec_eval(parts.last(), piece) {
            Ok(e) => (before.0.spec_add(e.0), before.1.spec_add(e.1)),
            Err(_) => before,
        }
    }
}

/// The filter piece with the number `index`, where `y_pieces` pieces lie
/// above one another.
pub open spec fn piece_at(index: int, y_pieces: int) -> (u32, u32) {
    ((index / y_pieces) as u32, (index % y_pieces) as u32)
}

/// The cell of the fragment table that `piece` reads for the pixel
/// `(column, scanline)`, where the table has `stride` columns.
pub open spec fn cell_index(stride: int, piece: (u32, u32), scanline: int, column: int) -> int {
    (scanline + piece.1) * stride + (column + piece.0)
}

/// The running accumulator of a sweep from the right end of a scanline, once
/// the columns from `width - 1` down to `column` are done.
pub open spec fn carried_after<S: Scalar, C, F: Evaluate<S, C>>(
    filter: &F,
    grid: Seq<Seq<C>>,
    stride: int,
    piece: (u32, u32),
    scanline: int,
    width: int,
    column: int,
) -> S
    decreases width - column,
{
    if column >= width {
        S::spec_zero()
    } else {
        cell_sums(
            filter,
            grid[cell_index(stride, piece, scanline, column)],
            piece,
            S::spec_zero(),
            carried_after(filter, grid, stride, piece, scanline, width, column + 1),
        ).1
    }
}

/// What one filter piece adds to the pixel `(column, scanline)`: the pixel
/// values of the cell's fragments, plus the accumulator carried so far, the
/// cell's own fragments included.
pub open spec fn swept<S: Scalar, C, F: Evaluate<S, C>>(
    filter: &F,
    grid: Seq<Seq<C>>,
    stride: int,
    piece: (u32, u32),
    scanline: int,
    width: int,
    column: int,
) -> S {
    let sums = cell_sums(
        filter,
        grid[cell_index(stride, piece, scanline, column)],
        piece,
        S::spec_zero(),
        carried_after(filter, grid, stride, piece, scanline, width, column + 1),
    );
    sums.0.spec_add(sums.1)
}

/// The coverage of the pixel `(column, scanline)` after the first `pieces`
/// filter pieces have been added to zero, in the order of their numbers.
pub open spec fn coverage<S: Scalar, C, F: Evaluate<S, C>>(
    filter: &F,
    grid: Seq<Seq<C>>,
    stride: int,
    y_pieces: int,
    scanline: int,
    width: int,
    column: int,
    pieces: nat,
) -> S
    decreases pieces,
{
    if pieces == 0 {
        S::spec_zero()
    } else {
        coverage(
            filter,
            grid,
            stride,
            y_pieces,
            scanline,
            width,
            column,
            (pieces - 1) as nat,
        ).spec_add(
            swept(filter, grid, stride, piece_at(pieces - 1, y_pieces), scanline, width, column),
        )
    }
}

/// Whether the filter has no data for a fragment that `piece` reads for the
/// pixel `(column, scanline)`.
pub open spec fn piece_fails_at<S: Scalar, C, F: Evaluate<S, C>>(
    filter: &F,
    grid: Seq<Seq<C>>,
    stride: int,
    piece: (u32, u32),
    scanline: int,
    column: int,
) -> bool {
    cell_fails(filter, grid[cell_index(stride, piece, scanline, column)], piece)
}

/// Whether the filter has no data for a fragment that the piece with the
/// number `k` reads for the pixel `(column, scanline)`.
pub open spec fn fails_at<S: Scalar, C, F: Evaluate<S, C>>(
    filter: &F,
    grid: Seq<Seq<C>>,
    stride: int,
    y_pieces: int,
    k: int,
    scanline: int,
    column: int,
) -> bool {
    piece_fails_at(filter, grid, stride, piece_at(k, y_pieces), scanline, column)
}

/// Whether the filter has no data for a fragment that one of the first
/// `pieces` pieces reads on the scanline.
pub open spec fn row_fails<S: Scalar, C, F: Evaluate<S, C>>(
    filter: &F,
    grid: Seq<Seq<C>>,
    stride: int,
    y_pieces: int,
    scanline: int,
    width: int,
    pieces: int,
) -> bool {
    exists|k: int, column: int|
        0 <= k < pieces && 0 <= column < width && #[trigger] fails_at(
            filter,
            grid,
            stride,
            y_pieces,
            k,
            scanline,
            column,
        )
}

proof fn lemma_cell_in_grid(stride: int, rows: int, row: int, column: int)
    requires
        0 <= row < rows,
        0 <= column < stride,
    ensures
        0 <= row * stride + column < stride * rows,
{
    assert(row * stride + column < stride * rows) by (nonlinear_arith)
        requires
            0 <= row < rows,
            0 <= column < stride,
    ;
    assert(0 <= row * stride) by (nonlinear_arith)
        requires
            0 <= row,
            0 <= stride,
    ;
}

/// Adds the contributions of one cell's fragments to zero and to `carried`.
fn eval_cell<S: Scalar, C: Copy, F: Evaluate<S, C>>(
    filter: &F,
    parts: &Vec<C>,
    piece: (u32, u32),
    carried: S,
) -> (r: Result<(S, S), UnsupportedCurveType>)
    ensures
        match r {
            Ok(sums) => !cell_fails(filter, parts@, piece) && sums == cell_sums(
                filter,
                parts@,
                piece,
                S::spec_zero(),
                carried,
            ),
            Err(_) => cell_fails(filter, parts@, piece),
        },
{
    let mut value = S::zero();
    let mut accumulator = carried;
    let mut i: usize = 0;
    assert(parts@.take(0) =~= Seq::<C>::empty());
    while i < parts.len()
        invariant
            i <= parts@.len(),
            (value, accumulator) == cell_sums(
                filter,
                parts@.take(i as int),
                piece,
                S::spec_zero(),
                carried,
            ),
            forall|j: int| 0 <= j < i ==> (#[trigger] filter.spec_eval(parts@[j], piece)) is Ok,
        decreases parts@.len() - i,
    {
        assert(parts@.take(i + 1).drop_last() =~= parts@.take(i as int));
        assert(parts@.take(i + 1).last() == parts@[i as int]);
        match filter.eval(parts[i], piece) {
            Ok((pv, acc)) => {
                value = value.add(pv);
                accumulator = accumulator.add(acc);
            },
            Err(e) => {
                return Err(e);
            },
        }
        i += 1;
    }
    assert(parts@.take(i as int) =~= parts@);
    Ok((value, accumulator))
}

/// Sweeps one filter piece over one scanline, from the right to the left, and
/// adds what it contributes to each pixel of `row`.
fn sweep_row<S: Scalar, C: Copy, F: Evaluate<S, C>>(
    filter: &F,
    cells: &Vec<Vec<C>>,
    stride: usize,
    piece: (u32, u32),
    scanline: usize,
    row: &mut Vec<S>,
) -> (r: Result<(), UnsupportedCurveType>)
    requires
        scanline + piece.1 <= usize::MAX,
        old(row)@.len() + piece.0 <= usize::MAX,
        forall|x: int|
            0 <= x < old(row)@.len() ==> 0 <= #[trigger] cell_index(
                stride as int,
                piece,
                scanline as int,
                x,
            ) < cells@.len(),
    ensures
        final(row)@.len() == old(row)@.len(),
        match r {
            Ok(_) => {
                &&& forall|x: int|
                    0 <= x < old(row)@.len() ==> !#[trigger] piece_fails_at(
                        filter,
                        grid_of(cells@),
                        stride as int,
                        piece,
                        scanline as int,
                        x,
                    )
                &&& forall|x: int|
                    0 <= x < old(row)@.len() ==> (#[trigger] final(row)@[x]) == old(row)@[x].spec_add(
                        swept(
                            filter,
                            grid_of(cells@),
                            stride as int,
                            piece,
                            scanline as int,
                            old(row)@.len() as int,
                            x,
                        ),
                    )
            },
            Err(_) => exists|x: int|
                0 <= x < old(row)@.len() && #[trigger] piece_fails_at(
                    filter,
                    grid_of(cells@),
                    stride as int,
                    piece,
                    scanline as int,
                    x,
                ),
        },
{
    let width = row.len();
    let n_cells = cells.len();
    let ghost grid = grid_of(cells@);
    let ghost before = row@;
    let mut accumulator = S::zero();
    let mut column: usize = width;
    while column > 0
        invariant
            column <= width,
            width == before.len(),
            before == old(row)@,
            n_cells == cells@.len(),
            row@.len() == width,
            grid == grid_of(cells@),
            scanline + piece.1 <= usize::MAX,
            width + piece.0 <= usize::MAX,
            forall|x: int|
                0 <= x < width ==> 0 <= #[trigger] cell_index(
                    stride as int,
                    piece,
                    scanline as int,
                    x,
                ) < cells@.len(),
            accumulator == carried_after(
                filter,
                grid,
                stride as int,
                piece,
                scanline as int,
                width as int,
                column as int,
            ),
            forall|x: int| 0 <= x < column ==> row@[x] == before[x],
            forall|x: int|
                column <= x < width ==> !#[trigger] piece_fails_at(
                    filter,
                    grid,
                    stride as int,
                    piece,
                    scanline as int,
                    x,
                ),
            forall|x: int|
                column <= x < width ==> (#[trigger] row@[x]) == before[x].spec_add(
                    swept(filter, grid, stride as int, piece, scanline as int, width as int, x),
                ),
        decreases column,
    {
        column -= 1;
        let ghost at = cell_index(stride as int, piece, scanline as int, column as int);
        assert(0 <= at < cells@.len());
        let curve_index_x = column + piece.0 as usize;
        let curve_index_y = scanline + piece.1 as usize;
        assert(curve_index_y * stride <= at) by (nonlinear_arith)
            requires
                at == curve_index_y * stride + curve_index_x,
        ;
        let curve_index = curve_index_y * stride + curve_index_x;
        assert(curve_index == at);
        assert(grid[at] == cells@[at]@);
        match eval_cell(filter, &cells[curve_index], piece, accumulator) {
            Ok((value, carried)) => {
                accumulator = carried;
                let sum = row[column].add(value.add(carried));
                row.set(column, sum);
            },
            Err(e) => {
                assert(piece_fails_at(
                    filter,
                    grid,
                    stride as int,
                    piece,
                    scanline as int,
                    column as int,
                ));
                return Err(e);
            },
        }
    }
    Ok(())
}


/// A row of `width` zeros.
fn zero_row<S: Scalar>(width: usize) -> (r: Vec<S>)
    ensures
        r@.len() == width,
        forall|x: int| 0 <= x < width ==> r@[x] == S::spec_zero(),
{
    let mut row: Vec<S> = Vec::new();
    let mut x: usize = 0;
    while x < width
        invariant
            x <= width,
            row@.len() == x,
            forall|i: int| 0 <= i < x ==> row@[i] == S::spec_zero(),
        decreases width - x,
    {
        row.push(S::zero());
        x += 1;
    }
    row
}

/// Whether `r` is the outcome of rendering one scanline: the coverage of each
/// of its pixels, or a failure if the filter has no data for a fragment that
/// the scanline needs.
pub open spec fn row_rendered<S: Scalar, C, F: Evaluate<S, C>>(
    filter: &F,
    grid: Seq<Seq<C>>,
    stride: int,
    y_pieces: int,
    scanline: int,
    width: int,
    pieces: int,
    r: Result<Vec<S>, UnsupportedCurveType>,
) -> bool {
    match r {
        Ok(row) => {
            &&& row@.len() == width
            &&& !row_fails(filter, grid, stride, y_pieces, scanline, width, pieces)
            &&& forall|x: int|
                0 <= x < width ==> (#[trigger] row@[x]) == coverage(
                    filter,
                    grid,
                    stride,
                    y_pieces,
                    scanline,
                    width,
                    x,
                    pieces as nat,
                )
        },
        Err(_) => row_fails(filter, grid, stride, y_pieces, scanline, width, pieces),
    }
}

/// Renders every scanline with rayon's `into_par_iter`, `map` and `collect` on
/// the range of scanlines. The contract claims that the result holds, at each
/// scanline's number, what `render_row` returns for it: the scanlines are
/// independent, and collecting an indexed parallel iterator into a `Vec` keeps
/// the order of the range.
#[verifier::external_body]
fn render_rows<S, C, F>(
    filter: &F,
    cells: &Vec<Vec<C>>,
    stride: usize,
    x_pieces: usize,
    y_pieces: usize,
    width: usize,
    height: usize,
) -> (r: Vec<Result<Vec<S>, UnsupportedCurveType>>) where
    S: Scalar + Send + Sync,
    C: Copy + Send + Sync,
    F: Evaluate<S, C> + Sync,

    requires
        1 <= x_pieces <= u32::MAX,
        1 <= y_pieces <= u32::MAX,
        x_pieces * y_pieces <= usize::MAX,
        1 <= width,
        stride == width + x_pieces - 1,
        height + y_pieces <= usize::MAX,
        width + x_pieces <= usize::MAX,
        (height + y_pieces - 1) * stride <= cells@.len(),
    ensures
        r@.len() == height,
        forall|y: int|
            0 <= y < height ==> row_rendered(
                filter,
                grid_of(cells@),
                stride as int,
                y_pieces as int,
                y,
                width as int,
                x_pieces * y_pieces,
                #[trigger] r@[y],
            ),
{
    (0..height).into_par_iter().map(
        |scanline| render_row(filter, cells, stride, x_pieces, y_pieces, scanline, width),
    ).collect()
}

/// The coverage of one scanline: every filter piece swept over it in the order
/// of their numbers, each added to what the pieces before it left.
fn render_row<S: Scalar, C: Copy, F: Evaluate<S, C>>(
    filter: &F,
    cells: &Vec<Vec<C>>,
    stride: usize,
    x_pieces: usize,
    y_pieces: usize,
    scanline: usize,
    width: usize,
) -> (r: Result<Vec<S>, UnsupportedCurveType>)
    requires
        1 <= x_pieces <= u32::MAX,
        1 <= y_pieces <= u32::MAX,
        x_pieces * y_pieces <= usize::MAX,
        1 <= width,
        stride == width + x_pieces - 1,
        scanline + y_pieces <= usize::MAX,
        width + x_pieces <= usize::MAX,
        (scanline + y_pieces) * stride <= cells@.len(),
    ensures
        row_rendered(
            filter,
            grid_of(cells@),
            stride as int,
            y_pieces as int,
            scanline as int,
            width as int,
            x_pieces * y_pieces,
            r,
        ),
{
    let pieces = x_pieces * y_pieces;
    let ghost grid = grid_of(cells@);
    let mut row: Vec<S> = zero_row(width);
    let mut k: usize = 0;
    while k < pieces
        invariant
            k <= pieces,
            pieces == x_pieces * y_pieces,
            1 <= x_pieces <= u32::MAX,
            1 <= y_pieces <= u32::MAX,
            1 <= width,
            stride == width + x_pieces - 1,
            scanline + y_pieces <= usize::MAX,
            width + x_pieces <= usize::MAX,
            (scanline + y_pieces) * stride <= cells@.len(),
            grid == grid_of(cells@),
            row@.len() == width,
            forall|j: int, x: int|
                0 <= j < k && 0 <= x < width ==> !#[trigger] fails_at(
                    filter,
                    grid,
                    stride as int,
                    y_pieces as int,
                    j,
                    scanline as int,
                    x,
                ),
            forall|x: int|
                0 <= x < width ==> (#[trigger] row@[x]) == coverage(
                    filter,
                    grid,
                    stride as int,
                    y_pieces as int,
                    scanline as int,
                    width as int,
                    x,
                    k as nat,
                ),
        decreases pieces - k,
    {
        assert(k / y_pieces < x_pieces) by (nonlinear_arith)
            requires
                k < x_pieces * y_pieces,
                y_pieces >= 1,
        ;
        let piece = ((k / y_pieces) as u32, (k % y_pieces) as u32);
        assert(piece == piece_at(k as int, y_pieces as int));
        proof {
            assert forall|x: int| 0 <= x < width implies 0 <= #[trigger] cell_index(
                stride as int,
                piece,
                scanline as int,
                x,
            ) < cells@.len() by {
                lemma_cell_in_grid(
                    stride as int,
                    scanline + y_pieces,
                    scanline + piece.1,
                    x + piece.0,
                );
            }
        }
        let ghost before = row@;
        match sweep_row(filter, cells, stride, piece, scanline, &mut row) {
            Ok(_) => {
                assert forall|x: int| 0 <= x < width implies !#[trigger] fails_at(
                    filter,
                    grid,
                    stride as int,
                    y_pieces as int,
                    k as int,
                    scanline as int,
                    x,
                ) by {
                    assert(!piece_fails_at(filter, grid, stride as int, piece, scanline as int, x));
                }
                assert forall|x: int| 0 <= x < width implies (#[trigger] row@[x]) == coverage(
                    filter,
                    grid,
                    stride as int,
                    y_pieces as int,
                    scanline as int,
                    width as int,
                    x,
                    (k + 1) as nat,
                ) by {
                    assert(before[x] == coverage(
                        filter,
                        grid,
                        stride as int,
                        y_pieces as int,
                        scanline as int,
                        width as int,
                        x,
                        k as nat,
                    ));
                }
            },
            Err(e) => {
                proof {
                    let x = choose|x: int|
                        0 <= x < width && #[trigger] piece_fails_at(
                            filter,
                            grid,
                            stride as int,
                            piece,
                            scanline as int,
                            x,
                        );
                    assert(fails_at(
                        filter,
                        grid,
                        stride as int,
                        y_pieces as int,
                        k as int,
                        scanline as int,
                        x,
                    ));
                }
                return Err(e);
            },
        }
        k += 1;
    }
    Ok(row)
}

/// The size of the image that a viewport is rendered to.
pub open spec fn image_size<S: Scalar>(viewport: Rect<S>) -> ImageSize {
    ImageSize::spec_from_size(viewport.spec_normalize().size)
}

/// The corner at which the table of fragments begins: the viewport's corner,
/// moved by the lower end of the support and by half a pixel.
pub open spec fn curves_origin<S: Scalar>(viewport: Rect<S>, support: ((S, S), (S, S))) -> Point<S> {
    viewport.spec_normalize().origin.spec_add(
        Vec2d {
            x: support.0.0.spec_add(S::spec_half()),
            y: support.1.0.spec_add(S::spec_half()),
        },
    )
}

/// The number of columns of the table of fragments: the image's width,
/// widened by the support.
pub open spec fn grid_width<S: Scalar>(viewport: Rect<S>, support: ((S, S), (S, S))) -> int {
    image_size(viewport).width + spec_piece_count(support.0) - 1
}

/// The number of rows of the table of fragments.
pub open spec fn grid_height<S: Scalar>(viewport: Rect<S>, support: ((S, S), (S, S))) -> int {
    image_size(viewport).height + spec_piece_count(support.1) - 1
}

/// Whether image, filter pieces and table of fragments can be indexed on this
/// machine.
pub open spec fn raster_fits<S: Scalar>(viewport: Rect<S>, support: ((S, S), (S, S))) -> bool {
    let size = image_size(viewport);
    let x_pieces = spec_piece_count(support.0);
    let y_pieces = spec_piece_count(support.1);
    &&& size.width * size.height <= usize::MAX
    &&& x_pieces <= u32::MAX
    &&& y_pieces <= u32::MAX
    &&& size.width + x_pieces <= usize::MAX
    &&& size.height + y_pieces <= usize::MAX
    &&& (size.width + x_pieces) * (size.height + y_pieces) <= usize::MAX
}

/// The table of fragments that a rasterization works on.
pub open spec fn raster_grid<S: Scalar, C: Curve<S>>(
    viewport: Rect<S>,
    support: ((S, S), (S, S)),
    curves: Seq<C>,
) -> Seq<Seq<C>> {
    cut_grid(
        curves_origin(viewport, support),
        grid_width(viewport, support),
        grid_height(viewport, support),
        curves,
    )
}

/// Whether the filter has no data for one of the fragments it is asked to
/// evaluate.
pub open spec fn raster_fails<S: Scalar, C: Curve<S>, F: Filter<S> + Evaluate<S, C>>(
    viewport: Rect<S>,
    filter: &F,
    curves: Seq<C>,
) -> bool {
    let support = filter.spec_support();
    let size = image_size(viewport);
    exists|y: int|
        0 <= y < size.height && #[trigger] row_fails(
            filter,
            raster_grid(viewport, support, curves),
            grid_width(viewport, support),
            spec_piece_count(support.1) as int,
            y,
            size.width as int,
            spec_piece_count(support.0) * spec_piece_count(support.1),
        )
}

/// The coverage buffer of a rasterization: row-major, the pixel `(x, y)` at
/// `y * width + x`.
pub open spec fn rasterized<S: Scalar, C: Curve<S>, F: Filter<S> + Evaluate<S, C>>(
    viewport: Rect<S>,
    filter: &F,
    curves: Seq<C>,
) -> Seq<S> {
    let support = filter.spec_support();
    let size = image_size(viewport);
    Seq::new(
        (size.width * size.height) as nat,
        |i: int|
            coverage(
                filter,
                raster_grid(viewport, support, curves),
                grid_width(viewport, support),
                spec_piece_count(support.1) as int,
                i / (size.width as int),
                size.width as int,
                i % (size.width as int),
                (spec_piece_count(support.0) * spec_piece_count(support.1)) as nat,
            ),
    )
}

/// Whether `r` and `buffer` are the outcome of a rasterization: a failure if
/// the filter has no data for a fragment it is asked to evaluate, else
/// success and the coverage buffer.
pub open spec fn is_rasterization<S: Scalar, C: Curve<S>, F: Filter<S> + Evaluate<S, C>>(
    viewport: Rect<S>,
    filter: &F,
    curves: Seq<C>,
    r: Result<(), UnsupportedCurveType>,
    buffer: Seq<S>,
) -> bool {
    match r {
        Ok(_) => {
            &&& !raster_fails(viewport, filter, curves)
            &&& buffer == rasterized(viewport, filter, curves)
        },
        Err(_) => raster_fails(viewport, filter, curves),
    }
}

/// Whether a rasterization of `viewport` with a filter of the given support
/// can be indexed on this machine.
pub fn fits<S: Scalar>(viewport: Rect<S>, support: ((S, S), (S, S))) -> (r: bool)
    ensures
        r == raster_fits(viewport, support),
{
    let size = ImageSize::from_size(viewport.normalize().size);
    let x_pieces = piece_count(support.0);
    let y_pieces = piece_count(support.1);
    if x_pieces > u32::MAX as usize || y_pieces > u32::MAX as usize {
        return false;
    }
    if size.width.checked_mul(size.height).is_none() {
        return false;
    }
    let columns = match size.width.checked_add(x_pieces) {
        Some(n) => n,
        None => {
            return false;
        },
    };
    let rows = match size.height.checked_add(y_pieces) {
        Some(n) => n,
        None => {
            return false;
        },
    };
    columns.checked_mul(rows).is_some()
}

/// Rasterizes `curves` under `filter` into `buffer`, which is emptied first.
///
/// The viewport is normalized and widened by the filter's support; the curves
/// are cut into the cells of that region; then each scanline is swept from
/// the right to the left by every filter piece.
pub fn rasterize_parallel<S: Scalar, Flt, C>(
    viewport: Rect<S>,
    filter: &Flt,
    curves: &[C],
    buffer: &mut Vec<S>,
) -> (r: Result<(), UnsupportedCurveType>) where
    S: Send + Sync,
    Flt: Filter<S> + Evaluate<S, C> + Sync,
    C: Curve<S> + Copy + Send + Sync,

    requires
        raster_fits(viewport, filter.spec_support()),
    ensures
        is_rasterization(viewport, filter, curves@, r, final(buffer)@),
{
    let ghost given = viewport;
    let normalized = viewport.normalize();
    let size = ImageSize::from_size(normalized.size);
    let (support_x, support_y) = filter.support();
    let ghost support = filter.spec_support();
    let x_filt_pieces = piece_count(support_x);
    let y_filt_pieces = piece_count(support_y);
    let width = size.width;
    let height = size.height;

    buffer.clear();
    if width == 0 || height == 0 {
        assert(width * height == 0) by (nonlinear_arith)
            requires
                width == 0 || height == 0,
        ;
        assert(buffer@ =~= rasterized(given, filter, curves@));
        return Ok(());
    }
    if x_filt_pieces == 0 || y_filt_pieces == 0 {
        assert(x_filt_pieces * y_filt_pieces == 0) by (nonlinear_arith)
            requires
                x_filt_pieces == 0 || y_filt_pieces == 0,
        ;
        let count = width * height;
        let zeros: Vec<S> = zero_row(count);
        assert(zeros@ =~= rasterized(given, filter, curves@));
        *buffer = zeros;
        return Ok(());
    }
    assert(width + x_filt_pieces <= usize::MAX && height + y_filt_pieces <= usize::MAX
        && x_filt_pieces * y_filt_pieces <= usize::MAX && (width + x_filt_pieces - 1) * (height
        + y_filt_pieces - 1) <= usize::MAX) by (nonlinear_arith)
        requires
            (width + x_filt_pieces) * (height + y_filt_pieces) <= usize::MAX,
            width >= 1,
            height >= 1,
            x_filt_pieces >= 1,
            y_filt_pieces >= 1,
    ;

    let origin = normalized.origin.add(
        Vec2d { x: support_x.0.add(S::half()), y: support_y.0.add(S::half()) },
    );
    let stride = width + x_filt_pieces - 1;
    let rows = height + y_filt_pieces - 1;
    let cells = cut_curves(origin, ImageSize { width: stride, height: rows }, curves);
    let ghost grid = raster_grid(given, support, curves@);
    assert(grid_of(cells@) == grid);
    assert(cells@.len() == stride * rows);
    let rendered = render_rows(
        filter,
        &cells,
        stride,
        x_filt_pieces,
        y_filt_pieces,
        width,
        height,
    );

    let mut scanline: usize = 0;
    while scanline < height
        invariant
            scanline <= height,
            1 <= width,
            1 <= x_filt_pieces <= u32::MAX,
            1 <= y_filt_pieces <= u32::MAX,
            x_filt_pieces * y_filt_pieces <= usize::MAX,
            width + x_filt_pieces <= usize::MAX,
            height + y_filt_pieces <= usize::MAX,
            width * height <= usize::MAX,
            stride == width + x_filt_pieces - 1,
            rows == height + y_filt_pieces - 1,
            cells@.len() == stride * rows,
            grid_of(cells@) == grid,
            given == viewport,
            grid == raster_grid(given, support, curves@),
            support == filter.spec_support(),
            stride == grid_width(given, support),
            width == image_size(given).width,
            height == image_size(given).height,
            x_filt_pieces == spec_piece_count(support.0),
            y_filt_pieces == spec_piece_count(support.1),
            buffer@.len() == scanline * width,
            rendered@.len() == height,
            forall|y: int|
                0 <= y < height ==> row_rendered(
                    filter,
                    grid,
                    stride as int,
                    y_filt_pieces as int,
                    y,
                    width as int,
                    x_filt_pieces * y_filt_pieces,
                    #[trigger] rendered@[y],
                ),
            forall|y: int|
                0 <= y < scanline ==> !#[trigger] row_fails(
                    filter,
                    grid,
                    stride as int,
                    y_filt_pieces as int,
                    y,
                    width as int,
                    x_filt_pieces * y_filt_pieces,
                ),
            forall|i: int|
                0 <= i < buffer@.len() ==> (#[trigger] buffer@[i]) == coverage(
                    filter,
                    grid,
                    stride as int,
                    y_filt_pieces as int,
                    i / (width as int),
                    width as int,
                    i % (width as int),
                    (x_filt_pieces * y_filt_pieces) as nat,
                ),
        decreases height - scanline,
    {
        assert((scanline + 1) * width <= width * height) by (nonlinear_arith)
            requires
                scanline + 1 <= height,
                width >= 0,
        ;
        assert((scanline + 1) * width == scanline * width + width) by (nonlinear_arith);
        let row = match &rendered[scanline] {
            Ok(row) => row,
            Err(e) => {
                assert(row_fails(
                    filter,
                    raster_grid(given, support, curves@),
                    grid_width(given, support),
                    spec_piece_count(support.1) as int,
                    scanline as int,
                    image_size(given).width as int,
                    spec_piece_count(support.0) * spec_piece_count(support.1),
                ));
                return Err(*e);
            },
        };
        let mut column: usize = 0;
        while column < width
            invariant
                column <= width,
                1 <= width,
                row@.len() == width,
                scanline * width + width <= usize::MAX,
                buffer@.len() == scanline * width + column,
                forall|x: int|
                    0 <= x < width ==> (#[trigger] row@[x]) == coverage(
                        filter,
                        grid,
                        stride as int,
                        y_filt_pieces as int,
                        scanline as int,
                        width as int,
                        x,
                        (x_filt_pieces * y_filt_pieces) as nat,
                    ),
                forall|i: int|
                    0 <= i < buffer@.len() ==> (#[trigger] buffer@[i]) == coverage(
                        filter,
                        grid,
                        stride as int,
                        y_filt_pieces as int,
                        i / (width as int),
                        width as int,
                        i % (width as int),
                        (x_filt_pieces * y_filt_pieces) as nat,
                    ),
            decreases width - column,
        {
            proof {
                lemma_fundamental_div_mod_converse(
                    scanline * width + column,
                    width as int,
                    scanline as int,
                    column as int,
                );
            }
            buffer.push(row[column]);
            column += 1;
        }
        scanline += 1;
    }
    assert(buffer@.len() == width * height) by (nonlinear_arith)
        requires
            buffer@.len() == scanline * width,
            scanline == height,
    ;
    assert(buffer@ =~= rasterized(given, filter, curves@));
    Ok(())
}

/// Two rasterizations of the same curves in the same viewport under the same
/// filter both fail or both succeed, and if they succeed their buffers are
/// the same, whatever the buffers held before.
pub proof fn lemma_rasterization_is_determined<
    S: Scalar,
    C: Curve<S>,
    F: Filter<S> + Evaluate<S, C>,
>(
    viewport: Rect<S>,
    filter: &F,
    curves: Seq<C>,
    first: Result<(), UnsupportedCurveType>,
    first_buffer: Seq<S>,
    second: Result<(), UnsupportedCurveType>,
    second_buffer: Seq<S>,
)
    requires
        is_rasterization(viewport, filter, curves, first, first_buffer),
        is_rasterization(viewport, filter, curves, second, second_buffer),
    ensures
        first is Ok <==> second is Ok,
        first is Ok ==> first_buffer == second_buffer,
{
}

/// What clipping returns, case by case. A segment that runs parallel to an
/// edge and starts beyond it has no part in the rectangle. Where a part is
/// returned, the segment is not shut out by any edge, its exit parameter is
/// not below its entry parameter, and the part is the segment between the
/// two and does not lie on a far edge.
pub proof fn lemma_clip_cases<S: Scalar>(line: Line<S>, rect: Rect<S>)
    ensures
        forall|i: int|
            0 <= i < 4 && shuts_out(#[trigger] constraints(line, rect)[i]) ==> clip_line(
                line,
                rect,
            ) is None,
        exit_parameter(line, rect).spec_lt(entry_parameter(line, rect)) ==> clip_line(
            line,
            rect,
        ) is None,
        on_far_edge(clipped(line, rect), rect) ==> clip_line(line, rect) is None,
        clip_line(line, rect) is Some ==> {
            &&& !shut_out(constraints(line, rect))
            &&& !exit_parameter(line, rect).spec_lt(entry_parameter(line, rect))
            &&& !on_far_edge(clipped(line, rect), rect)
            &&& clip_line(line, rect) == Some(clipped(line, rect))
        },
{
}

/// The part that clipping returns is a part of the segment: its entry
/// parameter is not below 0 and its exit parameter not above 1, in every
/// number type in which no two numbers are each less than the other.
pub proof fn lemma_clip_parameters_in_range<S: Scalar>(line: Line<S>, rect: Rect<S>)
    requires
        forall|a: S, b: S| #[trigger] a.spec_lt(b) ==> !b.spec_lt(a),
    ensures
        !entry_parameter(line, rect).spec_lt(S::spec_zero()),
        !S::spec_one().spec_lt(exit_parameter(line, rect)),
{
    let enter = entries(constraints(line, rect));
    let leave = exits(constraints(line, rect));
    assert(enter.push(S::spec_zero()).drop_last() =~= enter);
    assert(leave.push(S::spec_one()).drop_last() =~= leave);
    assert(enter.push(S::spec_zero()).last() == S::spec_zero());
    assert(leave.push(S::spec_one()).last() == S::spec_one());
    assert(!S::spec_zero().spec_lt(S::spec_zero()));
    assert(!S::spec_one().spec_lt(S::spec_one()));
}

/// The coverage of the pixel `(x, y)` stands at `y * width + x` of the
/// buffer, which has one value for each pixel of the image.
pub proof fn lemma_pixel_at<S: Scalar, C: Curve<S>, F: Filter<S> + Evaluate<S, C>>(
    viewport: Rect<S>,
    filter: &F,
    curves: Seq<C>,
    x: int,
    y: int,
)
    requires
        0 <= x < image_size(viewport).width,
        0 <= y < image_size(viewport).height,
    ensures
        rasterized(viewport, filter, curves).len() == image_size(viewport).width * image_size(
            viewport,
        ).height,
        0 <= y * image_size(viewport).width + x < rasterized(viewport, filter, curves).len(),
        rasterized(viewport, filter, curves)[y * image_size(viewport).width + x] == coverage(
            filter,
            raster_grid(viewport, filter.spec_support(), curves),
            grid_width(viewport, filter.spec_support()),
            spec_piece_count(filter.spec_support().1) as int,
            y,
            image_size(viewport).width as int,
            x,
            (spec_piece_count(filter.spec_support().0) * spec_piece_count(
                filter.spec_support().1,
            )) as nat,
        ),
{
    let width = image_size(viewport).width as int;
    let height = image_size(viewport).height as int;
    lemma_cell_in_grid(width, height, y, x);
    lemma_fundamental_div_mod_converse(y * width + x, width, y, x);
}

proof fn lemma_piece_cell_in_grid(
    width: int,
    height: int,
    x_pieces: int,
    y_pieces: int,
    k: int,
    y: int,
    x: int,
)
    requires
        0 <= x < width,
        0 <= y < height,
        0 <= k < x_pieces * y_pieces,
        0 <= x_pieces <= u32::MAX,
        0 <= y_pieces <= u32::MAX,
    ensures
        0 <= cell_index(width + x_pieces - 1, piece_at(k, y_pieces), y, x) < (width + x_pieces
            - 1) * (height + y_pieces - 1),
{
    assert(y_pieces >= 1 && x_pieces >= 1) by (nonlinear_arith)
        requires
            0 <= k < x_pieces * y_pieces,
            0 <= x_pieces,
            0 <= y_pieces,
    ;
    assert(0 <= k / y_pieces < x_pieces) by (nonlinear_arith)
        requires
            0 <= k < x_pieces * y_pieces,
            y_pieces >= 1,
    ;
    let piece = piece_at(k, y_pieces);
    assert(piece.0 == k / y_pieces);
    assert(piece.1 == k % y_pieces);
    lemma_cell_in_grid(
        width + x_pieces - 1,
        height + y_pieces - 1,
        y + piece.1,
        x + piece.0,
    );
}

proof fn lemma_empty_row_carries_nothing<S: Scalar, C, F: Evaluate<S, C>>(
    filter: &F,
    grid: Seq<Seq<C>>,
    stride: int,
    piece: (u32, u32),
    scanline: int,
    width: int,
    column: int,
)
    requires
        0 <= column,
        forall|x: int|
            0 <= x < width ==> (#[trigger] grid[cell_index(stride, piece, scanline, x)]).len()
                == 0,
    ensures
        carried_after(filter, grid, stride, piece, scanline, width, column) == S::spec_zero(),
    decreases width - column,
{
    if column < width {
        lemma_empty_row_carries_nothing(filter, grid, stride, piece, scanline, width, column + 1);
        assert(grid[cell_index(stride, piece, scanline, column)].len() == 0);
    }
}

proof fn lemma_empty_coverage<S: Scalar, C, F: Evaluate<S, C>>(
    filter: &F,
    grid: Seq<Seq<C>>,
    stride: int,
    y_pieces: int,
    scanline: int,
    width: int,
    column: int,
    pieces: nat,
)
    requires
        S::spec_zero().spec_add(S::spec_zero()) == S::spec_zero(),
        0 <= column < width,
        forall|k: int, x: int|
            0 <= k < pieces && 0 <= x < width ==> (#[trigger] grid[cell_index(
                stride,
                piece_at(k, y_pieces),
                scanline,
                x,
            )]).len() == 0,
    ensures
        coverage(filter, grid, stride, y_pieces, scanline, width, column, pieces)
            == S::spec_zero(),
    decreases pieces,
{
    if pieces > 0 {
        lemma_empty_coverage(
            filter,
            grid,
            stride,
            y_pieces,
            scanline,
            width,
            column,
            (pieces - 1) as nat,
        );
        let piece = piece_at(pieces - 1, y_pieces);
        assert forall|x: int| 0 <= x < width implies (#[trigger] grid[cell_index(
            stride,
            piece,
            scanline,
            x,
        )]).len() == 0 by {
            assert(grid[cell_index(stride, piece_at(pieces - 1, y_pieces), scanline, x)].len()
                == 0);
        }
        lemma_empty_row_carries_nothing(
            filter,
            grid,
            stride,
            piece,
            scanline,
            width,
            column + 1,
        );
        assert(grid[cell_index(stride, piece, scanline, column)].len() == 0);
    }
}

/// Without curves nothing fails and every pixel stays zero, in every number
/// type in which zero added to zero is zero.
pub proof fn lemma_no_curves_no_coverage<S: Scalar, C: Curve<S>, F: Filter<S> + Evaluate<S, C>>(
    viewport: Rect<S>,
    filter: &F,
)
    requires
        raster_fits(viewport, filter.spec_support()),
        S::spec_zero().spec_add(S::spec_zero()) == S::spec_zero(),
    ensures
        !raster_fails(viewport, filter, Seq::<C>::empty()),
        forall|i: int|
            0 <= i < rasterized(viewport, filter, Seq::<C>::empty()).len() ==> (
            #[trigger] rasterized(viewport, filter, Seq::<C>::empty())[i]) == S::spec_zero(),
{
    let curves = Seq::<C>::empty();
    let support = filter.spec_support();
    let width = image_size(viewport).width as int;
    let height = image_size(viewport).height as int;
    let x_pieces = spec_piece_count(support.0) as int;
    let y_pieces = spec_piece_count(support.1) as int;
    let stride = grid_width(viewport, support);
    let grid = raster_grid(viewport, support, curves);
    assert forall|k: int, y: int, x: int|
        0 <= k < x_pieces * y_pieces && 0 <= y < height && 0 <= x < width implies (
    #[trigger] grid[cell_index(stride, piece_at(k, y_pieces), y, x)]).len() == 0 by {
        lemma_piece_cell_in_grid(width, height, x_pieces, y_pieces, k, y, x);
    }
    assert forall|y: int| 0 <= y < height implies !#[trigger] row_fails(
        filter,
        grid,
        stride,
        y_pieces,
        y,
        width,
        x_pieces * y_pieces,
    ) by {
        assert forall|k: int, x: int|
            0 <= k < x_pieces * y_pieces && 0 <= x < width implies !#[trigger] fails_at(
                filter,
                grid,
                stride,
                y_pieces,
                k,
                y,
                x,
            ) by {
            assert(grid[cell_index(stride, piece_at(k, y_pieces), y, x)].len() == 0);
        }
    }
    assert forall|i: int| 0 <= i < rasterized(viewport, filter, curves).len() implies (
    #[trigger] rasterized(viewport, filter, curves)[i]) == S::spec_zero() by {
        assert(0 <= i / width < height && 0 <= i % width < width) by (nonlinear_arith)
            requires
                0 <= i < width * height,
                0 <= width,
                0 <= height,
        ;
        let y = i / width;
        assert forall|k: int, x: int|
            0 <= k < x_pieces * y_pieces && 0 <= x < width implies (#[trigger] grid[cell_index(
                stride,
                piece_at(k, y_pieces),
                y,
                x,
            )]).len() == 0 by {
            assert(grid[cell_index(stride, piece_at(k, y_pieces), y, x)].len() == 0);
        }
        assert(x_pieces * y_pieces >= 0) by (nonlinear_arith)
            requires
                x_pieces >= 0,
                y_pieces >= 0,
        ;
        lemma_empty_coverage(
            filter,
            grid,
            stride,
            y_pieces,
            y,
            width,
            i % width,
            (x_pieces * y_pieces) as nat,
        );
    }
}

} // verus!
