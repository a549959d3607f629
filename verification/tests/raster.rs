use rasterization::filter::dynamic_filter::{
    fold, ParametricLine, PowerLookup, PowersLookupTable, Tile, TileSet,
};
use rasterization::filter::{
    piece_count, BoxFilter, ConfigurationError, DynamicFilter, Evaluate, Filter,
    UnsupportedCurveType,
};
use rasterization::geometry::{ImageSize, Line, Point, QuadraticBezier, Rect, Size, Vec2d};
use rasterization::rasterizer::{cut_curves, fits, rasterize_parallel, Curve};
use rasterization::fixed::Fixed;
use rasterization::scalar::Scalar;
use rasterization::svg::{
    curves_of, unit_size, AttributeKind, AttributeValue, ElementKind, LengthUnit, Parser,
    UnsupportedUnit,
};

const EPS: f32 = 1.0e-5;

/// Single-precision numbers as the library's number type.
#[derive(Debug, Clone, Copy, PartialEq)]
struct F(f32);

impl Scalar for F {
    fn spec_zero() -> F {
        F::zero()
    }
    fn spec_one() -> F {
        F::one()
    }
    fn spec_half() -> F {
        F::half()
    }
    fn spec_from_usize(n: usize) -> F {
        F::from_usize(n)
    }
    fn spec_to_usize(self) -> usize {
        self.to_usize()
    }
    fn spec_add(self, rhs: F) -> F {
        self.add(rhs)
    }
    fn spec_sub(self, rhs: F) -> F {
        self.sub(rhs)
    }
    fn spec_mul(self, rhs: F) -> F {
        self.mul(rhs)
    }
    fn spec_div(self, rhs: F) -> F {
        self.div(rhs)
    }
    fn spec_neg(self) -> F {
        self.neg()
    }
    fn spec_sqrt(self) -> F {
        self.sqrt()
    }
    fn spec_lt(self, rhs: F) -> bool {
        self.lt(rhs)
    }
    fn spec_le(self, rhs: F) -> bool {
        self.le(rhs)
    }
    fn spec_eq(self, rhs: F) -> bool {
        Scalar::eq(self, rhs)
    }
    fn zero() -> F {
        F(0.0)
    }
    fn one() -> F {
        F(1.0)
    }
    fn half() -> F {
        F(0.5)
    }
    fn from_usize(n: usize) -> F {
        F(n as f32)
    }
    fn to_usize(self) -> usize {
        self.0 as usize
    }
    fn add(self, rhs: F) -> F {
        F(self.0 + rhs.0)
    }
    fn sub(self, rhs: F) -> F {
        F(self.0 - rhs.0)
    }
    fn mul(self, rhs: F) -> F {
        F(self.0 * rhs.0)
    }
    fn div(self, rhs: F) -> F {
        F(self.0 / rhs.0)
    }
    fn neg(self) -> F {
        F(-self.0)
    }
    fn sqrt(self) -> F {
        F(self.0.sqrt())
    }
    fn lt(self, rhs: F) -> bool {
        self.0 < rhs.0
    }
    fn le(self, rhs: F) -> bool {
        self.0 <= rhs.0
    }
    fn eq(self, rhs: F) -> bool {
        self.0 == rhs.0
    }
}

fn pt(x: f32, y: f32) -> Point<F> {
    Point::new(F(x), F(y))
}

fn line(x1: f32, y1: f32, x2: f32, y2: f32) -> Line<F> {
    Line::new(pt(x1, y1), pt(x2, y2))
}

fn rect(x: f32, y: f32, w: f32, h: f32) -> Rect<F> {
    Rect::new(F(x), F(y), F(w), F(h))
}

fn unit_box() -> BoxFilter<F> {
    BoxFilter::new(F(1.0), F(1.0))
}

fn render(viewport: Rect<F>, curves: &[Line<F>]) -> Vec<f32> {
    let filter = unit_box();
    assert!(fits(viewport, filter.support()));
    let mut buffer = vec![F(7.0)];
    rasterize_parallel(viewport, &filter, curves, &mut buffer).unwrap();
    buffer.into_iter().map(|v| v.0).collect()
}

fn par(ox: f32, oy: f32, vx: f32, vy: f32) -> ParametricLine<F> {
    ParametricLine { origin: (F(ox), F(oy)), vector: (F(vx), F(vy)) }
}

fn tile(coefficients: &[f32], powers: &[[u8; 4]], max_pow: u8) -> Tile<ParametricLine<F>> {
    Tile::new(coefficients.iter().map(|c| F(*c)).collect(), powers.to_vec(), max_pow).unwrap()
}

fn unit_support() -> ((F, F), (F, F)) {
    ((F(-0.5), F(0.5)), (F(-0.5), F(0.5)))
}

fn one_tile_filter(coefficients: &[f32], powers: &[[u8; 4]], max_pow: u8) -> DynamicFilter<F> {
    let tiles = TileSet(vec![vec![tile(coefficients, powers, max_pow)]]);
    DynamicFilter::new(String::from("test"), unit_support(), F(0.5), Some(tiles)).unwrap()
}

#[test]
fn test_power_table() {
    let line = par(1.0, 2.0, 3.0, 4.0);

    let pow_tab = PowersLookupTable::new(line, 5);

    let index_mat: [[u8; 4]; 4] = [[0, 1, 2, 3], [3, 2, 1, 0], [3, 2, 4, 5], [5, 4, 2, 3]];

    let powers_mat = pow_tab.lookup_4x(index_mat);

    println!("{:?}", powers_mat);

    for i in 0..index_mat.len() {
        println!("i = {:?}", i);
        assert!((line.origin.0 .0.powi(index_mat[i][0] as i32) - powers_mat[0][i].0) < EPS);
        assert!((line.origin.1 .0.powi(index_mat[i][1] as i32) - powers_mat[1][i].0) < EPS);
        assert!((line.vector.0 .0.powi(index_mat[i][2] as i32) - powers_mat[2][i].0) < EPS);
        assert!((line.vector.1 .0.powi(index_mat[i][3] as i32) - powers_mat[3][i].0) < EPS);
    }
}

#[test]
fn power_table_holds_every_power() {
    let values = par(1.5, -2.0, 0.5, 3.0);
    for max_pow in 0..=8u8 {
        let table = PowersLookupTable::new(values, max_pow);
        for i in 0..=max_pow {
            let m = table.lookup_4x([[i; 4]; 4]);
            for lane in 0..4 {
                assert_eq!(m[0][lane].0, 1.5f32.powi(i as i32));
                assert_eq!(m[1][lane].0, (-2.0f32).powi(i as i32));
                assert_eq!(m[2][lane].0, 0.5f32.powi(i as i32));
                assert_eq!(m[3][lane].0, 3.0f32.powi(i as i32));
            }
        }
    }
}

#[test]
fn power_lookup_identity_and_product() {
    let one = <ParametricLine<F> as PowerLookup>::identity();
    assert_eq!(one, par(1.0, 1.0, 1.0, 1.0));
    let mut a = par(2.0, 3.0, 4.0, 5.0);
    a.mul_assign(par(10.0, 100.0, 0.5, -1.0));
    assert_eq!(a, par(20.0, 300.0, 2.0, -5.0));
}

#[test]
fn fold_multiplies_down_each_lane() {
    let mat = [
        [F(1.0), F(2.0), F(3.0), F(4.0)],
        [F(1.0), F(1.0), F(2.0), F(0.5)],
        [F(2.0), F(1.0), F(1.0), F(1.0)],
        [F(1.0), F(3.0), F(1.0), F(2.0)],
    ];
    let r = fold(mat, [F(1.0), F(10.0), F(0.0), F(-1.0)]);
    assert_eq!(r, [F(2.0), F(60.0), F(0.0), F(-4.0)]);
}

#[test]
fn point_and_vector_arithmetic() {
    assert_eq!(Point::<F>::origin(), pt(0.0, 0.0));
    assert_eq!(pt(3.0, 4.0).sub(pt(1.0, 1.0)), Vec2d::new(F(2.0), F(3.0)));
    assert_eq!(pt(3.0, 4.0).mul(F(2.0)), pt(6.0, 8.0));
    assert_eq!(pt(3.0, 4.0).vec_from_origin(), Vec2d::new(F(3.0), F(4.0)));
    assert_eq!(pt(3.0, 4.0).offset(F(1.0), F(-1.0)), pt(4.0, 3.0));
    assert_eq!(pt(3.0, 4.0).add(Vec2d::new(F(1.0), F(2.0))), pt(4.0, 6.0));
    assert_eq!(pt(3.0, 4.0).sub_vec(Vec2d::new(F(1.0), F(2.0))), pt(2.0, 2.0));
    let v = Vec2d::new(F(3.0), F(4.0));
    assert_eq!(v.orth(), Vec2d::new(F(4.0), F(-3.0)));
    assert_eq!(v.norm(), F(5.0));
    assert_eq!(v.add(v), Vec2d::new(F(6.0), F(8.0)));
    assert_eq!(v.sub(Vec2d::new(F(1.0), F(1.0))), Vec2d::new(F(2.0), F(3.0)));
    assert_eq!(v.neg(), Vec2d::new(F(-3.0), F(-4.0)));
    assert_eq!(v.mul(F(2.0)), Vec2d::new(F(6.0), F(8.0)));
    assert_eq!(v.div(F(2.0)), Vec2d::new(F(1.5), F(2.0)));
    let q = QuadraticBezier::new(pt(0.0, 0.0), pt(1.0, 2.0), pt(2.0, 0.0));
    assert_eq!(q.control, pt(1.0, 2.0));
    assert_eq!(q.start, pt(0.0, 0.0));
    assert_eq!(q.end, pt(2.0, 0.0));
}

#[test]
fn normalize_gives_a_size_that_is_not_negative() {
    let r = rect(0.0, 1.0, 2.0, 3.0);
    assert_eq!(r, r.normalize());
    assert_eq!(r, rect(2.0, 1.0, -2.0, 3.0).normalize());
    assert_eq!(r, rect(0.0, 4.0, 2.0, -3.0).normalize());
    assert_eq!(r, rect(2.0, 4.0, -2.0, -3.0).normalize());
}

#[test]
fn rect_corners_and_containment() {
    let r = rect(3.0, 5.0, -2.0, -3.0);
    assert_eq!(r.top_left(), pt(1.0, 2.0));
    assert_eq!(r.top_right(), pt(3.0, 2.0));
    assert_eq!(r.bottom_left(), pt(1.0, 5.0));
    assert_eq!(r.bottom_right(), pt(3.0, 5.0));
    assert!(r.is_inside(pt(1.0, 2.0)));
    assert!(r.is_inside(pt(3.0, 5.0)));
    assert!(r.is_inside(pt(2.0, 3.0)));
    assert!(!r.is_inside(pt(0.5, 3.0)));
    assert!(!r.is_inside(pt(2.0, 5.5)));
    assert!(r.intersects(rect(2.5, 4.5, 4.0, 4.0)));
    assert!(!r.intersects(rect(10.0, 10.0, 1.0, 1.0)));
    assert!(r.intersects_pixel((1, 2)));
    assert!(r.intersects_pixel((3, 5)));
    assert!(!r.intersects_pixel((4, 6)));
}

#[test]
fn image_size_drops_the_fraction() {
    let size = ImageSize::from_size(Size { width: F(800.9), height: F(600.0) });
    assert_eq!(size, ImageSize { width: 800, height: 600 });
}

#[test]
fn bounding_box_and_offset_of_a_line() {
    let l = line(3.0, 1.0, 1.0, 4.0);
    assert_eq!(l.bounding_box(), rect(3.0, 1.0, -2.0, 3.0));
    assert_eq!(l.offset(Vec2d::new(F(-1.0), F(2.0))), line(2.0, 3.0, 0.0, 6.0));
    assert_eq!(l, line(3.0, 1.0, 1.0, 4.0));
}

#[test]
fn clip_keeps_a_line_inside() {
    let unit = rect(0.0, 0.0, 1.0, 1.0);
    assert_eq!(line(0.25, 0.25, 0.75, 0.5).clip_to_rect(unit), Some(line(0.25, 0.25, 0.75, 0.5)));
}

#[test]
fn clip_cuts_a_line_that_crosses() {
    let unit = rect(0.0, 0.0, 1.0, 1.0);
    assert_eq!(line(-1.0, 0.5, 2.0, 0.5).clip_to_rect(unit), Some(line(0.0, 0.5, 1.0, 0.5)));
    assert_eq!(line(0.5, 3.0, 0.5, -1.0).clip_to_rect(unit), Some(line(0.5, 1.0, 0.5, 0.0)));
    let wide = rect(0.0, 0.0, 4.0, 2.0);
    assert_eq!(line(-2.0, -1.0, 6.0, 3.0).clip_to_rect(wide), Some(line(0.0, 0.0, 4.0, 2.0)));
}

#[test]
fn clip_is_empty_outside_the_rect() {
    let unit = rect(0.0, 0.0, 1.0, 1.0);
    assert_eq!(line(2.0, 2.0, 3.0, 3.0).clip_to_rect(unit), None);
    assert_eq!(line(-1.0, 0.5, -0.5, 0.5).clip_to_rect(unit), None);
    assert_eq!(line(2.0, -1.0, 3.0, 0.5).clip_to_rect(unit), None);
    // parallel to an edge and beyond it
    assert_eq!(line(-0.5, 0.0, -0.5, 1.0).clip_to_rect(unit), None);
    assert_eq!(line(0.0, 1.5, 1.0, 1.5).clip_to_rect(unit), None);
}

#[test]
fn clip_drops_what_lies_on_a_far_edge() {
    let unit = rect(0.0, 0.0, 1.0, 1.0);
    assert_eq!(line(1.0, 0.0, 1.0, 1.0).clip_to_rect(unit), None);
    assert_eq!(line(1.0, 1.0, 0.0, 1.0).clip_to_rect(unit), None);
    // colinear with the far edge and outside
    assert_eq!(line(1.0, 2.0, 1.0, 3.0).clip_to_rect(unit), None);
    // the near edges belong to the cell
    assert_eq!(line(0.0, 0.0, 0.0, 1.0).clip_to_rect(unit), Some(line(0.0, 0.0, 0.0, 1.0)));
    assert_eq!(line(0.0, 0.0, 1.0, 0.0).clip_to_rect(unit), Some(line(0.0, 0.0, 1.0, 0.0)));
    // the far edge of a rect that is not the unit cell
    let wide = rect(1.0, 1.0, 2.0, 2.0);
    assert_eq!(line(3.0, 1.0, 3.0, 3.0).clip_to_rect(wide), None);
    assert_eq!(line(1.0, 1.0, 1.0, 3.0).clip_to_rect(wide), Some(line(1.0, 1.0, 1.0, 3.0)));
}

#[test]
fn box_filter_support_and_pieces() {
    let f = BoxFilter::new(F(3.0), F(1.0));
    assert_eq!(f.support(), ((F(-1.5), F(1.5)), (F(-0.5), F(0.5))));
    assert_eq!(piece_count(f.support().0), 3);
    assert_eq!(piece_count(f.support().1), 1);
}

#[test]
fn box_filter_follows_the_trapezoid_rule() {
    let cases = [
        ((0.25f32, 0.125f32), (0.75f32, 0.875f32), (1.0f32, 1.0f32)),
        ((0.9, 0.1), (0.2, 0.3), (2.0, 3.0)),
        ((0.0, 1.0), (1.0, 0.0), (0.5, 4.0)),
    ];
    for (s, e, (w, h)) in cases {
        let f = BoxFilter::new(F(w), F(h));
        let (pv, acc) = f.eval(line(s.0, s.1, e.0, e.1), (0, 0)).unwrap();
        assert!((pv.0 - 0.5 * (e.1 - s.1) * (e.0 + s.0) / (w * h)).abs() < EPS);
        assert!((acc.0 - (e.1 - s.1) / (w * h)).abs() < EPS);
    }
    let (pv, acc) = unit_box().eval(line(0.0, 0.0, 1.0, 1.0), (0, 0)).unwrap();
    assert_eq!((pv, acc), (F(0.5), F(1.0)));
    let (pv, acc) = BoxFilter::new(F(2.0), F(2.0)).eval(line(1.0, 0.0, 3.0, 2.0), (5, 7)).unwrap();
    assert_eq!((pv, acc), (F(1.0), F(0.5)));
}

#[test]
fn a_point_contributes_nothing() {
    let degenerate = line(0.375, 0.625, 0.375, 0.625);
    let (pv, acc) = unit_box().eval(degenerate, (0, 0)).unwrap();
    assert_eq!((pv.0, acc.0), (0.0, 0.0));
    let f = one_tile_filter(&[2.0, -3.0], &[[1, 0, 0, 1], [0, 2, 1, 1]], 2);
    let (pv, acc) = f.eval(degenerate, (0, 0)).unwrap();
    assert_eq!((pv.0, acc.0), (0.0, 0.0));
}

#[test]
fn tile_is_turned_down_when_it_does_not_fit() {
    let unpaired = Tile::<ParametricLine<F>>::new(vec![F(1.0)], vec![], 3);
    assert!(matches!(unpaired, Err(ConfigurationError::UnpairedCoefficients)));
    let high = Tile::<ParametricLine<F>>::new(vec![F(1.0)], vec![[0, 0, 4, 0]], 3);
    assert!(matches!(high, Err(ConfigurationError::ExponentTooHigh)));
    let fine = Tile::<ParametricLine<F>>::new(vec![F(1.0)], vec![[0, 0, 3, 0]], 3);
    assert!(fine.is_ok());
}

#[test]
fn filter_is_turned_down_when_tiles_and_support_differ() {
    let two_columns = TileSet(vec![vec![tile(&[], &[], 0), tile(&[], &[], 0)]]);
    let r = DynamicFilter::new(String::from("wide"), unit_support(), F(1.0), Some(two_columns));
    assert!(matches!(r, Err(ConfigurationError::SupportMismatch)));
    let two_rows = TileSet(vec![vec![tile(&[], &[], 0)], vec![tile(&[], &[], 0)]]);
    let r = DynamicFilter::new(String::from("tall"), unit_support(), F(1.0), Some(two_rows));
    assert!(matches!(r, Err(ConfigurationError::SupportMismatch)));
    let support = ((F(-1.0), F(1.0)), (F(-0.5), F(0.5)));
    let two_columns = TileSet(vec![vec![tile(&[], &[], 0), tile(&[], &[], 0)]]);
    let r = DynamicFilter::new(String::from("wide"), support, F(1.0), Some(two_columns));
    assert!(r.is_ok());
    assert_eq!(r.unwrap().support(), support);
}

#[test]
fn tile_evaluates_its_monomials() {
    // 2 * ox * vy
    let t = tile(&[2.0], &[[1, 0, 0, 1]], 1);
    let table = PowersLookupTable::new(par(3.0, 0.0, 0.0, 5.0), 1);
    assert_eq!(t.evaluate(&table), F(30.0));
    // five monomials: one full batch and a padded one
    let t = tile(
        &[1.0, 2.0, 3.0, 4.0, 5.0],
        &[[0, 0, 0, 0], [1, 0, 0, 0], [0, 1, 0, 0], [0, 0, 2, 0], [1, 1, 1, 1]],
        2,
    );
    let table = PowersLookupTable::new(par(2.0, 3.0, 4.0, 5.0), 2);
    // 1 + 2*2 + 3*3 + 4*16 + 5*120
    assert_eq!(t.evaluate(&table), F(678.0));
    let empty = tile(&[], &[], 0);
    let table = PowersLookupTable::new(par(2.0, 3.0, 4.0, 5.0), 0);
    assert_eq!(empty.evaluate(&table), F(0.0));
}

#[test]
fn tile_set_picks_the_tile_by_column_and_row() {
    let tiles = TileSet(vec![
        vec![tile(&[1.0], &[[0, 0, 0, 0]], 0), tile(&[2.0], &[[0, 0, 0, 0]], 0)],
        vec![tile(&[3.0], &[[0, 0, 0, 0]], 0), tile(&[4.0], &[[1, 0, 0, 0]], 1)],
    ]);
    let v = par(10.0, 1.0, 1.0, 1.0);
    assert!(tiles.contains((1, 1)));
    assert!(!tiles.contains((2, 0)));
    assert!(!tiles.contains((0, 2)));
    assert!(tiles.forms_grid(2, 2));
    assert!(!tiles.forms_grid(2, 3));
    assert_eq!(tiles.evaluate_tile((0, 0), v), F(1.0));
    assert_eq!(tiles.evaluate_tile((1, 0), v), F(2.0));
    assert_eq!(tiles.evaluate_tile((0, 1), v), F(3.0));
    assert_eq!(tiles.evaluate_tile((1, 1), v), F(40.0));
}

#[test]
fn dynamic_filter_scales_both_results() {
    let f = one_tile_filter(&[2.0], &[[1, 0, 0, 1]], 1);
    let (pv, acc) = f.eval(line(3.0, 0.0, 3.0, 5.0), (0, 0)).unwrap();
    assert_eq!((pv, acc), (F(15.0), F(5.0)));
    // the carried part ignores the horizontal channels
    let g = one_tile_filter(&[1.0], &[[2, 0, 1, 0]], 2);
    let (pv, acc) = g.eval(line(3.0, 0.0, 5.0, 5.0), (0, 0)).unwrap();
    assert_eq!((pv, acc), (F(9.0), F(0.0)));
}

#[test]
fn dynamic_filter_without_tiles_supports_no_line() {
    let f = DynamicFilter::new(String::from("none"), unit_support(), F(1.0), None).unwrap();
    assert_eq!(f.eval(line(0.0, 0.0, 1.0, 1.0), (0, 0)), Err(UnsupportedCurveType));
    let g = one_tile_filter(&[2.0], &[[1, 0, 0, 1]], 1);
    assert_eq!(g.eval(line(0.0, 0.0, 1.0, 1.0), (1, 0)), Err(UnsupportedCurveType));
    let mut buffer = Vec::new();
    let r = rasterize_parallel(rect(0.0, 0.0, 1.0, 1.0), &f, &[line(0.0, 0.0, 1.0, 1.0)], &mut buffer);
    assert_eq!(r, Err(UnsupportedCurveType));
    let mut buffer = Vec::new();
    let r = rasterize_parallel(rect(0.0, 0.0, 1.0, 1.0), &f, &[], &mut buffer);
    assert_eq!(r, Ok(()));
    assert_eq!(buffer, vec![F(0.0)]);
}

#[test]
fn cut_curves_sorts_fragments_into_cells() {
    let curves = [line(0.5, 0.5, 1.5, 0.5), line(0.25, 1.25, 0.25, 1.75)];
    let cells = cut_curves(pt(0.0, 0.0), ImageSize { width: 2, height: 2 }, &curves);
    assert_eq!(cells.len(), 4);
    assert_eq!(cells[0], vec![line(0.5, 0.5, 1.0, 0.5)]);
    assert_eq!(cells[1], vec![line(0.0, 0.5, 0.5, 0.5)]);
    assert_eq!(cells[2], vec![line(0.25, 0.25, 0.25, 0.75)]);
    assert_eq!(cells[3], Vec::<Line<F>>::new());
}

#[test]
fn lower_left_triangle_covers_half_a_pixel() {
    let curves =
        [line(0.0, 0.0, 1.0, 1.0), line(1.0, 1.0, 0.0, 1.0), line(0.0, 1.0, 0.0, 0.0)];
    let buffer = render(rect(0.0, 0.0, 1.0, 1.0), &curves);
    assert_eq!(buffer.len(), 1);
    assert!((buffer[0] - 0.5).abs() < EPS);
}

#[test]
fn unit_square_covers_its_pixel() {
    let curves = [
        line(0.0, 0.0, 0.0, 1.0),
        line(0.0, 1.0, 1.0, 1.0),
        line(1.0, 1.0, 1.0, 0.0),
        line(1.0, 0.0, 0.0, 0.0),
    ];
    let buffer = render(rect(0.0, 0.0, 1.0, 1.0), &curves);
    assert_eq!(buffer.len(), 1);
    assert!((buffer[0] - 1.0).abs() < EPS);
    let total: f32 = buffer.iter().sum();
    assert!((total - 1.0).abs() < EPS);
}

#[test]
fn no_curves_give_an_empty_image() {
    let buffer = render(rect(0.0, 0.0, 3.0, 2.0), &[]);
    assert_eq!(buffer, vec![0.0; 6]);
    let buffer = render(rect(0.0, 0.0, 0.0, 5.0), &[]);
    assert_eq!(buffer, Vec::<f32>::new());
}

#[test]
fn viewport_is_normalized_first() {
    let curves =
        [line(0.0, 0.0, 1.0, 1.0), line(1.0, 1.0, 0.0, 1.0), line(0.0, 1.0, 0.0, 0.0)];
    let buffer = render(rect(1.0, 1.0, -1.0, -1.0), &curves);
    assert_eq!(buffer, vec![0.5]);
}

#[test]
fn pixels_are_stored_row_by_row() {
    // a segment in the pixel (2, 1) of a 3 by 2 image
    let curves = [line(2.5, 1.0, 2.5, 1.5)];
    let buffer = render(rect(0.0, 0.0, 3.0, 2.0), &curves);
    // the pixel itself gets 0.5 * 0.5 * (0.5 + 0.5) + 0.5, those to its left 0.5
    assert_eq!(buffer, vec![0.0, 0.0, 0.0, 0.5, 0.5, 0.75]);
}

#[test]
fn wide_box_adds_its_pieces() {
    let filter = BoxFilter::new(F(2.0), F(1.0));
    let viewport = rect(0.0, 0.0, 2.0, 1.0);
    assert!(fits(viewport, filter.support()));
    let curves = [line(0.5, 0.0, 0.5, 1.0)];
    let mut buffer = Vec::new();
    rasterize_parallel(viewport, &filter, &curves, &mut buffer).unwrap();
    // the table of fragments begins at x = -0.5: the segment lies on the far
    // edge of its first cell and on the near edge of the second, where it
    // carries 0.5; the left piece reads that cell for the right pixel and
    // carries it on, the right piece reads it for the left pixel
    assert_eq!(buffer, vec![F(1.0), F(0.5)]);
}

#[test]
fn rasterizing_twice_gives_the_same_buffer() {
    let curves = [
        line(0.3, 0.2, 2.7, 1.9),
        line(2.7, 1.9, 0.1, 1.4),
        line(0.1, 1.4, 0.3, 0.2),
    ];
    let a = render(rect(0.0, 0.0, 3.0, 2.0), &curves);
    let b = render(rect(0.0, 0.0, 3.0, 2.0), &curves);
    assert_eq!(a.len(), 6);
    let bits_a: Vec<u32> = a.iter().map(|v| v.to_bits()).collect();
    let bits_b: Vec<u32> = b.iter().map(|v| v.to_bits()).collect();
    assert_eq!(bits_a, bits_b);
}

#[test]
fn fits_turns_down_what_cannot_be_indexed() {
    let filter = unit_box();
    assert!(fits(rect(0.0, 0.0, 800.0, 600.0), filter.support()));
    assert!(!fits(rect(0.0, 0.0, 1.0e30, 1.0e30), filter.support()));
}

#[test]
fn units_have_their_size_in_pixels() {
    assert_eq!(unit_size(LengthUnit::In, F(300.0)), Some(F(300.0)));
    assert_eq!(unit_size(LengthUnit::Cm, F(300.0)), Some(F(300.0 * 0.39)));
    assert_eq!(unit_size(LengthUnit::Mm, F(300.0)), Some(F(300.0 * 0.039)));
    assert_eq!(unit_size(LengthUnit::Pt, F(300.0)), Some(F(300.0 / 72.0)));
    assert_eq!(unit_size(LengthUnit::Pc, F(300.0)), Some(F(50.0)));
    assert_eq!(unit_size(LengthUnit::Bare, F(300.0)), Some(F(1.0)));
    assert_eq!(unit_size(LengthUnit::Other, F(300.0)), None);
}

#[test]
fn a_line_element_becomes_the_outline_of_its_stroke() {
    let mut parser = Parser::new(F(100.0));
    parser.element_start(ElementKind::Line);
    parser.attribute(AttributeKind::X1, AttributeValue::Number(F(1.0))).unwrap();
    parser.attribute(AttributeKind::Y1, AttributeValue::Number(F(2.0))).unwrap();
    parser.attribute(AttributeKind::X2, AttributeValue::Number(F(5.0))).unwrap();
    parser.attribute(AttributeKind::Y2, AttributeValue::Number(F(2.0))).unwrap();
    parser
        .attribute(AttributeKind::StrokeWidth, AttributeValue::Length(F(0.02), LengthUnit::In))
        .unwrap();
    parser.element_end();
    assert!(parser.elem.is_none());
    assert_eq!(parser.result.paths.len(), 1);
    assert_eq!(
        parser.result.paths[0].lines,
        vec![
            line(1.0, 1.0, 5.0, 1.0),
            line(5.0, 1.0, 5.0, 3.0),
            line(5.0, 3.0, 1.0, 3.0),
            line(1.0, 3.0, 1.0, 1.0),
        ]
    );
    // without a width the stroke is one pixel wide
    parser.element_start(ElementKind::Line);
    parser.attribute(AttributeKind::X1, AttributeValue::Number(F(0.0))).unwrap();
    parser.attribute(AttributeKind::Y1, AttributeValue::Number(F(0.0))).unwrap();
    parser.attribute(AttributeKind::X2, AttributeValue::Number(F(0.0))).unwrap();
    parser.attribute(AttributeKind::Y2, AttributeValue::Number(F(4.0))).unwrap();
    parser.element_end();
    assert_eq!(
        parser.result.paths[1].lines,
        vec![
            line(0.5, 0.0, 0.5, 4.0),
            line(0.5, 4.0, -0.5, 4.0),
            line(-0.5, 4.0, -0.5, 0.0),
            line(-0.5, 0.0, 0.5, 0.0),
        ]
    );
    // a line that lacks a coordinate gives an empty path
    parser.element_start(ElementKind::Line);
    parser.attribute(AttributeKind::X1, AttributeValue::Number(F(0.0))).unwrap();
    parser.element_end();
    assert_eq!(parser.result.paths[2].lines, Vec::<Line<F>>::new());
}

#[test]
fn a_polygon_element_becomes_a_chain_of_segments() {
    let mut parser = Parser::new(F(100.0));
    parser.element_start(ElementKind::Polygon);
    let numbers = vec![F(0.0), F(0.0), F(1.0), F(1.0), F(0.0), F(1.0), F(9.0)];
    parser.attribute(AttributeKind::Points, AttributeValue::NumberList(numbers)).unwrap();
    parser.attribute(AttributeKind::Width, AttributeValue::Number(F(3.0))).unwrap();
    parser.element_end();
    assert_eq!(
        parser.result.paths[0].lines,
        vec![line(0.0, 0.0, 1.0, 1.0), line(1.0, 1.0, 0.0, 1.0)]
    );
    parser.element_start(ElementKind::Polygon);
    parser.attribute(AttributeKind::Points, AttributeValue::NumberList(vec![F(1.0), F(2.0)])).unwrap();
    parser.element_end();
    assert_eq!(parser.result.paths[1].lines, Vec::<Line<F>>::new());
    parser.element_start(ElementKind::Polygon);
    let numbers = vec![F(2.0), F(2.0), F(3.0), F(3.0)];
    parser.attribute(AttributeKind::Points, AttributeValue::NumberList(numbers)).unwrap();
    parser.element_end();
    assert_eq!(
        curves_of(&parser.result),
        vec![line(0.0, 0.0, 1.0, 1.0), line(1.0, 1.0, 0.0, 1.0), line(2.0, 2.0, 3.0, 3.0)]
    );
}

#[test]
fn the_root_element_gives_the_size() {
    let mut parser = Parser::new(F(72.0));
    // outside an element an attribute is ignored
    parser.attribute(AttributeKind::Width, AttributeValue::Number(F(3.0))).unwrap();
    parser.element_end();
    assert_eq!(parser.result.size, None);
    parser.element_start(ElementKind::Svg);
    parser.element_start(ElementKind::Other);
    parser.attribute(AttributeKind::Width, AttributeValue::Length(F(2.0), LengthUnit::In)).unwrap();
    parser.attribute(AttributeKind::X1, AttributeValue::Number(F(3.0))).unwrap();
    parser.attribute(AttributeKind::Height, AttributeValue::Other).unwrap();
    let r = parser.attribute(AttributeKind::Height, AttributeValue::Length(F(2.0), LengthUnit::Other));
    assert_eq!(r, Err(UnsupportedUnit));
    parser.attribute(AttributeKind::Height, AttributeValue::Length(F(36.0), LengthUnit::Pt)).unwrap();
    parser.element_end();
    assert_eq!(parser.result.size, Some((F(144.0), F(36.0))));
    assert_eq!(parser.result.paths.len(), 0);
    // a root element that lacks a side gives no size
    parser.element_start(ElementKind::Svg);
    parser.attribute(AttributeKind::Width, AttributeValue::Number(F(3.0))).unwrap();
    parser.element_end();
    assert_eq!(parser.result.size, None);
}

fn fx(v: f32) -> Fixed {
    Fixed { raw: (v * 65536.0) as i64 }
}

fn fline(x1: f32, y1: f32, x2: f32, y2: f32) -> Line<Fixed> {
    Line::new(Point::new(fx(x1), fx(y1)), Point::new(fx(x2), fx(y2)))
}

#[test]
fn fixed_point_arithmetic_is_exact() {
    assert_eq!(Fixed::zero(), Fixed { raw: 0 });
    assert_eq!(Fixed::one(), Fixed { raw: 65536 });
    assert_eq!(Fixed::half(), fx(0.5));
    assert_eq!(Fixed::from_usize(3), fx(3.0));
    assert_eq!(fx(3.75).to_usize(), 3);
    assert_eq!(fx(-3.75).to_usize(), 0);
    assert_eq!(fx(1.5).add(fx(2.25)), fx(3.75));
    assert_eq!(fx(1.5).sub(fx(2.25)), fx(-0.75));
    assert_eq!(fx(1.5).mul(fx(-2.5)), fx(-3.75));
    assert_eq!(fx(-1.5).mul(fx(-2.5)), fx(3.75));
    assert_eq!(fx(7.5).div(fx(2.5)), fx(3.0));
    assert_eq!(fx(-7.5).div(fx(2.5)), fx(-3.0));
    assert_eq!(fx(1.0).div(fx(0.0)), fx(0.0));
    assert_eq!(fx(1.0).div(Fixed { raw: 3 }), Fixed { raw: 1431655765 });
    assert_eq!(fx(2.0).neg(), fx(-2.0));
    assert_eq!(fx(6.25).sqrt(), fx(2.5));
    assert_eq!(fx(2.0).sqrt(), Fixed { raw: 92681 });
    assert_eq!(fx(-4.0).sqrt(), fx(0.0));
    assert!(fx(1.0).lt(fx(1.5)));
    assert!(!fx(1.5).lt(fx(1.5)));
    assert!(fx(1.5).le(fx(1.5)));
    assert!(Scalar::eq(fx(1.5), fx(1.5)));
}

#[test]
fn fixed_point_results_stay_in_range() {
    let most = Fixed { raw: i64::MAX };
    let least = Fixed { raw: i64::MIN };
    assert_eq!(most.add(most), most);
    assert_eq!(least.add(least), least);
    assert_eq!(least.sub(most), least);
    assert_eq!(most.mul(most), most);
    assert_eq!(most.mul(least), least);
    assert_eq!(least.neg(), most);
    assert_eq!(most.div(Fixed { raw: 1 }), most);
    assert_eq!(Fixed::from_usize(usize::MAX), most);
    assert_eq!(most.sqrt(), Fixed { raw: 777472127993 });
}

#[test]
fn fixed_point_rasterization_is_exact() {
    let filter = BoxFilter::new(fx(1.0), fx(1.0));
    let viewport = Rect::new(fx(0.0), fx(0.0), fx(1.0), fx(1.0));
    assert!(fits(viewport, filter.support()));
    let triangle = [
        fline(0.0, 0.0, 1.0, 1.0),
        fline(1.0, 1.0, 0.0, 1.0),
        fline(0.0, 1.0, 0.0, 0.0),
    ];
    let mut buffer = Vec::new();
    rasterize_parallel(viewport, &filter, &triangle, &mut buffer).unwrap();
    assert_eq!(buffer, vec![fx(0.5)]);
    let square = [
        fline(0.0, 0.0, 0.0, 1.0),
        fline(0.0, 1.0, 1.0, 1.0),
        fline(1.0, 1.0, 1.0, 0.0),
        fline(1.0, 0.0, 0.0, 0.0),
    ];
    rasterize_parallel(viewport, &filter, &square, &mut buffer).unwrap();
    assert_eq!(buffer, vec![fx(1.0)]);
    let point = fline(0.25, 0.75, 0.25, 0.75);
    assert_eq!(filter.eval(point, (0, 0)), Ok((fx(0.0), fx(0.0))));
}

#[test]
fn defaults_and_conversions() {
    assert_eq!(Point::<F>::default(), pt(0.0, 0.0));
    assert_eq!(Vec2d::<F>::default(), Vec2d::new(F(0.0), F(0.0)));
    assert_eq!(Line::<F>::default(), line(0.0, 0.0, 0.0, 0.0));
    assert_eq!(QuadraticBezier::<F>::default().control, pt(0.0, 0.0));
    let size: ImageSize = Size { width: F(3.5), height: F(2.0) }.into();
    assert_eq!(size, ImageSize { width: 3, height: 2 });
}
