//! A kernel given as data: one polynomial tile for each filter piece.
use vstd::prelude::*;
use crate::scalar::{zero_annihilates, Scalar};
use crate::geometry::Line;
use super::{ConfigurationError, Evaluate, Filter, Support, UnsupportedCurveType};
use super::{piece_count, spec_piece_count};

verus! {

/// Whether every exponent of four exponent tuples is below `len`.
pub open spec fn exponents_below(index: [[u8; 4]; 4], len: int) -> bool {
    forall|m: int, c: int| 0 <= m < 4 && 0 <= c < 4 ==> (#[trigger] index[m][c]) < len
}

/// Whether `mat` holds, in row `c` and column `m`, the power of channel `c`
/// that the `m`-th exponent tuple asks for.
pub open spec fn looked_up<T: PowerLookup>(
    table: Seq<T>,
    index: [[u8; 4]; 4],
    mat: [[T::Number; 4]; 4],
) -> bool {
    forall|c: int, m: int|
        0 <= c < 4 && 0 <= m < 4 ==> (#[trigger] mat[c][m]) == table[index[m][c] as int].spec_channel(
            c,
        )
}

/// The parameters of a curve, as four channels of numbers that can be raised
/// to powers channel by channel.
pub trait PowerLookup: Copy + Sized {
    type Number: Scalar;

    /// The value whose channels are all 1.
    spec fn spec_identity() -> Self;

    /// The product, channel by channel.
    spec fn spec_mul(self, other: Self) -> Self;

    spec fn spec_channel(self, channel: int) -> Self::Number;

    fn identity() -> (r: Self)
        ensures
            r == Self::spec_identity(),
    ;

    fn mul_assign(&mut self, other: Self)
        ensures
            *final(self) == old(self).spec_mul(other),
    ;

    /// Gathers, for four exponent tuples at once, the powers they name from a
    /// table of successive powers.
    fn power_lookup_4x(table: &[Self], index: [[u8; 4]; 4]) -> (r: [[Self::Number; 4]; 4])
        requires
            exponents_below(index, table@.len() as int),
        ensures
            forall|c: int, m: int|
                0 <= c < 4 && 0 <= m < 4 ==> (#[trigger] r[c][m]) == table@[index[m][c] as int].spec_channel(
                    c,
                ),
    ;
}

/// `values` raised to the power `n`, channel by channel.
pub open spec fn power<T: PowerLookup>(values: T, n: nat) -> T
    decreases n,
{
    if n == 0 {
        T::spec_identity()
    } else {
        power(values, (n - 1) as nat).spec_mul(values)
    }
}

/// The powers of `values` from 0 up to `max_pow`.
pub open spec fn power_table<T: PowerLookup>(values: T, max_pow: u8) -> Seq<T> {
    Seq::new(max_pow as nat + 1, |i: int| power(values, i as nat))
}

/// A number raised to the power `n`.
pub open spec fn scalar_power<S: Scalar>(x: S, n: nat) -> S
    decreases n,
{
    if n == 0 {
        S::spec_one()
    } else {
        scalar_power(x, (n - 1) as nat).spec_mul(x)
    }
}

/// A straight segment as start point and direction.
#[derive(Debug, PartialEq)]
pub struct ParametricLine<S: Scalar> {
    pub origin: (S, S),
    pub vector: (S, S),
}

impl<S: Scalar> Copy for ParametricLine<S> {
}

impl<S: Scalar> Clone for ParametricLine<S> {
    fn clone(&self) -> (r: Self)
        ensures
            r == *self,
    {
        *self
    }
}

impl<S: Scalar> PowerLookup for ParametricLine<S> {
    type Number = S;

    open spec fn spec_identity() -> Self {
        ParametricLine {
            origin: (S::spec_one(), S::spec_one()),
            vector: (S::spec_one(), S::spec_one()),
        }
    }

    open spec fn spec_mul(self, other: Self) -> Self {
        ParametricLine {
            origin: (self.origin.0.spec_mul(other.origin.0), self.origin.1.spec_mul(other.origin.1)),
            vector: (self.vector.0.spec_mul(other.vector.0), self.vector.1.spec_mul(other.vector.1)),
        }
    }

    /// The channels are, in order: the start's x and y, the direction's x and y.
    open spec fn spec_channel(self, channel: int) -> S {
        if channel == 0 {
            self.origin.0
        } else if channel == 1 {
            self.origin.1
        } else if channel == 2 {
            self.vector.0
        } else {
            self.vector.1
        }
    }

    fn identity() -> (r: Self) {
        ParametricLine { origin: (S::one(), S::one()), vector: (S::one(), S::one()) }
    }

    fn mul_assign(&mut self, other: Self) {
        *self = ParametricLine {
            origin: (self.origin.0.mul(other.origin.0), self.origin.1.mul(other.origin.1)),
            vector: (self.vector.0.mul(other.vector.0), self.vector.1.mul(other.vector.1)),
        };
    }

    fn power_lookup_4x(table: &[Self], index_mat: [[u8; 4]; 4]) -> (r: [[S; 4]; 4]) {
        let row0 = [
            table[index_mat[0][0] as usize].origin.0,
            table[index_mat[1][0] as usize].origin.0,
            table[index_mat[2][0] as usize].origin.0,
            table[index_mat[3][0] as usize].origin.0,
        ];
        let row1 = [
            table[index_mat[0][1] as usize].origin.1,
            table[index_mat[1][1] as usize].origin.1,
            table[index_mat[2][1] as usize].origin.1,
            table[index_mat[3][1] as usize].origin.1,
        ];
        let row2 = [
            table[index_mat[0][2] as usize].vector.0,
            table[index_mat[1][2] as usize].vector.0,
            table[index_mat[2][2] as usize].vector.0,
            table[index_mat[3][2] as usize].vector.0,
        ];
        let row3 = [
            table[index_mat[0][3] as usize].vector.1,
            table[index_mat[1][3] as usize].vector.1,
            table[index_mat[2][3] as usize].vector.1,
            table[index_mat[3][3] as usize].vector.1,
        ];
        [row0, row1, row2, row3]
    }
}

/// Raising a segment's parameters to a power raises each channel to it.
pub proof fn lemma_power_by_channel<S: Scalar>(line: ParametricLine<S>, n: nat)
    ensures
        forall|c: int|
            0 <= c < 4 ==> (#[trigger] power(line, n).spec_channel(c)) == scalar_power(
                line.spec_channel(c),
                n,
            ),
    decreases n,
{
    if n > 0 {
        let before = power(line, (n - 1) as nat);
        lemma_power_by_channel(line, (n - 1) as nat);
        assert(power(line, n) == before.spec_mul(line));
        assert forall|c: int| 0 <= c < 4 implies (#[trigger] power(line, n).spec_channel(c))
            == scalar_power(line.spec_channel(c), n) by {
            assert(before.spec_channel(c) == scalar_power(line.spec_channel(c), (n - 1) as nat));
        }
    }
}

/// One monomial: the coefficient of lane `m`, multiplied in turn by the four
/// factors in column `m`.
pub open spec fn folded<S: Scalar>(mat: [[S; 4]; 4], coeffs: [S; 4], m: int) -> S {
    coeffs[m].spec_mul(mat[0][m]).spec_mul(mat[1][m]).spec_mul(mat[2][m]).spec_mul(mat[3][m])
}

fn fold_lane<S: Scalar>(mat: &[[S; 4]; 4], coeffs: &[S; 4], m: usize) -> (r: S)
    requires
        m < 4,
    ensures
        r == folded(*mat, *coeffs, m as int),
{
    coeffs[m].mul(mat[0][m]).mul(mat[1][m]).mul(mat[2][m]).mul(mat[3][m])
}

/// Multiplies four coefficients by their monomials' factors, lane by lane.
pub fn fold<S: Scalar>(mat: [[S; 4]; 4], coeffs: [S; 4]) -> (r: [S; 4])
    ensures
        forall|m: int| 0 <= m < 4 ==> (#[trigger] r[m]) == folded(mat, coeffs, m),
{
    [
        fold_lane(&mat, &coeffs, 0),
        fold_lane(&mat, &coeffs, 1),
        fold_lane(&mat, &coeffs, 2),
        fold_lane(&mat, &coeffs, 3),
    ]
}

/// The successive powers of one curve's parameters.
pub struct PowersLookupTable<T> {
    table: Vec<T>,
}

impl<T: PowerLookup> PowersLookupTable<T> {
    /// The powers held, the `i`-th power at position `i`.
    pub closed spec fn view(&self) -> Seq<T> {
        self.table@
    }

    /// The table of `values` raised to the powers 0 to `up_to_power`.
    pub fn new(values: T, up_to_power: u8) -> (r: Self)
        ensures
            r@ == power_table(values, up_to_power),
    {
        let mut table: Vec<T> = Vec::with_capacity(up_to_power as usize + 1);
        let mut accumulator = T::identity();
        table.push(accumulator);
        let mut i: u8 = 0;
        while i < up_to_power
            invariant
                i <= up_to_power,
                table@.len() == i + 1,
                accumulator == power(values, i as nat),
                forall|k: int| 0 <= k <= i ==> table@[k] == power(values, k as nat),
            decreases up_to_power - i,
        {
            accumulator.mul_assign(values);
            table.push(accumulator);
            i += 1;
        }
        assert(table@ =~= power_table(values, up_to_power));
        PowersLookupTable { table: table }
    }

    /// Gathers the powers that four exponent tuples name.
    pub fn lookup_4x(&self, pow: [[u8; 4]; 4]) -> (r: [[T::Number; 4]; 4])
        requires
            exponents_below(pow, self@.len() as int),
        ensures
            looked_up(self@, pow, r),
    {
        T::power_lookup_4x(self.table.as_slice(), pow)
    }
}

/// The polynomial of one filter piece: a sum of monomials in the four
/// channels, each a coefficient and a tuple of exponents.
pub struct Tile<T: PowerLookup> {
    coefficients: Vec<T::Number>,
    powers: Vec<[u8; 4]>,
    max_pow: u8,
}

/// Whether a list of coefficients and a list of exponent tuples make a tile:
/// they pair off, and no exponent is above `max_pow`.
pub open spec fn tile_fits(coefficients_len: nat, powers: Seq<[u8; 4]>, max_pow: u8) -> bool {
    &&& coefficients_len == powers.len()
    &&& forall|i: int, c: int|
        0 <= i < powers.len() && 0 <= c < 4 ==> (#[trigger] powers[i][c]) <= max_pow
}

impl<T: PowerLookup> Tile<T> {
    #[verifier::type_invariant]
    spec fn well_formed(self) -> bool {
        tile_fits(self.coefficients@.len(), self.powers@, self.max_pow)
    }

    pub closed spec fn coefficients(&self) -> Seq<T::Number> {
        self.coefficients@
    }

    pub closed spec fn powers(&self) -> Seq<[u8; 4]> {
        self.powers@
    }

    pub closed spec fn max_pow(&self) -> u8 {
        self.max_pow
    }

    /// The number of batches of four monomials, the last one filled up.
    pub open spec fn batches(&self) -> nat {
        ((self.coefficients().len() + 3) / 4) as nat
    }

    /// The `i`-th coefficient; zero behind the last one.
    pub open spec fn padded_coefficient(&self, i: int) -> T::Number {
        if 0 <= i < self.coefficients().len() {
            self.coefficients()[i]
        } else {
            T::Number::spec_zero()
        }
    }

    /// The exponent of channel `c` in the `i`-th monomial; zero behind the
    /// last monomial.
    pub open spec fn padded_exponent(&self, i: int, c: int) -> int {
        if 0 <= i < self.powers().len() {
            self.powers()[i][c] as int
        } else {
            0
        }
    }

    /// The value of the `i`-th monomial, read off a table of powers.
    pub open spec fn term(&self, table: Seq<T>, i: int) -> T::Number {
        self.padded_coefficient(i).spec_mul(
            table[self.padded_exponent(i, 0)].spec_channel(0),
        ).spec_mul(table[self.padded_exponent(i, 1)].spec_channel(1)).spec_mul(
            table[self.padded_exponent(i, 2)].spec_channel(2),
        ).spec_mul(table[self.padded_exponent(i, 3)].spec_channel(3))
    }

    /// The sum of every fourth monomial, starting with the one at `lane`, over
    /// the first `batches` batches.
    pub open spec fn lane_sum(&self, table: Seq<T>, lane: int, batches: nat) -> T::Number
        decreases batches,
    {
        if batches == 0 {
            T::Number::spec_zero()
        } else {
            self.lane_sum(table, lane, (batches - 1) as nat).spec_add(
                self.term(table, 4 * (batches - 1) + lane),
            )
        }
    }

    /// The value of the polynomial: the four lane sums, added from the first
    /// to the last.
    pub open spec fn spec_evaluate(&self, table: Seq<T>) -> T::Number {
        let n = self.batches();
        self.lane_sum(table, 0, n).spec_add(self.lane_sum(table, 1, n)).spec_add(
            self.lane_sum(table, 2, n),
        ).spec_add(self.lane_sum(table, 3, n))
    }

    /// A tile of the monomials `coefficients[i]` times the channels raised to
    /// `powers[i]`.
    pub fn new(coefficients: Vec<T::Number>, powers: Vec<[u8; 4]>, max_pow: u8) -> (r: Result<
        Tile<T>,
        ConfigurationError,
    >)
        ensures
            match r {
                Ok(tile) => {
                    &&& tile_fits(coefficients@.len(), powers@, max_pow)
                    &&& tile.coefficients() == coefficients@
                    &&& tile.powers() == powers@
                    &&& tile.max_pow() == max_pow
                },
                Err(ConfigurationError::UnpairedCoefficients) => coefficients@.len()
                    != powers@.len(),
                Err(ConfigurationError::ExponentTooHigh) => {
                    &&& coefficients@.len() == powers@.len()
                    &&& !tile_fits(coefficients@.len(), powers@, max_pow)
                },
                Err(ConfigurationError::SupportMismatch) => false,
            },
    {
        if coefficients.len() != powers.len() {
            return Err(ConfigurationError::UnpairedCoefficients);
        }
        let mut i: usize = 0;
        while i < powers.len()
            invariant
                i <= powers@.len(),
                coefficients@.len() == powers@.len(),
                forall|k: int, c: int|
                    0 <= k < i && 0 <= c < 4 ==> (#[trigger] powers@[k][c]) <= max_pow,
            decreases powers@.len() - i,
        {
            let p = powers[i];
            if p[0] > max_pow || p[1] > max_pow || p[2] > max_pow || p[3] > max_pow {
                assert(!(powers@[i as int][0] <= max_pow && powers@[i as int][1] <= max_pow
                    && powers@[i as int][2] <= max_pow && powers@[i as int][3] <= max_pow));
                return Err(ConfigurationError::ExponentTooHigh);
            }
            i += 1;
        }
        Ok(Tile { coefficients: coefficients, powers: powers, max_pow: max_pow })
    }

    fn coefficient_or_zero(&self, start: usize, lane: usize) -> (r: T::Number)
        requires
            start < self.coefficients().len(),
            lane < 4,
        ensures
            r == self.padded_coefficient(start + lane),
    {
        if lane < self.coefficients.len() - start {
            self.coefficients[start + lane]
        } else {
            T::Number::zero()
        }
    }

    fn exponents_or_zero(&self, start: usize, lane: usize) -> (r: [u8; 4])
        requires
            start < self.powers().len(),
            lane < 4,
        ensures
            forall|c: int|
                0 <= c < 4 ==> (#[trigger] r[c]) as int == self.padded_exponent(start + lane, c),
            forall|c: int| 0 <= c < 4 ==> (#[trigger] r[c]) <= self.max_pow(),
    {
        proof {
            use_type_invariant(self);
        }
        if lane < self.powers.len() - start {
            self.powers[start + lane]
        } else {
            [0, 0, 0, 0]
        }
    }

    /// Evaluates the polynomial on a table of powers, four monomials at a time.
    pub fn evaluate(&self, lookup_4x_table: &PowersLookupTable<T>) -> (r: T::Number)
        requires
            lookup_4x_table@.len() > self.max_pow(),
        ensures
            r == self.spec_evaluate(lookup_4x_table@),
    {
        proof {
            use_type_invariant(self);
        }
        let n = self.coefficients.len();
        let batches = n / 4 + if n % 4 == 0 {
            0
        } else {
            1
        };
        let ghost table = lookup_4x_table@;
        let mut lane0 = T::Number::zero();
        let mut lane1 = T::Number::zero();
        let mut lane2 = T::Number::zero();
        let mut lane3 = T::Number::zero();
        let mut k: usize = 0;
        while k < batches
            invariant
                k <= batches,
                batches == self.batches(),
                n == self.coefficients().len(),
                n == self.powers().len(),
                table == lookup_4x_table@,
                table.len() > self.max_pow(),
                lane0 == self.lane_sum(table, 0, k as nat),
                lane1 == self.lane_sum(table, 1, k as nat),
                lane2 == self.lane_sum(table, 2, k as nat),
                lane3 == self.lane_sum(table, 3, k as nat),
            decreases batches - k,
        {
            let start = 4 * k;
            let pmat = [
                self.exponents_or_zero(start, 0),
                self.exponents_or_zero(start, 1),
                self.exponents_or_zero(start, 2),
                self.exponents_or_zero(start, 3),
            ];
            let cvec = [
                self.coefficient_or_zero(start, 0),
                self.coefficient_or_zero(start, 1),
                self.coefficient_or_zero(start, 2),
                self.coefficient_or_zero(start, 3),
            ];
            let lookup_4x_mat = lookup_4x_table.lookup_4x(pmat);
            let terms = fold(lookup_4x_mat, cvec);
            proof {
                assert forall|m: int| 0 <= m < 4 implies #[trigger] terms[m] == self.term(
                    table,
                    start + m,
                ) by {
                    assert(terms[m] == folded(lookup_4x_mat, cvec, m));
                    assert(lookup_4x_mat[0][m] == table[pmat[m][0] as int].spec_channel(0));
                    assert(lookup_4x_mat[1][m] == table[pmat[m][1] as int].spec_channel(1));
                    assert(lookup_4x_mat[2][m] == table[pmat[m][2] as int].spec_channel(2));
                    assert(lookup_4x_mat[3][m] == table[pmat[m][3] as int].spec_channel(3));
                }
                assert(terms[0] == self.term(table, start + 0));
                assert(terms[1] == self.term(table, start + 1));
                assert(terms[2] == self.term(table, start + 2));
                assert(terms[3] == self.term(table, start + 3));
            }
            lane0 = lane0.add(terms[0]);
            lane1 = lane1.add(terms[1]);
            lane2 = lane2.add(terms[2]);
            lane3 = lane3.add(terms[3]);
            k += 1;
        }
        lane0.add(lane1).add(lane2).add(lane3)
    }
}

/// The tiles of a kernel, one row for each vertical piece and in each row one
/// tile for each horizontal piece.
pub struct TileSet<T: PowerLookup>(pub Vec<Vec<Tile<T>>>);

impl<T: PowerLookup> TileSet<T> {
    /// Whether there is a tile for the piece `(column, row)`.
    pub open spec fn has_tile(&self, tile: (u32, u32)) -> bool {
        tile.1 < self.0@.len() && tile.0 < self.0@[tile.1 as int]@.len()
    }

    /// Whether the tiles form `rows` rows of `columns` tiles each.
    pub open spec fn is_grid(&self, columns: usize, rows: usize) -> bool {
        &&& self.0@.len() == rows
        &&& forall|i: int| 0 <= i < self.0@.len() ==> (#[trigger] self.0@[i])@.len() == columns
    }

    pub open spec fn spec_evaluate_tile(&self, tile: (u32, u32), values: T) -> T::Number {
        let t = self.0@[tile.1 as int]@[tile.0 as int];
        t.spec_evaluate(power_table(values, t.max_pow()))
    }

    pub fn contains(&self, tile: (u32, u32)) -> (r: bool)
        ensures
            r == self.has_tile(tile),
    {
        (tile.1 as usize) < self.0.len() && (tile.0 as usize) < self.0[tile.1 as usize].len()
    }

    pub fn forms_grid(&self, columns: usize, rows: usize) -> (r: bool)
        ensures
            r == self.is_grid(columns, rows),
    {
        if self.0.len() != rows {
            return false;
        }
        let mut i: usize = 0;
        while i < self.0.len()
            invariant
                i <= self.0@.len(),
                self.0@.len() == rows,
                forall|k: int| 0 <= k < i ==> (#[trigger] self.0@[k])@.len() == columns,
            decreases self.0@.len() - i,
        {
            if self.0[i].len() != columns {
                return false;
            }
            i += 1;
        }
        true
    }

    /// Evaluates the tile of the piece `tile` on `values`.
    pub fn evaluate_tile(&self, tile: (u32, u32), values: T) -> (r: T::Number)
        requires
            self.has_tile(tile),
        ensures
            r == self.spec_evaluate_tile(tile, values),
    {
        let tile = &self.0[tile.1 as usize][tile.0 as usize];
        let lookup_4x_table = PowersLookupTable::new(values, tile.max_pow);
        tile.evaluate(&lookup_4x_table)
    }
}

/// Whether a grid of tiles, if there is one, has a tile for each piece of
/// `support`.
pub open spec fn grid_matches<S: Scalar>(
    line_tiles: Option<TileSet<ParametricLine<S>>>,
    support: Support<S>,
) -> bool {
    match line_tiles {
        None => true,
        Some(tiles) => tiles.is_grid(spec_piece_count(support.0), spec_piece_count(support.1)),
    }
}

/// A piecewise polynomial kernel.
pub struct DynamicFilter<S: Scalar> {
    name: String,
    support: Support<S>,
    normalization: S,
    line_tiles: Option<TileSet<ParametricLine<S>>>,
}

impl<S: Scalar> DynamicFilter<S> {
    #[verifier::type_invariant]
    spec fn well_formed(self) -> bool {
        grid_matches(self.line_tiles, self.support)
    }

    pub closed spec fn name(&self) -> Seq<char> {
        self.name@
    }

    pub closed spec fn extent(&self) -> Support<S> {
        self.support
    }

    /// The factor by which every result is scaled.
    pub closed spec fn normalization(&self) -> S {
        self.normalization
    }

    /// The tiles for straight segments, if the kernel has any.
    pub closed spec fn line_tiles(&self) -> Option<TileSet<ParametricLine<S>>> {
        self.line_tiles
    }

    /// The channels of a segment: its start and its direction.
    pub open spec fn channels(line: Line<S>) -> ParametricLine<S> {
        ParametricLine {
            origin: (line.start.x, line.start.y),
            vector: (line.end.x.spec_sub(line.start.x), line.end.y.spec_sub(line.start.y)),
        }
    }

    /// The channels of a segment with the horizontal ones replaced by 1 and 0:
    /// what is left does not change when the segment moves sideways.
    pub open spec fn carried_channels(line: Line<S>) -> ParametricLine<S> {
        ParametricLine {
            origin: (S::spec_one(), line.start.y),
            vector: (S::spec_zero(), line.end.y.spec_sub(line.start.y)),
        }
    }

    /// A kernel from its description. It is turned down if it has tiles and
    /// their grid differs from the pieces of the support.
    pub fn new(
        name: String,
        support: Support<S>,
        normalization: S,
        line_tiles: Option<TileSet<ParametricLine<S>>>,
    ) -> (r: Result<DynamicFilter<S>, ConfigurationError>)
        ensures
            match r {
                Ok(filter) => {
                    &&& grid_matches(line_tiles, support)
                    &&& filter.name() == name@
                    &&& filter.extent() == support
                    &&& filter.normalization() == normalization
                    &&& filter.line_tiles() == line_tiles
                },
                Err(e) => e == ConfigurationError::SupportMismatch && !grid_matches(
                    line_tiles,
                    support,
                ),
            },
    {
        let fits = match &line_tiles {
            None => true,
            Some(tiles) => tiles.forms_grid(piece_count(support.0), piece_count(support.1)),
        };
        if !fits {
            return Err(ConfigurationError::SupportMismatch);
        }
        Ok(
            DynamicFilter {
                name: name,
                support: support,
                normalization: normalization,
                line_tiles: line_tiles,
            },
        )
    }
}

impl<S: Scalar> Filter<S> for DynamicFilter<S> {
    open spec fn spec_support(&self) -> Support<S> {
        self.extent()
    }

    fn support(&self) -> (r: Support<S>) {
        self.support
    }
}

impl<S: Scalar> Evaluate<S, Line<S>> for DynamicFilter<S> {
    open spec fn spec_eval(&self, line: Line<S>, piece: (u32, u32)) -> Result<
        (S, S),
        UnsupportedCurveType,
    > {
        match self.line_tiles() {
            None => Err(UnsupportedCurveType),
            Some(tiles) => if !tiles.has_tile(piece) {
                Err(UnsupportedCurveType)
            } else {
                Ok(
                    (
                        tiles.spec_evaluate_tile(piece, Self::channels(line)).spec_mul(
                            self.normalization(),
                        ),
                        tiles.spec_evaluate_tile(piece, Self::carried_channels(line)).spec_mul(
                            self.normalization(),
                        ),
                    ),
                )
            },
        }
    }

    fn eval(&self, line: Line<S>, piece: (u32, u32)) -> (r: Result<(S, S), UnsupportedCurveType>) {
        let line_tileset = match &self.line_tiles {
            Some(tiles) => tiles,
            None => {
                return Err(UnsupportedCurveType);
            },
        };
        if !line_tileset.contains(piece) {
            return Err(UnsupportedCurveType);
        }
        let mut par_line = ParametricLine {
            origin: (line.start.x, line.start.y),
            vector: (line.end.x.sub(line.start.x), line.end.y.sub(line.start.y)),
        };
        let pixel_value = line_tileset.evaluate_tile(piece, par_line);
        par_line.origin.0 = S::one();
        par_line.vector.0 = S::zero();
        let accumulator = line_tileset.evaluate_tile(piece, par_line);

        Ok((pixel_value.mul(self.normalization), accumulator.mul(self.normalization)))
    }
}

/// Whether every monomial of a tile has the direction of the segment as a
/// factor: a positive exponent on one of the two direction channels.
pub open spec fn vanishes_with_direction<T: PowerLookup>(tile: Tile<T>) -> bool {
    forall|i: int|
        0 <= i < tile.powers().len() ==> (#[trigger] tile.powers()[i])[2] > 0
            || tile.powers()[i][3] > 0
}

/// A tile whose monomials all have the direction as a factor is zero on
/// parameters whose direction is zero, where zero behaves as in exact
/// arithmetic.
pub proof fn lemma_tile_of_point_is_zero<S: Scalar>(
    tile: Tile<ParametricLine<S>>,
    values: ParametricLine<S>,
)
    requires
        zero_annihilates::<S>(),
        tile_fits(tile.coefficients().len(), tile.powers(), tile.max_pow()),
        vanishes_with_direction(tile),
        values.vector == (S::spec_zero(), S::spec_zero()),
    ensures
        tile.spec_evaluate(power_table(values, tile.max_pow())) == S::spec_zero(),
{
    let table = power_table(values, tile.max_pow());
    assert forall|i: int| 0 <= i implies #[trigger] tile.term(table, i) == S::spec_zero() by {
        if i < tile.powers().len() {
            let e2 = tile.powers()[i][2];
            let e3 = tile.powers()[i][3];
            assert(e2 <= tile.max_pow() && e3 <= tile.max_pow());
            lemma_power_by_channel(values, e2 as nat);
            lemma_power_by_channel(values, e3 as nat);
            assert(table[e2 as int].spec_channel(2) == scalar_power(S::spec_zero(), e2 as nat));
            assert(table[e3 as int].spec_channel(3) == scalar_power(S::spec_zero(), e3 as nat));
            if e2 > 0 {
                assert(table[e2 as int].spec_channel(2) == S::spec_zero());
            } else {
                assert(table[e3 as int].spec_channel(3) == S::spec_zero());
            }
        } else {
            assert(tile.padded_coefficient(i) == S::spec_zero());
        }
    }
    let n = tile.batches();
    lemma_lanes_of_zero_terms(tile, table, 0, n);
    lemma_lanes_of_zero_terms(tile, table, 1, n);
    lemma_lanes_of_zero_terms(tile, table, 2, n);
    lemma_lanes_of_zero_terms(tile, table, 3, n);
}

proof fn lemma_lanes_of_zero_terms<T: PowerLookup>(
    tile: Tile<T>,
    table: Seq<T>,
    lane: int,
    batches: nat,
)
    requires
        0 <= lane,
        T::Number::spec_zero().spec_add(T::Number::spec_zero()) == T::Number::spec_zero(),
        forall|i: int| 0 <= i ==> #[trigger] tile.term(table, i) == T::Number::spec_zero(),
    ensures
        tile.lane_sum(table, lane, batches) == T::Number::spec_zero(),
    decreases batches,
{
    if batches > 0 {
        lemma_lanes_of_zero_terms(tile, table, lane, (batches - 1) as nat);
        assert(tile.term(table, 4 * (batches - 1) + lane) == T::Number::spec_zero());
    }
}

/// A segment that starts where it ends contributes nothing under a kernel
/// whose tile for the piece has the direction as a factor of every monomial,
/// where zero behaves as in exact arithmetic.
pub proof fn lemma_point_contributes_nothing<S: Scalar>(
    filter: DynamicFilter<S>,
    line: Line<S>,
    piece: (u32, u32),
)
    requires
        zero_annihilates::<S>(),
        line.start == line.end,
        filter.line_tiles() is Some,
        filter.line_tiles().unwrap().has_tile(piece),
        ({
            let tile = filter.line_tiles().unwrap().0@[piece.1 as int]@[piece.0 as int];
            &&& tile_fits(tile.coefficients().len(), tile.powers(), tile.max_pow())
            &&& vanishes_with_direction(tile)
        }),
    ensures
        filter.spec_eval(line, piece) == Ok::<(S, S), UnsupportedCurveType>(
            (S::spec_zero(), S::spec_zero()),
        ),
{
    let tile = filter.line_tiles().unwrap().0@[piece.1 as int]@[piece.0 as int];
    lemma_tile_of_point_is_zero(tile, DynamicFilter::channels(line));
    lemma_tile_of_point_is_zero(tile, DynamicFilter::carried_channels(line));
}

} // verus!
