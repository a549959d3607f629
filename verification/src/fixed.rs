//! Exact fixed-point numbers: a number type whose arithmetic is the same on
//! every machine.
use vstd::prelude::*;
use crate::scalar::{zero_annihilates, Scalar};

verus! {

/// A number with 16 binary places behind the point: `raw` counts 65536ths.
/// Results that do not fit are replaced by the nearest number that does.
#[derive(Debug, Copy, Clone, PartialEq, Eq)]
pub struct Fixed {
    pub raw: i64,
}

/// The nearest value that fits.
pub open spec fn clamp(v: int) -> i64 {
    if v < i64::MIN {
        i64::MIN
    } else if v > i64::MAX {
        i64::MAX
    } else {
        v as i64
    }
}

pub open spec fn magnitude(v: int) -> int {
    if v < 0 {
        -v
    } else {
        v
    }
}

pub open spec fn signed(negative: bool, m: int) -> int {
    if negative {
        -m
    } else {
        m
    }
}

/// The product of two counts of 65536ths, rounded towards zero.
pub open spec fn product(a: int, b: int) -> int {
    signed((a < 0) != (b < 0), magnitude(a) * magnitude(b) / 65536)
}

/// The quotient of two counts of 65536ths, rounded towards zero; zero where
/// the divisor is zero.
pub open spec fn quotient(a: int, b: int) -> int {
    if b == 0 {
        0
    } else {
        signed((a < 0) != (b < 0), magnitude(a) * 65536 / magnitude(b))
    }
}

/// Whether `r` is the square root of `n`, rounded down.
pub open spec fn is_root(r: int, n: int) -> bool {
    0 <= r && r * r <= n < (r + 1) * (r + 1)
}

/// The square root of `n`, rounded down.
pub open spec fn root(n: int) -> int {
    choose|r: int| is_root(r, n)
}

proof fn lemma_root_is_unique(a: int, b: int, n: int)
    requires
        is_root(a, n),
        is_root(b, n),
    ensures
        a == b,
{
    if a < b {
        assert((a + 1) * (a + 1) <= b * b) by (nonlinear_arith)
            requires
                0 <= a,
                a + 1 <= b,
        ;
    } else if b < a {
        assert((b + 1) * (b + 1) <= a * a) by (nonlinear_arith)
            requires
                0 <= b,
                b + 1 <= a,
        ;
    }
}

fn magnitude_of(v: i64) -> (r: u128)
    ensures
        r == magnitude(v as int),
        r <= 0x8000_0000_0000_0000,
{
    if v < 0 {
        (-(v as i128)) as u128
    } else {
        v as u128
    }
}

fn with_sign(negative: bool, m: u128) -> (r: i64)
    ensures
        r == clamp(signed(negative, m as int)),
{
    if negative {
        if m >= 0x8000_0000_0000_0000 {
            i64::MIN
        } else {
            -(m as i64)
        }
    } else {
        if m > 0x7fff_ffff_ffff_ffff {
            i64::MAX
        } else {
            m as i64
        }
    }
}

/// The square root of `n`, rounded down, found by halving an interval.
fn root_of(n: u128) -> (r: u128)
    requires
        n < 0x1_0000_0000_0000_0000_0000,
    ensures
        is_root(r as int, n as int),
        r < 0x100_0000_0000,
{
    let mut lo: u128 = 0;
    let mut hi: u128 = 0x100_0000_0000;
    assert(hi * hi == 0x1_0000_0000_0000_0000_0000) by (nonlinear_arith)
        requires
            hi == 0x100_0000_0000,
    ;
    while hi - lo > 1
        invariant
            lo < hi <= 0x100_0000_0000,
            lo * lo <= n < hi * hi,
        decreases hi - lo,
    {
        let mid = lo + (hi - lo) / 2;
        assert(mid * mid <= 0x1_0000_0000_0000_0000_0000) by (nonlinear_arith)
            requires
                mid <= 0x100_0000_0000,
        ;
        if mid * mid <= n {
            lo = mid;
        } else {
            hi = mid;
        }
    }
    lo
}

impl Scalar for Fixed {
    open spec fn spec_zero() -> Fixed {
        Fixed { raw: 0 }
    }

    open spec fn spec_one() -> Fixed {
        Fixed { raw: 65536 }
    }

    open spec fn spec_half() -> Fixed {
        Fixed { raw: 32768 }
    }

    open spec fn spec_from_usize(n: usize) -> Fixed {
        Fixed { raw: clamp(n * 65536) }
    }

    open spec fn spec_to_usize(self) -> usize {
        if self.raw <= 0 {
            0
        } else if self.raw / 65536 > usize::MAX {
            usize::MAX
        } else {
            (self.raw / 65536) as usize
        }
    }

    open spec fn spec_add(self, rhs: Fixed) -> Fixed {
        Fixed { raw: clamp(self.raw + rhs.raw) }
    }

    open spec fn spec_sub(self, rhs: Fixed) -> Fixed {
        Fixed { raw: clamp(self.raw - rhs.raw) }
    }

    open spec fn spec_mul(self, rhs: Fixed) -> Fixed {
        Fixed { raw: clamp(product(self.raw as int, rhs.raw as int)) }
    }

    open spec fn spec_div(self, rhs: Fixed) -> Fixed {
        Fixed { raw: clamp(quotient(self.raw as int, rhs.raw as int)) }
    }

    open spec fn spec_neg(self) -> Fixed {
        Fixed { raw: clamp(-self.raw) }
    }

    open spec fn spec_sqrt(self) -> Fixed {
        if self.raw <= 0 {
            Fixed { raw: 0 }
        } else {
            Fixed { raw: root(self.raw * 65536) as i64 }
        }
    }

    open spec fn spec_lt(self, rhs: Fixed) -> bool {
        self.raw < rhs.raw
    }

    open spec fn spec_le(self, rhs: Fixed) -> bool {
        self.raw <= rhs.raw
    }

    open spec fn spec_eq(self, rhs: Fixed) -> bool {
        self.raw == rhs.raw
    }

    fn zero() -> (r: Fixed) {
        Fixed { raw: 0 }
    }

    fn one() -> (r: Fixed) {
        Fixed { raw: 65536 }
    }

    fn half() -> (r: Fixed) {
        Fixed { raw: 32768 }
    }

    fn from_usize(n: usize) -> (r: Fixed) {
        Fixed { raw: with_sign(false, n as u128 * 65536) }
    }

    fn to_usize(self) -> (r: usize) {
        if self.raw <= 0 {
            0
        } else {
            let whole = (self.raw as u64) / 65536;
            if whole > usize::MAX as u64 {
                usize::MAX
            } else {
                whole as usize
            }
        }
    }

    fn add(self, rhs: Fixed) -> (r: Fixed) {
        let sum = self.raw as i128 + rhs.raw as i128;
        if sum < 0 {
            Fixed { raw: with_sign(true, (-sum) as u128) }
        } else {
            Fixed { raw: with_sign(false, sum as u128) }
        }
    }

    fn sub(self, rhs: Fixed) -> (r: Fixed) {
        let difference = self.raw as i128 - rhs.raw as i128;
        if difference < 0 {
            Fixed { raw: with_sign(true, (-difference) as u128) }
        } else {
            Fixed { raw: with_sign(false, difference as u128) }
        }
    }

    fn mul(self, rhs: Fixed) -> (r: Fixed) {
        let a = magnitude_of(self.raw);
        let b = magnitude_of(rhs.raw);
        assert(a * b <= 0x4000_0000_0000_0000_0000_0000_0000_0000) by (nonlinear_arith)
            requires
                a <= 0x8000_0000_0000_0000,
                b <= 0x8000_0000_0000_0000,
        ;
        Fixed { raw: with_sign((self.raw < 0) != (rhs.raw < 0), a * b / 65536) }
    }

    fn div(self, rhs: Fixed) -> (r: Fixed) {
        if rhs.raw == 0 {
            return Fixed { raw: 0 };
        }
        let a = magnitude_of(self.raw);
        let b = magnitude_of(rhs.raw);
        Fixed { raw: with_sign((self.raw < 0) != (rhs.raw < 0), a * 65536 / b) }
    }

    fn neg(self) -> (r: Fixed) {
        Fixed { raw: with_sign(self.raw >= 0, magnitude_of(self.raw)) }
    }

    fn sqrt(self) -> (r: Fixed) {
        if self.raw <= 0 {
            return Fixed { raw: 0 };
        }
        let n = self.raw as u128 * 65536;
        let r = root_of(n);
        proof {
            lemma_root_is_unique(r as int, root(n as int), n as int);
        }
        Fixed { raw: r as i64 }
    }

    fn lt(self, rhs: Fixed) -> (r: bool) {
        self.raw < rhs.raw
    }

    fn le(self, rhs: Fixed) -> (r: bool) {
        self.raw <= rhs.raw
    }

    fn eq(self, rhs: Fixed) -> (r: bool) {
        self.raw == rhs.raw
    }
}

/// In fixed-point arithmetic zero behaves as in exact arithmetic.
pub proof fn lemma_fixed_zero_annihilates()
    ensures
        zero_annihilates::<Fixed>(),
{
    assert forall|a: Fixed| (#[trigger] Fixed::spec_zero().spec_mul(a)) == Fixed::spec_zero() by {
        assert(0 * magnitude(a.raw as int) == 0);
    }
    assert forall|a: Fixed| (#[trigger] a.spec_mul(Fixed::spec_zero())) == Fixed::spec_zero() by {
        assert(magnitude(a.raw as int) * 0 == 0);
    }
    assert forall|a: Fixed| a != Fixed::spec_zero() implies (#[trigger] Fixed::spec_zero().spec_div(
        a,
    )) == Fixed::spec_zero() by {
        let m = magnitude(a.raw as int);
        assert(0int / m == 0) by (nonlinear_arith)
            requires
                m > 0,
        ;
    }
}

} // verus!
