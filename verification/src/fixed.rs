//! Fixed-point scalars: signed, 32 fractional bits, saturating.

use vstd::prelude::*;

verus! {

/// The raw value of the number one.
pub const ONE_RAW: i64 = 0x1_0000_0000;

/// The largest raw value; the smallest is its negation.
pub const MAX_RAW: i64 = 0x3FFF_FFFF_FFFF_FFFF;

/// The raw value nearest to the circle constant.
pub const PI_RAW: i64 = 13493037705;

/// `x` brought into the range of raw values.
pub open spec fn clip(x: int) -> int {
    if x < -MAX_RAW {
        -(MAX_RAW as int)
    } else if x > MAX_RAW {
        MAX_RAW as int
    } else {
        x
    }
}

/// The quotient of `x` by a non-zero `d`, rounded toward zero.
pub open spec fn trunc_div(x: int, d: int) -> int {
    if d > 0 {
        if x >= 0 {
            x / d
        } else {
            -((-x) / d)
        }
    } else {
        if x >= 0 {
            -(x / (-d))
        } else {
            (-x) / (-d)
        }
    }
}

/// The raw value of the product of two raw values.
pub open spec fn product(a: int, b: int) -> int {
    clip(trunc_div(a * b, ONE_RAW as int))
}

/// The raw value of the quotient of two raw values.  A division by zero
/// saturates by the sign of the dividend, and zero by zero is zero.
pub open spec fn quotient(a: int, b: int) -> int {
    if b == 0 {
        if a > 0 {
            MAX_RAW as int
        } else if a < 0 {
            -(MAX_RAW as int)
        } else {
            0
        }
    } else {
        clip(trunc_div(a * ONE_RAW, b))
    }
}

/// `r` is the integer square root of `n`.
pub open spec fn is_isqrt(n: int, r: int) -> bool {
    0 <= r && r * r <= n < (r + 1) * (r + 1)
}

/// The integer square root of a non-negative `n`.
pub open spec fn isqrt(n: int) -> int {
    choose|r: int| is_isqrt(n, r)
}

/// A number has at most one integer square root.
pub proof fn lemma_isqrt_unique(n: int, r1: int, r2: int)
    requires
        is_isqrt(n, r1),
        is_isqrt(n, r2),
    ensures
        r1 == r2,
{
    if r1 < r2 {
        assert((r1 + 1) * (r1 + 1) <= r2 * r2) by (nonlinear_arith)
            requires
                0 <= r1,
                r1 + 1 <= r2,
        ;
    } else if r2 < r1 {
        assert((r2 + 1) * (r2 + 1) <= r1 * r1) by (nonlinear_arith)
            requires
                0 <= r2,
                r2 + 1 <= r1,
        ;
    }
}

/// Whatever passes for the integer square root of `n` is `isqrt(n)`.
pub proof fn lemma_isqrt_is(n: int, r: int)
    requires
        is_isqrt(n, r),
    ensures
        isqrt(n) == r,
{
    lemma_isqrt_unique(n, r, isqrt(n));
}

/// Every non-negative number has an integer square root, which `isqrt`
/// names.
pub proof fn lemma_isqrt_exists(n: int)
    requires
        0 <= n,
    ensures
        is_isqrt(n, isqrt(n)),
    decreases n,
{
    if n == 0 {
        assert(is_isqrt(0, 0));
    } else {
        lemma_isqrt_exists(n - 1);
        let r = isqrt(n - 1);
        if (r + 1) * (r + 1) <= n {
            assert(n < (r + 2) * (r + 2)) by (nonlinear_arith)
                requires
                    0 <= r,
                    n - 1 < (r + 1) * (r + 1),
            ;
            assert(is_isqrt(n, r + 1));
        } else {
            assert(r * r <= n);
            assert(is_isqrt(n, r));
        }
    }
}

/// The integer square root of a square is its non-negative base.
pub proof fn lemma_isqrt_square(r: int)
    requires
        0 <= r,
    ensures
        isqrt(r * r) == r,
{
    assert(r * r < (r + 1) * (r + 1)) by (nonlinear_arith)
        requires
            0 <= r,
    ;
    lemma_isqrt_is(r * r, r);
}

/// The integer square root of `n`, found by bisection.
pub fn integer_sqrt(n: u128) -> (r: u128)
    ensures
        is_isqrt(n as int, r as int),
        r == isqrt(n as int),
        r < 0x1_0000_0000_0000_0000,
{
    let mut lo: u128 = 0;
    let mut hi: u128 = 0x1_0000_0000_0000_0000;
    assert(0x1_0000_0000_0000_0000int * 0x1_0000_0000_0000_0000int > u128::MAX) by (nonlinear_arith);
    while hi - lo > 1
        invariant
            lo < hi <= 0x1_0000_0000_0000_0000,
            lo * lo <= n < hi * hi,
        decreases hi - lo,
    {
        let mid: u128 = lo + (hi - lo) / 2;
        assert(mid * mid <= 0xFFFF_FFFF_FFFF_FFFF * 0xFFFF_FFFF_FFFF_FFFF) by (nonlinear_arith)
            requires
                0 <= mid <= 0xFFFF_FFFF_FFFF_FFFF,
        ;
        assert(0xFFFF_FFFF_FFFF_FFFFint * 0xFFFF_FFFF_FFFF_FFFFint <= u128::MAX) by (nonlinear_arith);
        if mid * mid <= n {
            lo = mid;
        } else {
            hi = mid;
        }
    }
    proof {
        lemma_isqrt_is(n as int, lo as int);
    }
    lo
}

/// A fixed-point number: `raw / 2^32`, with `|raw| <= MAX_RAW`.
#[derive(Clone, Copy, Debug)]
pub struct Fixed {
    raw: i64,
}

impl View for Fixed {
    type V = int;

    /// The raw value.
    closed spec fn view(&self) -> int {
        self.raw as int
    }
}

impl Fixed {
    #[verifier::type_invariant]
    closed spec fn in_bounds(self) -> bool {
        -MAX_RAW <= self.raw <= MAX_RAW
    }

    fn saturate(x: i128) -> (r: Fixed)
        ensures
            r@ == clip(x as int),
    {
        if x < -(MAX_RAW as i128) {
            Fixed { raw: -MAX_RAW }
        } else if x > MAX_RAW as i128 {
            Fixed { raw: MAX_RAW }
        } else {
            Fixed { raw: x as i64 }
        }
    }

    /// The exact product of the two raw values, at twice the scale.
    pub fn wide_mul(self, rhs: Fixed) -> (p: i128)
        ensures
            p == self@ * rhs@,
            -0x1000_0000_0000_0000_0000_0000_0000_0000 <= p
                <= 0x1000_0000_0000_0000_0000_0000_0000_0000,
    {
        proof {
            use_type_invariant(&self);
            use_type_invariant(&rhs);
        }
        let a: i128 = self.raw as i128;
        let b: i128 = rhs.raw as i128;
        assert(-0x1000_0000_0000_0000_0000_0000_0000_0000 <= a * b
            <= 0x1000_0000_0000_0000_0000_0000_0000_0000) by (nonlinear_arith)
            requires
                -0x4000_0000_0000_0000 <= a <= 0x4000_0000_0000_0000,
                -0x4000_0000_0000_0000 <= b <= 0x4000_0000_0000_0000,
        ;
        a * b
    }

    /// The number with the raw value `x`, saturated.
    pub fn from_wide(x: i128) -> (r: Fixed)
        ensures
            r@ == clip(x as int),
    {
        Fixed::saturate(x)
    }

    /// The quotient of two raw values that need not be in range, rounded
    /// toward zero and saturated.
    pub fn wide_ratio(num: i128, den: i128) -> (r: Fixed)
        requires
            -0x8000_0000_0000_0000 <= num <= 0x8000_0000_0000_0000,
            -0x8000_0000_0000_0000 <= den <= 0x8000_0000_0000_0000,
        ensures
            r@ == quotient(num as int, den as int),
    {
        if den == 0 {
            if num > 0 {
                Fixed { raw: MAX_RAW }
            } else if num < 0 {
                Fixed { raw: -MAX_RAW }
            } else {
                Fixed { raw: 0 }
            }
        } else {
            Fixed::saturate(Fixed::scaled_quotient(num, den))
        }
    }

    fn scaled_quotient(num: i128, den: i128) -> (q: i128)
        requires
            -0x8000_0000_0000_0000 <= num <= 0x8000_0000_0000_0000,
            -0x8000_0000_0000_0000 <= den <= 0x8000_0000_0000_0000,
            den != 0,
        ensures
            q == trunc_div(num * ONE_RAW, den as int),
    {
        let n: i128 = num * 0x1_0000_0000i128;
        if den < 0 {
            (-n) / (-den)
        } else {
            n / den
        }
    }

    /// The number with the given raw value, saturated.
    pub fn from_raw(raw: i64) -> (r: Fixed)
        ensures
            r@ == clip(raw as int),
    {
        Fixed::saturate(raw as i128)
    }

    /// The raw value.
    pub fn raw(&self) -> (r: i64)
        ensures
            r == self@,
            -MAX_RAW <= r <= MAX_RAW,
    {
        proof {
            use_type_invariant(self);
        }
        self.raw
    }

    /// The whole number `n`, saturated.
    pub fn from_int(n: i64) -> (r: Fixed)
        ensures
            r@ == clip(n * ONE_RAW),
    {
        Fixed::saturate((n as i128) * 0x1_0000_0000i128)
    }

    /// The fraction `num / den`, rounded toward zero and saturated.
    pub fn from_ratio(num: i64, den: i64) -> (r: Fixed)
        ensures
            r@ == quotient(num as int, den as int),
    {
        Fixed::wide_ratio(num as i128, den as i128)
    }

    /// Zero.
    pub fn zero() -> (r: Fixed)
        ensures
            r@ == 0,
    {
        Fixed { raw: 0 }
    }

    /// One.
    pub fn one() -> (r: Fixed)
        ensures
            r@ == ONE_RAW,
    {
        Fixed { raw: ONE_RAW }
    }

    /// The largest number, which also stands for an unbounded quantity.
    pub fn max_value() -> (r: Fixed)
        ensures
            r@ == MAX_RAW,
    {
        Fixed { raw: MAX_RAW }
    }

    /// The circle constant.
    pub fn pi() -> (r: Fixed)
        ensures
            r@ == PI_RAW,
    {
        Fixed { raw: PI_RAW }
    }

    /// Whether the number lies strictly inside the range, so that no
    /// saturation produced it.
    pub fn is_finite(&self) -> (r: bool)
        ensures
            r == (-MAX_RAW < self@ < MAX_RAW),
    {
        -MAX_RAW < self.raw && self.raw < MAX_RAW
    }

    /// The whole part of the number, brought into the range of a byte.
    pub fn to_byte(&self) -> (r: u8)
        ensures
            r == if self@ < 0 {
                0
            } else if self@ / (ONE_RAW as int) > 255 {
                255
            } else {
                self@ / (ONE_RAW as int)
            },
    {
        if self.raw < 0 {
            0
        } else {
            let whole: i64 = self.raw / ONE_RAW;
            if whole > 255 {
                255
            } else {
                whole as u8
            }
        }
    }

    /// The saturated sum.
    pub fn add(self, rhs: Fixed) -> (r: Fixed)
        ensures
            r@ == clip(self@ + rhs@),
    {
        Fixed::saturate((self.raw as i128) + (rhs.raw as i128))
    }

    /// The saturated difference.
    pub fn sub(self, rhs: Fixed) -> (r: Fixed)
        ensures
            r@ == clip(self@ - rhs@),
    {
        Fixed::saturate((self.raw as i128) - (rhs.raw as i128))
    }

    /// The negation.
    pub fn neg(self) -> (r: Fixed)
        ensures
            r@ == -self@,
    {
        proof {
            use_type_invariant(&self);
        }
        Fixed { raw: -self.raw }
    }

    /// The product, rounded toward zero and saturated.
    pub fn mul(self, rhs: Fixed) -> (r: Fixed)
        ensures
            r@ == product(self@, rhs@),
    {
        Fixed::saturate(self.wide_mul(rhs) / (ONE_RAW as i128))
    }

    /// The quotient, rounded toward zero and saturated; see `quotient` for a
    /// zero divisor.
    pub fn div(self, rhs: Fixed) -> (r: Fixed)
        ensures
            r@ == quotient(self@, rhs@),
    {
        Fixed::wide_ratio(self.raw as i128, rhs.raw as i128)
    }

    /// The larger of the two.
    pub fn max(self, rhs: Fixed) -> (r: Fixed)
        ensures
            r@ == if self@ >= rhs@ { self@ } else { rhs@ },
    {
        if self.raw >= rhs.raw { self } else { rhs }
    }

    /// The smaller of the two.
    pub fn min(self, rhs: Fixed) -> (r: Fixed)
        ensures
            r@ == if self@ <= rhs@ { self@ } else { rhs@ },
    {
        if self.raw <= rhs.raw { self } else { rhs }
    }

    /// Whether `self` is less than `rhs`.
    pub fn lt(&self, rhs: &Fixed) -> (r: bool)
        ensures
            r == (self@ < rhs@),
    {
        self.raw < rhs.raw
    }

    /// Whether `self` is at most `rhs`.
    pub fn le(&self, rhs: &Fixed) -> (r: bool)
        ensures
            r == (self@ <= rhs@),
    {
        self.raw <= rhs.raw
    }

    /// Whether `self` is greater than `rhs`.
    pub fn gt(&self, rhs: &Fixed) -> (r: bool)
        ensures
            r == (self@ > rhs@),
    {
        self.raw > rhs.raw
    }
}

} // verus!
