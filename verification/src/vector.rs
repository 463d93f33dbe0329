//! Displacements in space, and the integer model of a triple.

use vstd::prelude::*;
use crate::fixed::{clip, isqrt, product, quotient, trunc_div, Fixed, ONE_RAW};

verus! {

/// Three raw values: the model of a vector, a point or a colour.
pub struct V3 {
    pub x: int,
    pub y: int,
    pub z: int,
}

impl V3 {
    /// The component-wise saturated sum.
    pub open spec fn plus(self, o: V3) -> V3 {
        V3 { x: clip(self.x + o.x), y: clip(self.y + o.y), z: clip(self.z + o.z) }
    }

    /// The component-wise saturated difference.
    pub open spec fn minus(self, o: V3) -> V3 {
        V3 { x: clip(self.x - o.x), y: clip(self.y - o.y), z: clip(self.z - o.z) }
    }

    /// The opposite triple.
    pub open spec fn negated(self) -> V3 {
        V3 { x: -self.x, y: -self.y, z: -self.z }
    }

    /// Every component multiplied by the raw value `k`.
    pub open spec fn scaled(self, k: int) -> V3 {
        V3 { x: product(self.x, k), y: product(self.y, k), z: product(self.z, k) }
    }

    /// The component-wise product.
    pub open spec fn times(self, o: V3) -> V3 {
        V3 { x: product(self.x, o.x), y: product(self.y, o.y), z: product(self.z, o.z) }
    }

    /// The exact sum of the component products, at twice the scale.
    pub open spec fn dot_wide(self, o: V3) -> int {
        self.x * o.x + self.y * o.y + self.z * o.z
    }

    /// The dot product as a raw value: one rounding, then saturation.
    pub open spec fn dot(self, o: V3) -> int {
        clip(trunc_div(self.dot_wide(o), ONE_RAW as int))
    }

    /// The Euclidean length before saturation.
    pub open spec fn length_wide(self) -> int {
        isqrt(self.dot_wide(self))
    }

    /// The Euclidean length as a raw value.
    pub open spec fn length(self) -> int {
        clip(self.length_wide())
    }

    /// The triple divided by its length; the zero triple where the length
    /// rounds to zero.
    pub open spec fn normalized(self) -> V3 {
        let len = self.length_wide();
        if len == 0 {
            V3 { x: 0, y: 0, z: 0 }
        } else {
            V3 { x: quotient(self.x, len), y: quotient(self.y, len), z: quotient(self.z, len) }
        }
    }
}

/// The share `x * ONE_RAW / len` of a component that is no longer than the
/// whole is at most one.
proof fn lemma_share_within_one(x: int, len: int)
    requires
        0 < len,
        -len <= x <= len,
    ensures
        -ONE_RAW <= quotient(x, len) <= ONE_RAW,
{
    let one = ONE_RAW as int;
    if x >= 0 {
        assert(0 <= (x * one) / len <= one) by (nonlinear_arith)
            requires
                0 <= x <= len,
                0 < len,
                one > 0,
        ;
        assert(x * one >= 0) by (nonlinear_arith)
            requires
                0 <= x,
                one > 0,
        ;
    } else {
        assert(0 <= ((-x) * one) / len <= one) by (nonlinear_arith)
            requires
                0 <= -x <= len,
                0 < len,
                one > 0,
        ;
        assert(x * one < 0 && -(x * one) == (-x) * one) by (nonlinear_arith)
            requires
                x < 0,
                one > 0,
        ;
    }
}

/// No component of a normalized vector is longer than one.
pub proof fn lemma_normalized_within_one(v: V3)
    ensures
        -ONE_RAW <= v.normalized().x <= ONE_RAW,
        -ONE_RAW <= v.normalized().y <= ONE_RAW,
        -ONE_RAW <= v.normalized().z <= ONE_RAW,
{
    let n = v.dot_wide(v);
    let len = v.length_wide();
    assert(v.x * v.x >= 0 && v.y * v.y >= 0 && v.z * v.z >= 0) by (nonlinear_arith);
    crate::fixed::lemma_isqrt_exists(n);
    if len != 0 {
        assert(-len <= v.x <= len) by (nonlinear_arith)
            requires
                0 <= len,
                v.x * v.x < (len + 1) * (len + 1),
        ;
        assert(-len <= v.y <= len) by (nonlinear_arith)
            requires
                0 <= len,
                v.y * v.y < (len + 1) * (len + 1),
        ;
        assert(-len <= v.z <= len) by (nonlinear_arith)
            requires
                0 <= len,
                v.z * v.z < (len + 1) * (len + 1),
        ;
        lemma_share_within_one(v.x, len);
        lemma_share_within_one(v.y, len);
        lemma_share_within_one(v.z, len);
    }
}

/// The share `q = quotient(x, len)` of a component, stretched by `len`
/// again, is no longer than `x` and falls short of it by less than `len`;
/// so are their squares related, at the scale of `len * ONE_RAW`.
proof fn lemma_share_square(x: int, len: int)
    requires
        0 < len,
        -len <= x <= len,
    ensures
        (quotient(x, len) * len) * (quotient(x, len) * len) <= (x * ONE_RAW) * (x * ONE_RAW),
        (quotient(x, len) * len) * (quotient(x, len) * len) >= (x * ONE_RAW) * (x * ONE_RAW) - 2
            * ONE_RAW * (len * len),
{
    let one = ONE_RAW as int;
    let a = if x >= 0 { x } else { -x };
    let w = a * one;
    let m = w / len;
    let p = m * len;
    let q = quotient(x, len);
    lemma_share_within_one(x, len);
    assert(w >= 0) by (nonlinear_arith)
        requires
            w == a * one,
            a >= 0,
            one > 0,
    ;
    assert(x * one == if x >= 0 { w } else { -w }) by (nonlinear_arith)
        requires
            w == a * one,
            a == if x >= 0 { x } else { -x },
    ;
    assert(q == if x >= 0 { m } else { -m });
    assert(q * len == if x >= 0 { p } else { -p }) by (nonlinear_arith)
        requires
            q == if x >= 0 { m } else { -m },
            p == m * len,
    ;
    assert(0 <= p <= w < p + len) by (nonlinear_arith)
        requires
            m == w / len,
            p == m * len,
            len > 0,
            w >= 0,
    ;
    assert((q * len) * (q * len) == p * p) by (nonlinear_arith)
        requires
            q * len == p || q * len == -p,
    ;
    assert((x * one) * (x * one) == w * w) by (nonlinear_arith)
        requires
            x * one == w || x * one == -w,
    ;
    assert(p * p <= w * w) by (nonlinear_arith)
        requires
            0 <= p <= w,
    ;
    assert(p * p >= w * w - 2 * (len * w)) by (nonlinear_arith)
        requires
            0 <= p <= w < p + len,
            len > 0,
    ;
    assert(len * w <= one * (len * len)) by (nonlinear_arith)
        requires
            w == a * one,
            0 <= a <= len,
            one > 0,
    ;
}

/// The square of a product is the product of the squares.
proof fn lemma_square_of_product(a: int, b: int)
    ensures
        (a * b) * (a * b) == (a * a) * (b * b),
{
    assert((a * b) * (a * b) == (a * a) * (b * b)) by (nonlinear_arith);
}

/// A sum of three, times `k`, is the sum of the three times `k`.
proof fn lemma_sum_times(a: int, b: int, c: int, k: int)
    ensures
        (a + b + c) * k == a * k + b * k + c * k,
{
    assert((a + b + c) * k == a * k + b * k + c * k) by (nonlinear_arith);
}

/// How long a normalized vector is.  Its squared length falls short of one
/// by less than six units in the last place, and does not exceed the exact
/// square of the quotient; for a vector at least one long it stays below
/// the square of one and a unit in the last place.
pub proof fn lemma_normalized_length(v: V3)
    requires
        v.length_wide() > 0,
    ensures
        ONE_RAW * (ONE_RAW - 6) <= v.normalized().dot_wide(v.normalized()),
        v.normalized().dot_wide(v.normalized()) * (v.length_wide() * v.length_wide()) <= (ONE_RAW
            * ONE_RAW) * v.dot_wide(v),
        v.length_wide() >= ONE_RAW ==> v.normalized().dot_wide(v.normalized()) < (ONE_RAW + 1) * (
        ONE_RAW + 1),
{
    let one = ONE_RAW as int;
    let total = v.dot_wide(v);
    let len = v.length_wide();
    let n = v.normalized();
    let s = n.dot_wide(n);
    assert(v.x * v.x >= 0 && v.y * v.y >= 0 && v.z * v.z >= 0) by (nonlinear_arith);
    crate::fixed::lemma_isqrt_exists(total);
    assert(-len <= v.x <= len) by (nonlinear_arith)
        requires
            0 <= len,
            v.x * v.x < (len + 1) * (len + 1),
    ;
    assert(-len <= v.y <= len) by (nonlinear_arith)
        requires
            0 <= len,
            v.y * v.y < (len + 1) * (len + 1),
    ;
    assert(-len <= v.z <= len) by (nonlinear_arith)
        requires
            0 <= len,
            v.z * v.z < (len + 1) * (len + 1),
    ;
    lemma_share_square(v.x, len);
    lemma_share_square(v.y, len);
    lemma_share_square(v.z, len);
    let ll = len * len;
    assert(ll > 0) by (nonlinear_arith)
        requires
            ll == len * len,
            len > 0,
    ;
    lemma_square_of_product(n.x, len);
    lemma_square_of_product(n.y, len);
    lemma_square_of_product(n.z, len);
    lemma_square_of_product(v.x, one);
    lemma_square_of_product(v.y, one);
    lemma_square_of_product(v.z, one);
    lemma_sum_times(n.x * n.x, n.y * n.y, n.z * n.z, ll);
    lemma_sum_times(v.x * v.x, v.y * v.y, v.z * v.z, one * one);
    assert((one * one) * total == total * (one * one)) by (nonlinear_arith);
    assert(s * ll <= (one * one) * total);
    let d = one * ll;
    assert(2 * ONE_RAW * (len * len) == 2 * d && 6 * one * ll == 6 * d) by (nonlinear_arith)
        requires
            d == one * ll,
            ll == len * len,
            one == ONE_RAW,
    ;
    assert(s * ll >= (one * one) * total - 6 * d);
    assert((one * one) * total >= (one * one) * ll) by (nonlinear_arith)
        requires
            total >= ll,
            one > 0,
    ;
    assert(s >= one * (one - 6)) by (nonlinear_arith)
        requires
            s * ll >= (one * one) * ll - 6 * (one * ll),
            ll > 0,
    ;
    if len >= one {
        assert((one * one) * total < ((one + 1) * (one + 1)) * ll) by (nonlinear_arith)
            requires
                total < (len + 1) * (len + 1),
                ll == len * len,
                len >= one,
                one > 0,
        ;
        assert(s < (one + 1) * (one + 1)) by (nonlinear_arith)
            requires
                s * ll < ((one + 1) * (one + 1)) * ll,
                ll > 0,
        ;
    }
}

/// A displacement or direction.
#[derive(Clone, Copy, Debug)]
pub struct Vector {
    pub x: Fixed,
    pub y: Fixed,
    pub z: Fixed,
}

impl View for Vector {
    type V = V3;

    open spec fn view(&self) -> V3 {
        V3 { x: self.x@, y: self.y@, z: self.z@ }
    }
}

impl Vector {
    /// The vector with the given components.
    pub fn new(x: Fixed, y: Fixed, z: Fixed) -> (r: Vector)
        ensures
            r@ == (V3 { x: x@, y: y@, z: z@ }),
    {
        Vector { x, y, z }
    }

    /// The sum of the squared components, at twice the scale.
    pub fn norm_squared_wide(&self) -> (r: u128)
        ensures
            r == self@.dot_wide(self@),
            r <= 0x3000_0000_0000_0000_0000_0000_0000_0000,
    {
        let a: i128 = self.x.wide_mul(self.x);
        let b: i128 = self.y.wide_mul(self.y);
        let c: i128 = self.z.wide_mul(self.z);
        assert(self.x@ * self.x@ >= 0) by (nonlinear_arith);
        assert(self.y@ * self.y@ >= 0) by (nonlinear_arith);
        assert(self.z@ * self.z@ >= 0) by (nonlinear_arith);
        (a + b + c) as u128
    }

    /// The length before saturation.
    pub fn length_wide(&self) -> (r: i128)
        ensures
            r == self@.length_wide(),
            0 <= r < 0x8000_0000_0000_0000,
    {
        let n: u128 = self.norm_squared_wide();
        let r: u128 = crate::fixed::integer_sqrt(n);
        assert(r < 0x8000_0000_0000_0000) by (nonlinear_arith)
            requires
                r * r <= n,
                n <= 0x3000_0000_0000_0000_0000_0000_0000_0000,
        ;
        r as i128
    }

    /// The sum.
    pub fn add(self, o: Vector) -> (r: Vector)
        ensures
            r@ == self@.plus(o@),
    {
        Vector { x: self.x.add(o.x), y: self.y.add(o.y), z: self.z.add(o.z) }
    }

    /// The difference.
    pub fn sub(self, o: Vector) -> (r: Vector)
        ensures
            r@ == self@.minus(o@),
    {
        Vector { x: self.x.sub(o.x), y: self.y.sub(o.y), z: self.z.sub(o.z) }
    }

    /// The opposite vector.
    pub fn neg(self) -> (r: Vector)
        ensures
            r@ == self@.negated(),
    {
        Vector { x: self.x.neg(), y: self.y.neg(), z: self.z.neg() }
    }

    /// The vector stretched by `k`.
    pub fn scale(self, k: Fixed) -> (r: Vector)
        ensures
            r@ == self@.scaled(k@),
    {
        Vector { x: self.x.mul(k), y: self.y.mul(k), z: self.z.mul(k) }
    }

    /// The dot product.
    pub fn dot(self, o: Vector) -> (r: Fixed)
        ensures
            r@ == self@.dot(o@),
    {
        let a: i128 = self.x.wide_mul(o.x);
        let b: i128 = self.y.wide_mul(o.y);
        let c: i128 = self.z.wide_mul(o.z);
        Fixed::from_wide((a + b + c) / 0x1_0000_0000i128)
    }

    /// The Euclidean length.
    pub fn length(self) -> (r: Fixed)
        ensures
            r@ == self@.length(),
    {
        Fixed::from_wide(self.length_wide())
    }

    /// The vector of length one in the same direction.  A vector whose
    /// length rounds to zero has no direction and gives the zero vector.
    pub fn normalize(self) -> (r: Vector)
        ensures
            r@ == self@.normalized(),
            -ONE_RAW <= r.x@ <= ONE_RAW,
            -ONE_RAW <= r.y@ <= ONE_RAW,
            -ONE_RAW <= r.z@ <= ONE_RAW,
    {
        proof {
            lemma_normalized_within_one(self@);
        }
        let len: i128 = self.length_wide();
        if len == 0 {
            Vector { x: Fixed::zero(), y: Fixed::zero(), z: Fixed::zero() }
        } else {
            Vector {
                x: Fixed::wide_ratio(self.x.raw() as i128, len),
                y: Fixed::wide_ratio(self.y.raw() as i128, len),
                z: Fixed::wide_ratio(self.z.raw() as i128, len),
            }
        }
    }
}

} // verus!
