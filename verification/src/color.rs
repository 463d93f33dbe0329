//! Colours: three channels that may leave the displayable range while light
//! is summed up, and are clamped into it at the end.

use vstd::prelude::*;
use crate::fixed::{Fixed, ONE_RAW};
use crate::vector::V3;

verus! {

/// The raw value `c` brought into the displayable range, zero to one.
pub open spec fn clamp_unit(c: int) -> int {
    if c < 0 {
        0
    } else if c > ONE_RAW {
        ONE_RAW as int
    } else {
        c
    }
}

/// The model of a colour with every channel clamped.
pub open spec fn clamped(c: V3) -> V3 {
    V3 { x: clamp_unit(c.x), y: clamp_unit(c.y), z: clamp_unit(c.z) }
}

/// The model of black.
pub open spec fn black() -> V3 {
    V3 { x: 0, y: 0, z: 0 }
}

/// A colour.  Its model holds red, green and blue as `x`, `y` and `z`.
#[derive(Clone, Copy, Debug)]
pub struct Color {
    pub r: Fixed,
    pub g: Fixed,
    pub b: Fixed,
}

impl View for Color {
    type V = V3;

    open spec fn view(&self) -> V3 {
        V3 { x: self.r@, y: self.g@, z: self.b@ }
    }
}

impl Color {
    /// Black.
    pub fn black() -> (r: Color)
        ensures
            r@ == black(),
    {
        Color { r: Fixed::zero(), g: Fixed::zero(), b: Fixed::zero() }
    }

    /// The colour with every channel brought into zero to one.  A channel
    /// that is already there keeps its value.
    pub fn clamp(&self) -> (r: Color)
        ensures
            r@ == clamped(self@),
            0 <= r.r@ <= ONE_RAW,
            0 <= r.g@ <= ONE_RAW,
            0 <= r.b@ <= ONE_RAW,
            0 <= self.r@ <= ONE_RAW ==> r.r@ == self.r@,
            0 <= self.g@ <= ONE_RAW ==> r.g@ == self.g@,
            0 <= self.b@ <= ONE_RAW ==> r.b@ == self.b@,
    {
        Color {
            r: self.r.min(Fixed::one()).max(Fixed::zero()),
            g: self.g.min(Fixed::one()).max(Fixed::zero()),
            b: self.b.min(Fixed::one()).max(Fixed::zero()),
        }
    }

    /// The channel-wise sum.
    pub fn add(self, other: Color) -> (r: Color)
        ensures
            r@ == self@.plus(other@),
    {
        Color { r: self.r.add(other.r), g: self.g.add(other.g), b: self.b.add(other.b) }
    }

    /// The channel-wise product.
    pub fn mul(self, rhs: Color) -> (r: Color)
        ensures
            r@ == self@.times(rhs@),
    {
        Color { r: self.r.mul(rhs.r), g: self.g.mul(rhs.g), b: self.b.mul(rhs.b) }
    }

    /// Every channel multiplied by `k`.
    pub fn scale(self, k: Fixed) -> (r: Color)
        ensures
            r@ == self@.scaled(k@),
    {
        Color { r: self.r.mul(k), g: self.g.mul(k), b: self.b.mul(k) }
    }
}

/// The colour on the scale of 0 to 255 on which image files hold it.
pub fn rgb(color: &Color) -> (r: Color)
    ensures
        r@ == color@.scaled(255 * ONE_RAW),
{
    color.scale(Fixed::from_int(255))
}

} // verus!
