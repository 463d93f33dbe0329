//! Locations in space.

use vstd::prelude::*;
use crate::fixed::Fixed;
use crate::vector::{Vector, V3};

verus! {

/// A location in world space.
#[derive(Clone, Copy, Debug)]
pub struct Coordinate {
    pub x: Fixed,
    pub y: Fixed,
    pub z: Fixed,
}

impl View for Coordinate {
    type V = V3;

    open spec fn view(&self) -> V3 {
        V3 { x: self.x@, y: self.y@, z: self.z@ }
    }
}

impl Coordinate {
    /// The displacement that leads from `other` to `self`.
    pub fn sub(self, other: Coordinate) -> (r: Vector)
        ensures
            r@ == self@.minus(other@),
    {
        Vector { x: self.x.sub(other.x), y: self.y.sub(other.y), z: self.z.sub(other.z) }
    }

    /// The location that `other` leads to from `self`.
    pub fn add(self, other: Vector) -> (r: Coordinate)
        ensures
            r@ == self@.plus(other@),
    {
        Coordinate { x: self.x.add(other.x), y: self.y.add(other.y), z: self.z.add(other.z) }
    }
}

} // verus!
