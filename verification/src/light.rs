//! Light sources: one that shines from afar in a single direction, and one
//! that shines from a point and fades with the square of the distance.

use vstd::prelude::*;
use crate::color::Color;
use crate::coordinate::Coordinate;
use crate::fixed::{product, quotient, Fixed, MAX_RAW, ONE_RAW, PI_RAW};
use crate::vector::{Vector, V3};

verus! {

/// A light that shines along `direction` with the same strength everywhere.
#[derive(Clone, Copy, Debug)]
pub struct DirectionalLight {
    pub direction: Vector,
    pub color: Color,
    pub strength: Fixed,
}

/// A light that shines from `position` in all directions.
#[derive(Clone, Copy, Debug)]
pub struct SphericalLight {
    pub position: Coordinate,
    pub color: Color,
    pub strength: Fixed,
}

/// A light of the scene.
#[derive(Clone, Copy, Debug)]
pub enum Light {
    Directional(DirectionalLight),
    Spherical(SphericalLight),
}

/// The strength that is left of `strength` at the displacement `v` from a
/// point light: `strength / (4 * pi * |v|^2)`.  Where the squared distance
/// rounds to zero the division saturates.
pub open spec fn falloff(strength: int, v: V3) -> int {
    quotient(strength, product(4 * PI_RAW, v.dot(v)))
}

impl Light {
    /// The colour of the light.
    pub open spec fn color_spec(&self) -> Color {
        match *self {
            Light::Directional(d) => d.color,
            Light::Spherical(s) => s.color,
        }
    }

    /// The direction from `point` toward the light.
    pub open spec fn direction_spec(&self, point: V3) -> V3 {
        match *self {
            Light::Directional(d) => d.direction@.negated(),
            Light::Spherical(s) => s.position@.minus(point).normalized(),
        }
    }

    /// The strength of the light at `point`.
    pub open spec fn strength_spec(&self, point: V3) -> int {
        match *self {
            Light::Directional(d) => d.strength@,
            Light::Spherical(s) => falloff(s.strength@, s.position@.minus(point)),
        }
    }

    /// The distance from `point` to the light; the largest number for a
    /// light that shines from afar.
    pub open spec fn distance_spec(&self, point: V3) -> int {
        match *self {
            Light::Directional(_) => MAX_RAW as int,
            Light::Spherical(s) => s.position@.minus(point).length(),
        }
    }

    /// The colour of the light.
    pub fn color(&self) -> (r: Color)
        ensures
            r == self.color_spec(),
    {
        match self {
            Light::Directional(d) => d.color,
            Light::Spherical(s) => s.color,
        }
    }

    /// The direction from `hit_coordinate` toward the light.
    pub fn direction_from(&self, hit_coordinate: &Coordinate) -> (r: Vector)
        ensures
            r@ == self.direction_spec(hit_coordinate@),
    {
        match self {
            Light::Directional(d) => d.direction.neg(),
            Light::Spherical(s) => s.position.sub(*hit_coordinate).normalize(),
        }
    }

    /// The strength of the light at `hit_coordinate`.
    pub fn strength(&self, hit_coordinate: &Coordinate) -> (r: Fixed)
        ensures
            r@ == self.strength_spec(hit_coordinate@),
    {
        match self {
            Light::Directional(d) => d.strength,
            Light::Spherical(s) => {
                let v = s.position.sub(*hit_coordinate);
                let r2 = v.dot(v);
                s.strength.div(Fixed::from_raw(4 * PI_RAW).mul(r2))
            },
        }
    }

    /// The distance from `hit_coordinate` to the light.
    pub fn distance(&self, hit_coordinate: &Coordinate) -> (r: Fixed)
        ensures
            r@ == self.distance_spec(hit_coordinate@),
    {
        match self {
            Light::Directional(_) => Fixed::max_value(),
            Light::Spherical(s) => s.position.sub(*hit_coordinate).length(),
        }
    }
}

/// The direction toward a light that shines from a point has length one, to
/// within a few units in the last place of its square, where the light is at
/// least one away.
pub proof fn lemma_direction_to_point_light_is_unit(light: SphericalLight, point: V3)
    requires
        light.position@.minus(point).length_wide() >= ONE_RAW,
    ensures
        ({
            let d = Light::Spherical(light).direction_spec(point);
            ONE_RAW * (ONE_RAW - 6) <= d.dot_wide(d) < (ONE_RAW + 1) * (ONE_RAW + 1)
        }),
{
    crate::vector::lemma_normalized_length(light.position@.minus(point));
}

} // verus!
