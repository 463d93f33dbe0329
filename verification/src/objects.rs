//! Rays, the shapes they strike, and the record of a strike.

use vstd::prelude::*;
use crate::color::Color;
use crate::coordinate::Coordinate;
use crate::fixed::{is_isqrt, isqrt, quotient, Fixed, MAX_RAW, ONE_RAW};
use crate::vector::{Vector, V3};

verus! {

/// The raw value that the cosine between a plane's normal and a ray must
/// exceed for the ray to strike the plane: about a millionth.
pub const EPSILON_RAW: i64 = 4295;

/// The model of a ray.
pub struct RayModel {
    pub origin: V3,
    pub direction: V3,
}

/// A half-line.  Those who make one are expected to give it a direction of
/// length one.
#[derive(Clone, Copy, Debug)]
pub struct Ray {
    pub origin: Coordinate,
    pub direction: Vector,
}

impl View for Ray {
    type V = RayModel;

    open spec fn view(&self) -> RayModel {
        RayModel { origin: self.origin@, direction: self.direction@ }
    }
}

/// The distance along `ray` at which it strikes the plane through `center`
/// with the given normal.  Only a ray that runs along the normal by more
/// than the threshold strikes; a distance that is negative or out of range
/// is no strike.
pub open spec fn plane_hit(center: V3, normal: V3, ray: RayModel) -> Option<int> {
    let denom = normal.dot(ray.direction);
    if denom <= EPSILON_RAW {
        None
    } else {
        let t = quotient(center.minus(ray.origin).dot(normal), denom);
        if 0 <= t < MAX_RAW {
            Some(t)
        } else {
            None
        }
    }
}

/// The length of the ray's direction that lies along the line from the
/// ray's origin to `center`.
pub open spec fn sphere_along(center: V3, ray: RayModel) -> int {
    center.minus(ray.origin).dot(ray.direction)
}

/// The squared distance from `center` to the line of the ray, at twice the
/// scale.
pub open spec fn sphere_offset(center: V3, ray: RayModel) -> int {
    let line = center.minus(ray.origin);
    line.dot_wide(line) - sphere_along(center, ray) * sphere_along(center, ray)
}

/// The distance along `ray` at which it strikes the sphere: the nearer of
/// the two crossings if it lies ahead, else the farther one; none if both
/// lie behind, if the ray passes the sphere by, or if the distance is out of
/// range.
pub open spec fn sphere_hit(center: V3, radius: int, ray: RayModel) -> Option<int> {
    let along = sphere_along(center, ray);
    let offset = sphere_offset(center, ray);
    let reach = radius * radius;
    if offset > reach {
        None
    } else {
        let half = isqrt(reach - offset);
        let near = along - half;
        let far = along + half;
        if far < 0 {
            None
        } else {
            let t = if near >= 0 { near } else { far };
            if t < MAX_RAW {
                Some(t)
            } else {
                None
            }
        }
    }
}

/// The model of an optional distance.
pub open spec fn distance_model(d: Option<Fixed>) -> Option<int> {
    match d {
        Some(t) => Some(t@),
        None => None,
    }
}

/// A sphere with its material.
#[derive(Clone, Copy, Debug)]
pub struct Sphere {
    pub center: Coordinate,
    pub radius: Fixed,
    pub color: Color,
    pub irradiance: Fixed,
    pub reflectivity: Fixed,
}

/// A plane with its material.  Only rays that run along the normal strike
/// it, and the normal of its surface points the other way.
#[derive(Clone, Copy, Debug)]
pub struct Plane {
    pub center: Coordinate,
    pub normal: Vector,
    pub color: Color,
    pub irradiance: Fixed,
    pub reflectivity: Fixed,
}

/// A shape of the scene.
#[derive(Clone, Copy, Debug)]
pub enum Shape {
    Plane(Plane),
    Sphere(Sphere),
}

/// What a ray can strike.
pub trait Hittable {
    /// The distance at which `ray` strikes, if it does.
    spec fn hit_spec(&self, ray: RayModel) -> Option<int>;

    /// The normal of the surface at `spot`.
    spec fn normal_spec(&self, spot: V3) -> V3;

    /// The distance at which `ray` strikes, if it does: never negative and
    /// never saturated.
    fn hit(&self, ray: &Ray) -> (r: Option<Fixed>)
        ensures
            distance_model(r) == self.hit_spec(ray@),
            r matches Some(t) ==> 0 <= t@ < MAX_RAW,
    ;

    /// The normal of the surface at `intersection_spot`.
    fn surface_normal(&self, intersection_spot: &Coordinate) -> (r: Vector)
        ensures
            r@ == self.normal_spec(intersection_spot@),
    ;
}

impl Hittable for Plane {
    open spec fn hit_spec(&self, ray: RayModel) -> Option<int> {
        plane_hit(self.center@, self.normal@, ray)
    }

    open spec fn normal_spec(&self, spot: V3) -> V3 {
        self.normal@.normalized().negated()
    }

    fn hit(&self, ray: &Ray) -> (r: Option<Fixed>) {
        let denom = self.normal.dot(ray.direction);
        if denom.gt(&Fixed::from_raw(EPSILON_RAW)) {
            let v = self.center.sub(ray.origin);
            let distance = v.dot(self.normal).div(denom);
            if distance.raw() >= 0 && distance.is_finite() {
                return Some(distance);
            }
        }
        None
    }

    fn surface_normal(&self, _intersection_spot: &Coordinate) -> (r: Vector) {
        self.normal.normalize().neg()
    }
}

impl Hittable for Sphere {
    open spec fn hit_spec(&self, ray: RayModel) -> Option<int> {
        sphere_hit(self.center@, self.radius@, ray)
    }

    open spec fn normal_spec(&self, spot: V3) -> V3 {
        spot.minus(self.center@).normalized()
    }

    fn hit(&self, ray: &Ray) -> (r: Option<Fixed>) {
        let center_line = self.center.sub(ray.origin);
        let length = center_line.dot(ray.direction);
        let squared: i128 = (center_line.norm_squared_wide() as i128) - length.wide_mul(length);
        let reach: i128 = self.radius.wide_mul(self.radius);
        if squared > reach {
            return None;
        }
        assert(length@ * length@ >= 0) by (nonlinear_arith);
        let half: i128 = crate::fixed::integer_sqrt((reach - squared) as u128) as i128;
        let near: i128 = (length.raw() as i128) - half;
        let far: i128 = (length.raw() as i128) + half;
        if far < 0 {
            return None;
        }
        let distance: i128 = if near >= 0 { near } else { far };
        if distance < MAX_RAW as i128 {
            Some(Fixed::from_wide(distance))
        } else {
            None
        }
    }

    fn surface_normal(&self, intersection_spot: &Coordinate) -> (r: Vector) {
        intersection_spot.sub(self.center).normalize()
    }
}

impl Hittable for Shape {
    open spec fn hit_spec(&self, ray: RayModel) -> Option<int> {
        match *self {
            Shape::Plane(plane) => plane.hit_spec(ray),
            Shape::Sphere(sphere) => sphere.hit_spec(ray),
        }
    }

    open spec fn normal_spec(&self, spot: V3) -> V3 {
        match *self {
            Shape::Plane(plane) => plane.normal_spec(spot),
            Shape::Sphere(sphere) => sphere.normal_spec(spot),
        }
    }

    fn hit(&self, ray: &Ray) -> (r: Option<Fixed>) {
        match self {
            Shape::Plane(plane) => plane.hit(ray),
            Shape::Sphere(sphere) => sphere.hit(ray),
        }
    }

    fn surface_normal(&self, intersection_spot: &Coordinate) -> (r: Vector) {
        match self {
            Shape::Plane(plane) => plane.surface_normal(intersection_spot),
            Shape::Sphere(sphere) => sphere.surface_normal(intersection_spot),
        }
    }
}

impl Shape {
    /// A sphere.
    pub fn new_sphere(
        center: Coordinate,
        radius: Fixed,
        color: Color,
        irradiance: Fixed,
        reflectivity: Fixed,
    ) -> (r: Shape)
        ensures
            r == Shape::Sphere(Sphere { center, radius, color, irradiance, reflectivity }),
    {
        Shape::Sphere(Sphere { center, radius, color, irradiance, reflectivity })
    }

    /// A plane through `center`.
    pub fn new_plane(
        center: Coordinate,
        normal: Vector,
        color: Color,
        irradiance: Fixed,
        reflectivity: Fixed,
    ) -> (r: Shape)
        ensures
            r == Shape::Plane(Plane { center, normal, color, irradiance, reflectivity }),
    {
        Shape::Plane(Plane { center, normal, color, irradiance, reflectivity })
    }

    /// The colour of the material.
    pub open spec fn color_spec(&self) -> Color {
        match *self {
            Shape::Sphere(sphere) => sphere.color,
            Shape::Plane(plane) => plane.color,
        }
    }

    /// How much of the light that falls on the material it gives back.
    pub open spec fn irradiance_spec(&self) -> Fixed {
        match *self {
            Shape::Sphere(sphere) => sphere.irradiance,
            Shape::Plane(plane) => plane.irradiance,
        }
    }

    /// How much the material mirrors.
    pub open spec fn reflectivity_spec(&self) -> Fixed {
        match *self {
            Shape::Sphere(sphere) => sphere.reflectivity,
            Shape::Plane(plane) => plane.reflectivity,
        }
    }

    /// The colour of the material.
    pub fn color(&self) -> (r: Color)
        ensures
            r == self.color_spec(),
    {
        match self {
            Shape::Sphere(sphere) => sphere.color,
            Shape::Plane(plane) => plane.color,
        }
    }

    /// How much of the light that falls on the material it gives back.
    pub fn irradiance(&self) -> (r: Fixed)
        ensures
            r == self.irradiance_spec(),
    {
        match self {
            Shape::Sphere(sphere) => sphere.irradiance,
            Shape::Plane(plane) => plane.irradiance,
        }
    }

    /// How much the material mirrors.
    pub fn reflectivity(&self) -> (r: Fixed)
        ensures
            r == self.reflectivity_spec(),
    {
        match self {
            Shape::Sphere(sphere) => sphere.reflectivity,
            Shape::Plane(plane) => plane.reflectivity,
        }
    }
}

/// A ray that runs at right angles to the normal of a plane, and so along
/// the plane, does not strike it.
pub proof fn lemma_parallel_ray_misses_plane(plane: Plane, ray: RayModel)
    requires
        plane.normal@.dot_wide(ray.direction) == 0,
    ensures
        plane.hit_spec(ray) is None,
{
}

/// Where `l` is `d` stretched by `t`, the products `l * d` and `l * l` are
/// `d * d` stretched by `t` and by `t * t`.
proof fn lemma_stretched_products(l: int, d: int, t: int)
    requires
        l * 0x1_0000_0000 == t * d,
    ensures
        (l * d) * 0x1_0000_0000 == t * (d * d),
        (l * l) * 0x1_0000_0000 * 0x1_0000_0000 == (t * t) * (d * d),
{
    assert((l * d) * 0x1_0000_0000 == t * (d * d)) by (nonlinear_arith)
        requires
            l * 0x1_0000_0000 == t * d,
    ;
    assert((l * l) * 0x1_0000_0000 * 0x1_0000_0000 == (t * d) * (t * d)) by (nonlinear_arith)
        requires
            l * 0x1_0000_0000 == t * d,
    ;
    assert((t * d) * (t * d) == (t * t) * (d * d)) by (nonlinear_arith);
}

/// Where the direction of a ray has length exactly one and leads from the
/// ray's origin to `center` in `t` steps, the ray runs through `center`: it
/// has `t` of its length along the line to the centre and no offset from it.
pub proof fn lemma_aligned_ray_has_no_offset(center: V3, ray: RayModel, t: int)
    requires
        ray.direction.dot_wide(ray.direction) == ONE_RAW * ONE_RAW,
        0 <= t <= MAX_RAW,
        center.minus(ray.origin).x * ONE_RAW == t * ray.direction.x,
        center.minus(ray.origin).y * ONE_RAW == t * ray.direction.y,
        center.minus(ray.origin).z * ONE_RAW == t * ray.direction.z,
    ensures
        sphere_along(center, ray) == t,
        sphere_offset(center, ray) == 0,
{
    let line = center.minus(ray.origin);
    let d = ray.direction;
    lemma_stretched_products(line.x, d.x, t);
    lemma_stretched_products(line.y, d.y, t);
    lemma_stretched_products(line.z, d.z, t);
    let dd = d.x * d.x + d.y * d.y + d.z * d.z;
    assert(t * dd == t * (d.x * d.x) + t * (d.y * d.y) + t * (d.z * d.z)) by (nonlinear_arith)
        requires
            dd == d.x * d.x + d.y * d.y + d.z * d.z,
    ;
    assert((t * t) * dd == (t * t) * (d.x * d.x) + (t * t) * (d.y * d.y) + (t * t) * (d.z * d.z))
        by (nonlinear_arith)
        requires
            dd == d.x * d.x + d.y * d.y + d.z * d.z,
    ;
    assert(dd == 0x1_0000_0000 * 0x1_0000_0000);
    assert(t * dd == (t * 0x1_0000_0000) * 0x1_0000_0000) by (nonlinear_arith)
        requires
            dd == 0x1_0000_0000 * 0x1_0000_0000,
    ;
    assert((t * t) * dd == ((t * t) * 0x1_0000_0000) * 0x1_0000_0000) by (nonlinear_arith)
        requires
            dd == 0x1_0000_0000 * 0x1_0000_0000,
    ;
    assert(line.dot_wide(d) == t * 0x1_0000_0000);
    assert(line.dot_wide(line) == t * t);
}

/// A ray that starts outside a sphere and runs exactly through its centre
/// strikes the sphere at the distance of the centre less the radius.
pub proof fn lemma_ray_through_center(sphere: Sphere, ray: RayModel)
    requires
        sphere_offset(sphere.center@, ray) == 0,
        sphere_along(sphere.center@, ray) >= 0,
        0 < sphere.radius@ < sphere.center@.minus(ray.origin).length(),
    ensures
        sphere.hit_spec(ray) == Some(
            sphere.center@.minus(ray.origin).length() - sphere.radius@,
        ),
{
    let line = sphere.center@.minus(ray.origin);
    let along = sphere_along(sphere.center@, ray);
    let radius = sphere.radius@;
    crate::fixed::lemma_isqrt_square(along);
    crate::fixed::lemma_isqrt_square(radius);
    assert(line.length() == along);
}

/// A ray of length exactly one that leads from its origin to the centre of
/// a sphere in `t` steps, from outside the sphere, strikes the sphere after
/// `t` less the radius; and `t` is the distance of the centre.
pub proof fn lemma_unit_ray_through_center(sphere: Sphere, ray: RayModel, t: int)
    requires
        ray.direction.dot_wide(ray.direction) == ONE_RAW * ONE_RAW,
        0 < sphere.radius@ < t <= MAX_RAW,
        sphere.center@.minus(ray.origin).x * ONE_RAW == t * ray.direction.x,
        sphere.center@.minus(ray.origin).y * ONE_RAW == t * ray.direction.y,
        sphere.center@.minus(ray.origin).z * ONE_RAW == t * ray.direction.z,
    ensures
        sphere.center@.minus(ray.origin).length() == t,
        sphere.hit_spec(ray) == Some(t - sphere.radius@),
{
    lemma_aligned_ray_has_no_offset(sphere.center@, ray, t);
    crate::fixed::lemma_isqrt_square(t);
    lemma_ray_through_center(sphere, ray);
}

/// Whatever a shape reports as the distance of a strike is neither negative
/// nor saturated.
pub proof fn lemma_hit_in_range(shape: Shape, ray: RayModel)
    ensures
        shape.hit_spec(ray) matches Some(t) ==> 0 <= t < MAX_RAW,
{
}

/// The distance at which a ray strikes a plane solves the equation of the
/// plane as well as a raw value can: covered at the rate at which the ray
/// runs along the normal, it differs from the way to the plane by less than
/// one step of that rate.
pub proof fn lemma_plane_hit_solves(plane: Plane, ray: RayModel)
    ensures
        plane.hit_spec(ray) matches Some(t) ==> ({
            let rate = plane.normal@.dot(ray.direction);
            let way = plane.center@.minus(ray.origin).dot(plane.normal@);
            rate > EPSILON_RAW && -rate < way * ONE_RAW - t * rate < rate
        }),
{
    let rate = plane.normal@.dot(ray.direction);
    let way = plane.center@.minus(ray.origin).dot(plane.normal@);
    if plane.hit_spec(ray) is Some {
        let t = plane.hit_spec(ray).unwrap();
        let w = way * ONE_RAW;
        if w >= 0 {
            assert(t * rate <= w < t * rate + rate) by (nonlinear_arith)
                requires
                    t == w / rate,
                    rate > 0,
                    w >= 0,
            ;
        } else {
            assert(t * rate <= -w < t * rate + rate) by (nonlinear_arith)
                requires
                    t == (-w) / rate,
                    rate > 0,
                    -w >= 0,
            ;
            assert(t == 0);
            assert(t * rate == 0) by (nonlinear_arith)
                requires
                    t == 0,
            ;
        }
    }
}

/// The point at which a ray strikes a sphere lies on the sphere as nearly
/// as a raw value can: its distance from the foot of the centre on the ray
/// is the integer square root of what the squared radius has over the
/// squared offset of the ray.  It is the nearer of the two such points
/// unless that one lies behind the origin of the ray.
pub proof fn lemma_sphere_hit_on_surface(sphere: Sphere, ray: RayModel)
    ensures
        sphere.hit_spec(ray) matches Some(t) ==> ({
            let along = sphere_along(sphere.center@, ray);
            let room = sphere.radius@ * sphere.radius@ - sphere_offset(sphere.center@, ray);
            &&& room >= 0
            &&& is_isqrt(room, t - along) || is_isqrt(room, along - t)
            &&& t > along ==> 2 * along - t < 0
        }),
{
    let room = sphere.radius@ * sphere.radius@ - sphere_offset(sphere.center@, ray);
    if room >= 0 {
        crate::fixed::lemma_isqrt_exists(room);
    }
}

/// The vector that gives the normal of `shape` at `spot` its direction,
/// before it is brought to length one: the normal of a plane, and for a
/// sphere the line from the centre to `spot`.
pub open spec fn normal_line(shape: Shape, spot: V3) -> V3 {
    match shape {
        Shape::Plane(plane) => plane.normal@,
        Shape::Sphere(sphere) => spot.minus(sphere.center@),
    }
}

/// The normal of a surface has length one, to within a few units in the
/// last place of its square, where the vector it is made from is at least
/// one long.
pub proof fn lemma_surface_normal_is_unit(shape: Shape, spot: V3)
    requires
        normal_line(shape, spot).length_wide() >= ONE_RAW,
    ensures
        ONE_RAW * (ONE_RAW - 6) <= shape.normal_spec(spot).dot_wide(shape.normal_spec(spot)) < (
        ONE_RAW + 1) * (ONE_RAW + 1),
{
    let line = normal_line(shape, spot);
    crate::vector::lemma_normalized_length(line);
    let n = line.normalized();
    assert(n.negated().dot_wide(n.negated()) == n.dot_wide(n)) by (nonlinear_arith)
        requires
            n.negated().dot_wide(n.negated()) == (-n.x) * (-n.x) + (-n.y) * (-n.y) + (-n.z) * (
            -n.z),
            n.dot_wide(n) == n.x * n.x + n.y * n.y + n.z * n.z,
    ;
}

/// A strike: how far along the ray, and on which shape.
#[derive(Clone, Copy, Debug)]
pub struct Hit<'a> {
    pub distance: Fixed,
    pub shape: &'a Shape,
}

impl<'a> Hit<'a> {
    /// The strike on `shape` at `distance`, which must not be saturated.
    pub fn new<'b>(distance: Fixed, shape: &'b Shape) -> (h: Hit<'b>)
        requires
            -MAX_RAW < distance@ < MAX_RAW,
        ensures
            h.distance == distance,
            h.shape == shape,
    {
        Hit { distance, shape }
    }
}

} // verus!
