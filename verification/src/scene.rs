//! The scene: its shapes and lights, the camera, and the search for the
//! nearest strike of a ray.

use vstd::prelude::*;
use crate::color::Color;
use crate::coordinate::Coordinate;
use crate::fixed::{product, quotient, Fixed, MAX_RAW, ONE_RAW};
use crate::light::{Light, SphericalLight};
use crate::objects::{Hit, Hittable, Ray, RayModel, Shape};
use crate::vector::{Vector, V3};

verus! {

/// What is rendered, and how.
pub struct Scene {
    /// The number of pixel columns.
    pub width: u32,
    /// The number of pixel rows.
    pub height: u32,
    /// The tangent of half the field of view.
    pub fov_scale: Fixed,
    pub shapes: Vec<Shape>,
    pub lights: Vec<Light>,
    /// How far the origin of a secondary ray is lifted off the surface.
    pub shadow: Fixed,
}

/// The index of the shape that `ray` strikes first among the first `n`
/// shapes: the least distance wins, and among equal distances the shape
/// that comes first.
pub open spec fn nearest(shapes: Seq<Shape>, ray: RayModel, n: int) -> Option<int>
    decreases n,
{
    if n <= 0 {
        None
    } else {
        let before = nearest(shapes, ray, n - 1);
        match shapes[n - 1].hit_spec(ray) {
            None => before,
            Some(t) => match before {
                None => Some(n - 1),
                Some(i) => if t < shapes[i].hit_spec(ray).unwrap() {
                    Some(n - 1)
                } else {
                    before
                },
            },
        }
    }
}

/// Shape `i` is struck by `ray`, no shape of the first `n` is struck nearer,
/// and none before `i` as near.
pub open spec fn is_first_minimum(shapes: Seq<Shape>, ray: RayModel, n: int, i: int) -> bool {
    &&& 0 <= i < n
    &&& shapes[i].hit_spec(ray) is Some
    &&& forall|j: int|
        0 <= j < n && shapes[j].hit_spec(ray) is Some ==> shapes[i].hit_spec(ray).unwrap()
            <= (#[trigger] shapes[j].hit_spec(ray)).unwrap()
    &&& forall|j: int|
        0 <= j < i && shapes[j].hit_spec(ray) is Some ==> shapes[i].hit_spec(ray).unwrap() < (
        #[trigger] shapes[j].hit_spec(ray)).unwrap()
}

/// `nearest` finds the first shape at the least distance, and finds none
/// only where the ray strikes none.
pub proof fn lemma_nearest_is_first_minimum(shapes: Seq<Shape>, ray: RayModel, n: int)
    requires
        0 <= n <= shapes.len(),
    ensures
        match nearest(shapes, ray, n) {
            Some(i) => is_first_minimum(shapes, ray, n, i),
            None => forall|j: int| 0 <= j < n ==> (#[trigger] shapes[j].hit_spec(ray)) is None,
        },
    decreases n,
{
    if n > 0 {
        lemma_nearest_is_first_minimum(shapes, ray, n - 1);
    }
}

/// The strike that `ray` makes first in the scene: the model of what
/// `Scene::trace` returns, as the shape's index and the distance.
pub open spec fn first_strike(shapes: Seq<Shape>, ray: RayModel) -> Option<(int, int)> {
    match nearest(shapes, ray, shapes.len() as int) {
        Some(i) => Some((i, shapes[i].hit_spec(ray).unwrap())),
        None => None,
    }
}

/// The direction of the camera ray through the middle of the pixel in
/// column `x` and row `y`, before it is brought to length one.  The camera
/// looks down the negative z axis, and row 0 is the top row.
pub open spec fn camera_aim(x: int, y: int, width: int, height: int, fov_scale: int) -> V3 {
    V3 {
        x: product(quotient(2 * x + 1 - width, height), fov_scale),
        y: product(quotient(height - 2 * y - 1, height), fov_scale),
        z: -(ONE_RAW as int),
    }
}

/// The camera ray through the middle of the pixel in column `x` and row `y`.
pub open spec fn camera_ray(x: int, y: int, width: int, height: int, fov_scale: int) -> RayModel {
    RayModel {
        origin: V3 { x: 0, y: 0, z: 0 },
        direction: camera_aim(x, y, width, height, fov_scale).normalized(),
    }
}

/// A camera ray has a direction of length one, to within a few units in
/// the last place of its square.
pub proof fn lemma_camera_ray_is_unit(x: int, y: int, width: int, height: int, fov_scale: int)
    ensures
        ({
            let d = camera_ray(x, y, width, height, fov_scale).direction;
            ONE_RAW * (ONE_RAW - 6) <= d.dot_wide(d) < (ONE_RAW + 1) * (ONE_RAW + 1)
        }),
{
    let aim = camera_aim(x, y, width, height, fov_scale);
    let total = aim.dot_wide(aim);
    let len = aim.length_wide();
    assert(aim.x * aim.x >= 0 && aim.y * aim.y >= 0) by (nonlinear_arith);
    assert(aim.z * aim.z == ONE_RAW * ONE_RAW) by (nonlinear_arith)
        requires
            aim.z == -ONE_RAW,
    ;
    crate::fixed::lemma_isqrt_exists(total);
    assert(len >= ONE_RAW) by (nonlinear_arith)
        requires
            0 <= len,
            ONE_RAW * ONE_RAW <= total < (len + 1) * (len + 1),
    ;
    crate::vector::lemma_normalized_length(aim);
}

impl Ray {
    /// The camera ray through the middle of the pixel in column `x` and
    /// row `y` of the scene's image.
    pub fn first(x: u32, y: u32, scene: &Scene) -> (r: Ray)
        ensures
            r@ == camera_ray(
                x as int,
                y as int,
                scene.width as int,
                scene.height as int,
                scene.fov_scale@,
            ),
            ONE_RAW * (ONE_RAW - 6) <= r@.direction.dot_wide(r@.direction) < (ONE_RAW + 1) * (
            ONE_RAW + 1),
    {
        proof {
            lemma_camera_ray_is_unit(
                x as int,
                y as int,
                scene.width as int,
                scene.height as int,
                scene.fov_scale@,
            );
        }
        let width: i64 = scene.width as i64;
        let height: i64 = scene.height as i64;
        let across = Fixed::from_ratio(2 * (x as i64) + 1 - width, height);
        let down = Fixed::from_ratio(height - 2 * (y as i64) - 1, height);
        let aim = Vector {
            x: across.mul(scene.fov_scale),
            y: down.mul(scene.fov_scale),
            z: Fixed::one().neg(),
        };
        Ray {
            origin: Coordinate { x: Fixed::zero(), y: Fixed::zero(), z: Fixed::zero() },
            direction: aim.normalize(),
        }
    }
}

/// The model of the triple of whole numbers `x`, `y`, `z`.
pub open spec fn whole3(x: int, y: int, z: int) -> V3 {
    V3 { x: x * ONE_RAW, y: y * ONE_RAW, z: z * ONE_RAW }
}

/// `shape` is the sphere with these raw values.
pub open spec fn sphere_with(
    shape: Shape,
    center: V3,
    radius: int,
    color: V3,
    irradiance: int,
    reflectivity: int,
) -> bool {
    shape matches Shape::Sphere(s) && s.center@ == center && s.radius@ == radius && s.color@
        == color && s.irradiance@ == irradiance && s.reflectivity@ == reflectivity
}

/// `shape` is the plane with these raw values.
pub open spec fn plane_with(
    shape: Shape,
    center: V3,
    normal: V3,
    color: V3,
    irradiance: int,
    reflectivity: int,
) -> bool {
    shape matches Shape::Plane(p) && p.center@ == center && p.normal@ == normal && p.color@
        == color && p.irradiance@ == irradiance && p.reflectivity@ == reflectivity
}

fn whole_point(x: i64, y: i64, z: i64) -> (r: Coordinate)
    requires
        -0x4000_0000 < x < 0x4000_0000,
        -0x4000_0000 < y < 0x4000_0000,
        -0x4000_0000 < z < 0x4000_0000,
    ensures
        r@ == whole3(x as int, y as int, z as int),
{
    Coordinate { x: Fixed::from_int(x), y: Fixed::from_int(y), z: Fixed::from_int(z) }
}

fn whole_vector(x: i64, y: i64, z: i64) -> (r: Vector)
    requires
        -0x4000_0000 < x < 0x4000_0000,
        -0x4000_0000 < y < 0x4000_0000,
        -0x4000_0000 < z < 0x4000_0000,
    ensures
        r@ == whole3(x as int, y as int, z as int),
{
    Vector { x: Fixed::from_int(x), y: Fixed::from_int(y), z: Fixed::from_int(z) }
}

fn tenths(r: i64, g: i64, b: i64) -> (c: Color)
    ensures
        c@ == (V3 { x: quotient(r as int, 10), y: quotient(g as int, 10), z: quotient(b as int, 10) }),
{
    Color { r: Fixed::from_ratio(r, 10), g: Fixed::from_ratio(g, 10), b: Fixed::from_ratio(b, 10) }
}

impl Scene {
    /// The scene that is rendered where none is given: two spheres between
    /// three planes under one green light, 800 by 600 pixels, seen through
    /// a field of view of a right angle.
    pub fn new() -> (r: Scene)
        ensures
            r.width == 800,
            r.height == 600,
            r.fov_scale@ == ONE_RAW,
            r.shadow@ == quotient(1, 10),
            r.lights@.len() == 1,
            r.lights@[0] matches Light::Spherical(l) && l.position@ == whole3(-2, 10, -3)
                && l.color@ == (V3 { x: quotient(3, 10), y: quotient(8, 10), z: quotient(3, 10) })
                && l.strength@ == 24000 * ONE_RAW,
            r.shapes@.len() == 5,
            sphere_with(
                r.shapes@[0],
                whole3(-3, 0, -6),
                2 * ONE_RAW,
                V3 { x: quotient(510, 10), y: quotient(510, 10), z: quotient(2550, 10) },
                quotient(40, 10000),
                quotient(5, 10),
            ),
            sphere_with(
                r.shapes@[1],
                whole3(2, -1, -4),
                1 * ONE_RAW,
                V3 { x: quotient(2550, 10), y: quotient(510, 10), z: quotient(510, 10) },
                quotient(38, 10000),
                quotient(6, 10),
            ),
            plane_with(
                r.shapes@[2],
                whole3(0, -2, 0),
                whole3(0, -1, 0),
                V3 { x: quotient(255, 10), y: quotient(255, 10), z: quotient(255, 10) },
                quotient(80, 10000),
                quotient(4, 10),
            ),
            plane_with(
                r.shapes@[3],
                whole3(0, 0, -20),
                whole3(0, 0, -1),
                V3 { x: quotient(255, 10), y: quotient(255, 10), z: quotient(2550, 10) },
                quotient(50, 10000),
                quotient(4, 10),
            ),
            plane_with(
                r.shapes@[4],
                whole3(-10, 0, -20),
                whole3(-1, 0, 0),
                V3 { x: quotient(2550, 10), y: quotient(0, 10), z: quotient(510, 10) },
                quotient(80, 10000),
                quotient(4, 10),
            ),
    {
        let mut shapes: Vec<Shape> = Vec::new();
        let mut lights: Vec<Light> = Vec::new();
        let light = Light::Spherical(
            SphericalLight {
                position: whole_point(-2, 10, -3),
                color: tenths(3, 8, 3),
                strength: Fixed::from_int(24000),
            },
        );
        let sphere = Shape::new_sphere(
            whole_point(-3, 0, -6),
            Fixed::from_int(2),
            tenths(510, 510, 2550),
            Fixed::from_ratio(40, 10000),
            Fixed::from_ratio(5, 10),
        );
        let sphere2 = Shape::new_sphere(
            whole_point(2, -1, -4),
            Fixed::from_int(1),
            tenths(2550, 510, 510),
            Fixed::from_ratio(38, 10000),
            Fixed::from_ratio(6, 10),
        );
        let plane = Shape::new_plane(
            whole_point(0, -2, 0),
            whole_vector(0, -1, 0),
            tenths(255, 255, 255),
            Fixed::from_ratio(80, 10000),
            Fixed::from_ratio(4, 10),
        );
        let plane2 = Shape::new_plane(
            whole_point(0, 0, -20),
            whole_vector(0, 0, -1),
            tenths(255, 255, 2550),
            Fixed::from_ratio(50, 10000),
            Fixed::from_ratio(4, 10),
        );
        let plane3 = Shape::new_plane(
            whole_point(-10, 0, -20),
            whole_vector(-1, 0, 0),
            tenths(2550, 0, 510),
            Fixed::from_ratio(80, 10000),
            Fixed::from_ratio(4, 10),
        );
        lights.push(light);
        shapes.push(sphere);
        shapes.push(sphere2);
        shapes.push(plane);
        shapes.push(plane2);
        shapes.push(plane3);
        Scene {
            width: 800,
            height: 600,
            fov_scale: Fixed::one(),
            shapes,
            lights,
            shadow: Fixed::from_ratio(1, 10),
        }
    }

    /// The first strike of `ray` on the shapes of the scene, if there is
    /// one: the nearest, and among equally near ones the first in the list.
    pub fn trace<'a>(&'a self, ray: &Ray) -> (r: Option<Hit<'a>>)
        ensures
            match first_strike(self.shapes@, ray@) {
                Some((i, t)) => r is Some && *r.unwrap().shape == self.shapes@[i]
                    && r.unwrap().distance@ == t && 0 <= t < MAX_RAW
                    && is_first_minimum(self.shapes@, ray@, self.shapes@.len() as int, i),
                None => r is None && forall|j: int|
                    0 <= j < self.shapes@.len() ==> (#[trigger] self.shapes@[j].hit_spec(ray@))
                        is None,
            },
    {
        let mut best: Option<Hit<'a>> = None;
        let mut i: usize = 0;
        while i < self.shapes.len()
            invariant
                i <= self.shapes.len(),
                match nearest(self.shapes@, ray@, i as int) {
                    Some(k) => 0 <= k < i && best is Some && *best.unwrap().shape
                        == self.shapes@[k] && Some(best.unwrap().distance@)
                        == self.shapes@[k].hit_spec(ray@),
                    None => best is None,
                },
            decreases self.shapes.len() - i,
        {
            let shape: &'a Shape = &self.shapes[i];
            match shape.hit(ray) {
                Some(d) => {
                    let nearer = match &best {
                        None => true,
                        Some(h) => d.lt(&h.distance),
                    };
                    if nearer {
                        best = Some(Hit::new(d, shape));
                    }
                },
                None => {},
            }
            i = i + 1;
        }
        proof {
            lemma_nearest_is_first_minimum(self.shapes@, ray@, self.shapes@.len() as int);
        }
        best
    }
}

} // verus!
