//! The colour that leaves a struck surface along a ray: the light of every
//! source that reaches it, and what its mirror image adds.

use vstd::prelude::*;
use crate::color::{black, clamped, Color};
use crate::coordinate::Coordinate;
use crate::fixed::{product, quotient, Fixed, ONE_RAW, PI_RAW};
use crate::light::Light;
use crate::objects::{Hit, Hittable, Ray, RayModel, Shape};
use crate::scene::{camera_ray, first_strike, lemma_nearest_is_first_minimum, Scene};
use crate::vector::{Vector, V3};

verus! {

/// How many mirror images deep a surface is followed.  Beyond that depth a
/// mirror image counts as black.
pub const REFLECTION_DEPTH: u32 = 2;

/// The point at `distance` along `ray`.
pub open spec fn hit_point(ray: RayModel, distance: int) -> V3 {
    ray.origin.plus(ray.direction.scaled(distance))
}

/// `point` lifted off the surface along `normal` by `bias`, so that a ray
/// from there does not strike the surface it leaves.
pub open spec fn lifted(point: V3, normal: V3, bias: int) -> V3 {
    point.plus(normal.scaled(bias))
}

/// The ray from the lifted `point` toward `light`.
pub open spec fn shadow_ray(scene: Scene, light: Light, point: V3, normal: V3) -> RayModel {
    RayModel {
        origin: lifted(point, normal, scene.shadow@),
        direction: light.direction_spec(point),
    }
}

/// Whether `light` reaches `point`: the shadow ray strikes nothing, or
/// strikes only beyond the light.
pub open spec fn in_light(scene: Scene, light: Light, point: V3, normal: V3) -> bool {
    match first_strike(scene.shapes@, shadow_ray(scene, light, point, normal)) {
        None => true,
        Some((_, t)) => t > light.distance_spec(point),
    }
}

/// The strength with which `light` reaches `point`: its strength there if
/// it is in light, else zero.
pub open spec fn light_intensity(scene: Scene, light: Light, point: V3, normal: V3) -> int {
    if in_light(scene, light, point, normal) {
        light.strength_spec(point)
    } else {
        0
    }
}

/// The colour that `light` adds at `point` of `shape`: the cosine between
/// normal and light (never below zero) times the intensity, times the
/// share `irradiance / pi` that the material gives back, times the colours
/// of light and material.
pub open spec fn light_contribution(
    scene: Scene,
    shape: Shape,
    light: Light,
    point: V3,
    normal: V3,
) -> V3 {
    let cosine = normal.dot(light.direction_spec(point));
    let power = product(
        if cosine > 0 {
            cosine
        } else {
            0
        },
        light_intensity(scene, light, point, normal),
    );
    let given_back = quotient(shape.irradiance_spec()@, PI_RAW as int);
    shape.color_spec()@.times(light.color_spec()@.scaled(power).scaled(given_back))
}

/// The sum of what the first `n` lights of the scene add.
pub open spec fn direct_sum(scene: Scene, shape: Shape, point: V3, normal: V3, n: int) -> V3
    decreases n,
{
    if n <= 0 {
        black()
    } else {
        direct_sum(scene, shape, point, normal, n - 1).plus(
            light_contribution(scene, shape, scene.lights@[n - 1], point, normal),
        )
    }
}

/// The clamped sum of what all lights add where `ray` strikes `shape` at
/// `distance`.
pub open spec fn direct_light(scene: Scene, ray: RayModel, shape: Shape, distance: int) -> V3 {
    let point = hit_point(ray, distance);
    let normal = shape.normal_spec(point);
    clamped(direct_sum(scene, shape, point, normal, scene.lights@.len() as int))
}

/// The mirror image of `ray` where it strikes `shape` at `distance`.
pub open spec fn reflection_ray(scene: Scene, ray: RayModel, shape: Shape, distance: int) -> RayModel {
    let point = hit_point(ray, distance);
    let normal = shape.normal_spec(point);
    RayModel {
        origin: lifted(point, normal, scene.shadow@),
        direction: ray.direction.minus(
            normal.scaled(product(2 * ONE_RAW, ray.direction.dot(normal))),
        ),
    }
}

/// One step of mixing a mirror image into a colour.
pub open spec fn blend(color: V3, reflected: V3, reflectivity: int) -> V3 {
    color.scaled(reflectivity).plus(reflected.scaled(reflectivity))
}

/// The colour where `ray` strikes `shape` at `distance`.  A material that
/// mirrors has its mirror image mixed in twice; the image is what the
/// reflection ray strikes first, shaded in the same way one level deeper,
/// and black if it strikes nothing or `depth` is used up.  The result of the
/// mixing is not clamped.
pub open spec fn shade_spec(scene: Scene, ray: RayModel, shape: Shape, distance: int, depth: nat) -> V3
    decreases depth,
{
    let direct = direct_light(scene, ray, shape, distance);
    let reflectivity = shape.reflectivity_spec()@;
    if reflectivity <= 0 {
        direct
    } else {
        let mirror = reflection_ray(scene, ray, shape, distance);
        let reflected = if depth == 0 {
            black()
        } else {
            match first_strike(scene.shapes@, mirror) {
                Some((i, t)) => shade_spec(scene, mirror, scene.shapes@[i], t, (depth - 1) as nat),
                None => black(),
            }
        };
        blend(blend(direct, reflected, reflectivity), reflected, reflectivity)
    }
}

/// The colour of the pixel in column `x` and row `y`: black where the
/// camera ray strikes nothing, else the clamped colour of what it strikes.
pub open spec fn pixel(scene: Scene, x: int, y: int) -> V3 {
    let ray = camera_ray(x, y, scene.width as int, scene.height as int, scene.fov_scale@);
    match first_strike(scene.shapes@, ray) {
        Some((i, t)) => clamped(shade_spec(scene, ray, scene.shapes@[i], t, REFLECTION_DEPTH as nat)),
        None => black(),
    }
}

/// A light is dark at a point where something stands in its way: where the
/// shadow ray strikes a shape no farther off than the light.
pub proof fn lemma_occluded_light_is_dark(scene: Scene, light: Light, point: V3, normal: V3)
    requires
        first_strike(scene.shapes@, shadow_ray(scene, light, point, normal)) matches Some((_, t))
            && t <= light.distance_spec(point),
    ensures
        light_intensity(scene, light, point, normal) == 0,
{
}

/// A light that lies nearer to a point than everything its shadow ray
/// strikes reaches the point with its full strength there.
pub proof fn lemma_light_before_occluders_shines(scene: Scene, light: Light, point: V3, normal: V3)
    requires
        forall|j: int|
            0 <= j < scene.shapes@.len() ==> match (#[trigger] scene.shapes@[j].hit_spec(
                shadow_ray(scene, light, point, normal),
            )) {
                Some(t) => t > light.distance_spec(point),
                None => true,
            },
    ensures
        light_intensity(scene, light, point, normal) == light.strength_spec(point),
{
    lemma_nearest_is_first_minimum(
        scene.shapes@,
        shadow_ray(scene, light, point, normal),
        scene.shapes@.len() as int,
    );
}

/// To a light that shines from afar everything is in the way: it reaches a
/// point only where the shadow ray strikes nothing.
pub proof fn lemma_directional_light_needs_a_free_ray(
    scene: Scene,
    light: Light,
    point: V3,
    normal: V3,
)
    requires
        light is Directional,
    ensures
        in_light(scene, light, point, normal) <==> first_strike(
            scene.shapes@,
            shadow_ray(scene, light, point, normal),
        ) is None,
{
    let ray = shadow_ray(scene, light, point, normal);
    lemma_nearest_is_first_minimum(scene.shapes@, ray, scene.shapes@.len() as int);
    match first_strike(scene.shapes@, ray) {
        Some((i, t)) => {
            crate::objects::lemma_hit_in_range(scene.shapes@[i], ray);
        },
        None => {},
    }
}

/// A light without strength at a point adds nothing there, also where it
/// lies nearer than everything its shadow ray strikes.
pub proof fn lemma_light_before_occluders_without_strength(
    scene: Scene,
    light: Light,
    point: V3,
    normal: V3,
)
    requires
        forall|j: int|
            0 <= j < scene.shapes@.len() ==> match (#[trigger] scene.shapes@[j].hit_spec(
                shadow_ray(scene, light, point, normal),
            )) {
                Some(t) => t > light.distance_spec(point),
                None => true,
            },
        light.strength_spec(point) == 0,
    ensures
        light_intensity(scene, light, point, normal) == 0,
{
}

/// A material that does not mirror has the colour of the light that falls
/// on it, whatever a mirror image would have been.
pub proof fn lemma_no_mirror_no_reflection(
    scene: Scene,
    ray: RayModel,
    shape: Shape,
    distance: int,
    depth: nat,
)
    requires
        shape.reflectivity_spec()@ == 0,
    ensures
        shade_spec(scene, ray, shape, distance, depth) == direct_light(scene, ray, shape, distance),
{
}

/// The strength with which `light` reaches `point`, where the surface has
/// the given normal.
pub fn light_intensity_at(scene: &Scene, light: &Light, point: &Coordinate, normal: Vector) -> (r: Fixed)
    ensures
        r@ == light_intensity(*scene, *light, point@, normal@),
{
    let shadow_ray = Ray {
        origin: point.add(normal.scale(scene.shadow)),
        direction: light.direction_from(point),
    };
    let in_light = match scene.trace(&shadow_ray) {
        None => true,
        Some(h) => h.distance.gt(&light.distance(point)),
    };
    if in_light {
        light.strength(point)
    } else {
        Fixed::zero()
    }
}

/// The colour that `light` adds at `point` of `shape`.
pub fn light_contribution_at(
    scene: &Scene,
    shape: &Shape,
    light: &Light,
    point: &Coordinate,
    normal: Vector,
) -> (r: Color)
    ensures
        r@ == light_contribution(*scene, *shape, *light, point@, normal@),
{
    let direction_to_light = light.direction_from(point);
    let light_intensity = light_intensity_at(scene, light, point, normal);
    let light_power = normal.dot(direction_to_light).max(Fixed::zero()).mul(light_intensity);
    let light_reflected = shape.irradiance().div(Fixed::pi());
    let light_color = light.color().scale(light_power).scale(light_reflected);
    shape.color().mul(light_color)
}

/// The colour that leaves the strike `hit` of `ray`, with mirror images
/// followed `depth` levels deep.
pub fn shade(scene: &Scene, ray: &Ray, hit: &Hit, depth: u32) -> (r: Color)
    ensures
        r@ == shade_spec(*scene, ray@, *hit.shape, hit.distance@, depth as nat),
        hit.shape.reflectivity_spec()@ <= 0 ==> r@ == direct_light(
            *scene,
            ray@,
            *hit.shape,
            hit.distance@,
        ),
    decreases depth,
{
    let hit_coordinate = ray.origin.add(ray.direction.scale(hit.distance));
    let surface_normal = hit.shape.surface_normal(&hit_coordinate);

    let mut color = Color::black();
    let mut i: usize = 0;
    while i < scene.lights.len()
        invariant
            i <= scene.lights.len(),
            color@ == direct_sum(*scene, *hit.shape, hit_coordinate@, surface_normal@, i as int),
        decreases scene.lights.len() - i,
    {
        let added = light_contribution_at(
            scene,
            hit.shape,
            &scene.lights[i],
            &hit_coordinate,
            surface_normal,
        );
        color = color.add(added);
        i = i + 1;
    }
    color = color.clamp();

    let reflectivity = hit.shape.reflectivity();
    if reflectivity.gt(&Fixed::zero()) {
        let reflection = Ray {
            origin: hit_coordinate.add(surface_normal.scale(scene.shadow)),
            direction: ray.direction.sub(
                surface_normal.scale(Fixed::from_int(2).mul(ray.direction.dot(surface_normal))),
            ),
        };
        let reflected = if depth == 0 {
            Color::black()
        } else {
            match scene.trace(&reflection) {
                Some(h) => shade(scene, &reflection, &h, depth - 1),
                None => Color::black(),
            }
        };
        color = color.scale(reflectivity).add(reflected.scale(reflectivity));
        color = color.scale(reflectivity).add(reflected.scale(reflectivity));
    }
    color
}

/// The colour that leaves the strike `hit` of `ray`.
pub fn calculate_pixels(scene: &Scene, ray: &Ray, hit: &Hit) -> (r: Color)
    ensures
        r@ == shade_spec(*scene, ray@, *hit.shape, hit.distance@, REFLECTION_DEPTH as nat),
        hit.shape.reflectivity_spec()@ <= 0 ==> r@ == direct_light(
            *scene,
            ray@,
            *hit.shape,
            hit.distance@,
        ),
{
    shade(scene, ray, hit, REFLECTION_DEPTH)
}

/// The colour of the pixel in column `x` and row `y`, every channel between
/// zero and one.
pub fn pixel_color(scene: &Scene, x: u32, y: u32) -> (r: Color)
    ensures
        r@ == pixel(*scene, x as int, y as int),
        0 <= r.r@ <= ONE_RAW,
        0 <= r.g@ <= ONE_RAW,
        0 <= r.b@ <= ONE_RAW,
{
    let ray = Ray::first(x, y, scene);
    match scene.trace(&ray) {
        Some(hit) => calculate_pixels(scene, &ray, &hit).clamp(),
        None => Color::black(),
    }
}

/// The image of the scene, row by row from the top, each row from the left.
pub fn render(scene: &Scene) -> (image: Vec<Color>)
    requires
        scene.width * scene.height <= usize::MAX,
    ensures
        image@.len() == scene.width * scene.height,
        forall|k: int|
            0 <= k < image@.len() ==> (#[trigger] image@[k])@ == pixel(
                *scene,
                k % (scene.width as int),
                k / (scene.width as int),
            ),
{
    let width: usize = scene.width as usize;
    let total: usize = width * (scene.height as usize);
    let mut image: Vec<Color> = Vec::new();
    let mut k: usize = 0;
    while k < total
        invariant
            width == scene.width,
            total == scene.width * scene.height,
            k <= total,
            image@.len() == k,
            forall|n: int|
                0 <= n < k ==> (#[trigger] image@[n])@ == pixel(
                    *scene,
                    n % (scene.width as int),
                    n / (scene.width as int),
                ),
        decreases total - k,
    {
        assert(width > 0 && k / width < scene.height) by (nonlinear_arith)
            requires
                k < width * scene.height,
                0 <= width,
                0 <= scene.height,
        ;
        let x: u32 = (k % width) as u32;
        let y: u32 = (k / width) as u32;
        image.push(pixel_color(scene, x, y));
        k = k + 1;
    }
    image
}

} // verus!
