use raytracer::color::Color;
use raytracer::coordinate::Coordinate;
use raytracer::fixed::{Fixed, PI_RAW};
use raytracer::light::{DirectionalLight, Light, SphericalLight};
use raytracer::objects::{Ray, Shape};
use raytracer::scene::Scene;
use raytracer::shading::{
    calculate_pixels, light_contribution_at, light_intensity_at, pixel_color, render, shade,
    REFLECTION_DEPTH,
};
use raytracer::vector::Vector;

fn whole(n: i64) -> Fixed {
    Fixed::from_int(n)
}

fn part(n: i64, d: i64) -> Fixed {
    Fixed::from_ratio(n, d)
}

fn vector(x: i64, y: i64, z: i64) -> Vector {
    Vector::new(whole(x), whole(y), whole(z))
}

fn point(x: i64, y: i64, z: i64) -> Coordinate {
    Coordinate { x: whole(x), y: whole(y), z: whole(z) }
}

fn white() -> Color {
    Color { r: Fixed::one(), g: Fixed::one(), b: Fixed::one() }
}

fn blue() -> Color {
    Color { r: part(1, 2), g: part(1, 4), b: whole(1) }
}

fn orange() -> Color {
    Color { r: whole(1), g: part(1, 2), b: part(1, 4) }
}

fn raws(c: Color) -> (i64, i64, i64) {
    (c.r.raw(), c.g.raw(), c.b.raw())
}

fn sun_from_the_camera(strength: Fixed) -> Light {
    Light::Directional(DirectionalLight { direction: vector(0, 0, -1), color: white(), strength })
}

fn lamp_at(position: Coordinate) -> Light {
    // of strength one at a distance of four
    Light::Spherical(SphericalLight {
        position,
        color: white(),
        strength: Fixed::from_raw(64 * PI_RAW),
    })
}

fn front_ball(irradiance: Fixed, reflectivity: Fixed) -> Shape {
    Shape::new_sphere(point(0, 0, -5), whole(1), blue(), irradiance, reflectivity)
}

fn back_ball(reflectivity: Fixed) -> Shape {
    Shape::new_sphere(point(0, 0, 5), whole(1), orange(), Fixed::pi(), reflectivity)
}

fn one_pixel(shapes: Vec<Shape>, lights: Vec<Light>) -> Scene {
    Scene { width: 1, height: 1, fov_scale: Fixed::one(), shapes, lights, shadow: part(1, 10) }
}

fn forward() -> Ray {
    Ray { origin: point(0, 0, 0), direction: vector(0, 0, -1) }
}

#[test]
fn lit_sphere_is_not_black() {
    let scene = one_pixel(
        vec![front_ball(whole(1), Fixed::zero())],
        vec![sun_from_the_camera(whole(1))],
    );
    let c = pixel_color(&scene, 0, 0);
    assert!(c.r.raw() > 0 && c.g.raw() > 0 && c.b.raw() > 0);
    assert!(c.r.raw() <= 1 << 32 && c.g.raw() <= 1 << 32 && c.b.raw() <= 1 << 32);
    // the colour of the sphere over pi
    assert_eq!(raws(c), (683565275, 341782637, 1367130551));
    let bright = one_pixel(
        vec![front_ball(whole(100), Fixed::zero())],
        vec![sun_from_the_camera(whole(1))],
    );
    assert_eq!(raws(pixel_color(&bright, 0, 0)), (1 << 32, 1 << 32, 1 << 32));
}

#[test]
fn scene_without_shapes_is_black() {
    let scene = one_pixel(Vec::new(), vec![sun_from_the_camera(whole(1))]);
    assert_eq!(raws(pixel_color(&scene, 0, 0)), (0, 0, 0));
}

#[test]
fn scene_without_lights_is_black() {
    let scene = one_pixel(vec![front_ball(whole(1), Fixed::zero())], Vec::new());
    assert_eq!(raws(pixel_color(&scene, 0, 0)), (0, 0, 0));
}

#[test]
fn light_from_behind_the_surface_adds_nothing() {
    let toward_the_camera = Light::Directional(DirectionalLight {
        direction: vector(0, 0, 1),
        color: white(),
        strength: whole(1),
    });
    let scene = one_pixel(vec![front_ball(whole(1), Fixed::zero())], vec![toward_the_camera]);
    assert_eq!(raws(pixel_color(&scene, 0, 0)), (0, 0, 0));
}

#[test]
fn light_contribution_is_exact() {
    let scene = one_pixel(
        vec![front_ball(Fixed::pi(), Fixed::zero())],
        vec![sun_from_the_camera(part(1, 2))],
    );
    let c = light_contribution_at(
        &scene,
        &scene.shapes[0],
        &scene.lights[0],
        &point(0, 0, -4),
        vector(0, 0, 1),
    );
    assert_eq!(raws(c), (1 << 30, 1 << 29, 1 << 31));
    let slanted = light_contribution_at(
        &scene,
        &scene.shapes[0],
        &scene.lights[0],
        &point(0, 0, -4),
        Vector::new(whole(0), part(1, 2), part(1, 2)),
    );
    assert_eq!(raws(slanted), (1 << 29, 1 << 28, 1 << 30));
}

#[test]
fn lights_add_up_and_are_clamped() {
    let scene = one_pixel(
        vec![front_ball(Fixed::pi(), Fixed::zero())],
        vec![
            sun_from_the_camera(part(1, 2)),
            sun_from_the_camera(part(1, 4)),
            sun_from_the_camera(part(1, 2)),
        ],
    );
    let hit = scene.trace(&forward()).unwrap();
    let c = calculate_pixels(&scene, &forward(), &hit);
    // five quarters of the sphere's colour, clamped
    assert_eq!(raws(c), (5 << 29, 5 << 28, 1 << 32));
}

#[test]
fn occluder_before_the_light_casts_a_shadow() {
    let occluder = Shape::new_sphere(point(0, 0, 3), whole(1), orange(), whole(1), Fixed::zero());
    let scene = one_pixel(
        vec![front_ball(Fixed::pi(), Fixed::zero()), occluder],
        vec![lamp_at(point(0, 0, 10))],
    );
    let intensity =
        light_intensity_at(&scene, &scene.lights[0], &point(0, 0, -4), vector(0, 0, 1));
    assert_eq!(intensity.raw(), 0);
    assert_eq!(raws(pixel_color(&scene, 0, 0)), (0, 0, 0));
    let sunlit = one_pixel(
        vec![front_ball(Fixed::pi(), Fixed::zero()), occluder],
        vec![sun_from_the_camera(whole(1))],
    );
    assert_eq!(raws(pixel_color(&sunlit, 0, 0)), (0, 0, 0));
}

#[test]
fn occluder_beyond_the_light_casts_no_shadow() {
    let occluder = Shape::new_sphere(point(0, 0, 3), whole(1), orange(), whole(1), Fixed::zero());
    let scene = one_pixel(
        vec![front_ball(Fixed::pi(), Fixed::zero()), occluder],
        vec![lamp_at(point(0, 0, 0))],
    );
    let intensity =
        light_intensity_at(&scene, &scene.lights[0], &point(0, 0, -4), vector(0, 0, 1));
    assert_eq!(intensity.raw(), 1 << 32);
    assert_eq!(raws(pixel_color(&scene, 0, 0)), (1 << 31, 1 << 30, 1 << 32));
}

#[test]
fn surface_does_not_shadow_itself() {
    let scene = one_pixel(
        vec![front_ball(Fixed::pi(), Fixed::zero())],
        vec![sun_from_the_camera(whole(1))],
    );
    let intensity =
        light_intensity_at(&scene, &scene.lights[0], &point(0, 0, -4), vector(0, 0, 1));
    assert_eq!(intensity.raw(), 1 << 32);
}

#[test]
fn material_without_mirror_shows_its_direct_light() {
    let dull = one_pixel(
        vec![front_ball(Fixed::pi(), Fixed::zero()), back_ball(Fixed::zero())],
        vec![lamp_at(point(0, 0, 0))],
    );
    let hit = dull.trace(&forward()).unwrap();
    for depth in 0..4 {
        assert_eq!(raws(shade(&dull, &forward(), &hit, depth)), (1 << 31, 1 << 30, 1 << 32));
    }
    assert_eq!(raws(calculate_pixels(&dull, &forward(), &hit)), (1 << 31, 1 << 30, 1 << 32));
}

#[test]
fn mirror_without_an_image_darkens_twice() {
    let alone = one_pixel(vec![front_ball(Fixed::pi(), part(1, 2))], vec![lamp_at(point(0, 0, 0))]);
    let hit = alone.trace(&forward()).unwrap();
    assert_eq!(raws(calculate_pixels(&alone, &forward(), &hit)), (1 << 29, 1 << 28, 1 << 30));
}

#[test]
fn mirror_mixes_its_image_in_twice() {
    let scene = one_pixel(
        vec![front_ball(Fixed::pi(), part(1, 2)), back_ball(Fixed::zero())],
        vec![lamp_at(point(0, 0, 0))],
    );
    let hit = scene.trace(&forward()).unwrap();
    assert_eq!(hit.distance.raw(), 4 << 32);
    // a quarter of blue and three quarters of orange
    let c = calculate_pixels(&scene, &forward(), &hit);
    assert_eq!(raws(c), (7 << 29, 7 << 28, 7 << 28));
    assert_eq!(raws(pixel_color(&scene, 0, 0)), (7 << 29, 7 << 28, 7 << 28));
}

#[test]
fn mirror_images_end_at_the_depth() {
    let scene = one_pixel(
        vec![front_ball(Fixed::pi(), part(1, 2)), back_ball(part(1, 2))],
        vec![lamp_at(point(0, 0, 0))],
    );
    let hit = scene.trace(&forward()).unwrap();
    assert_eq!(raws(shade(&scene, &forward(), &hit, 0)), (1 << 29, 1 << 28, 1 << 30));
    // blue/4 + 3/4 (orange/4)
    assert_eq!(raws(shade(&scene, &forward(), &hit, 1)), (5 << 28, 5 << 27, 19 << 26));
    // blue/4 + 3/4 (orange/4 + 3/4 (blue/4))
    assert_eq!(raws(shade(&scene, &forward(), &hit, 2)), (49 << 25, 49 << 24, 7 << 28));
    assert_eq!(REFLECTION_DEPTH, 2);
    assert_eq!(raws(calculate_pixels(&scene, &forward(), &hit)), (49 << 25, 49 << 24, 7 << 28));
}

#[test]
fn render_goes_row_by_row() {
    let ball = Shape::new_sphere(point(1, 1, -3), whole(1), blue(), whole(2), part(1, 4));
    let floor = Shape::new_plane(point(0, -2, 0), vector(0, -1, 0), orange(), whole(3), part(1, 2));
    let scene = Scene {
        width: 3,
        height: 2,
        fov_scale: Fixed::one(),
        shapes: vec![ball, floor],
        lights: vec![lamp_at(point(0, 4, 0)), sun_from_the_camera(part(1, 2))],
        shadow: part(1, 10),
    };
    let image = render(&scene);
    assert_eq!(image.len(), 6);
    for row in 0..2u32 {
        for column in 0..3u32 {
            let c = image[(row * 3 + column) as usize];
            assert_eq!(raws(c), raws(pixel_color(&scene, column, row)));
            assert!(0 <= c.r.raw() && c.r.raw() <= 1 << 32);
            assert!(0 <= c.g.raw() && c.g.raw() <= 1 << 32);
            assert!(0 <= c.b.raw() && c.b.raw() <= 1 << 32);
        }
    }
    assert!(raws(image[0]) != raws(image[5]));
    assert!(image.iter().any(|c| raws(*c) != (0, 0, 0)));
}

#[test]
fn render_of_no_pixels_is_empty() {
    let scene = Scene {
        width: 0,
        height: 5,
        fov_scale: Fixed::one(),
        shapes: Vec::new(),
        lights: Vec::new(),
        shadow: part(1, 10),
    };
    assert_eq!(render(&scene).len(), 0);
    let scene = Scene {
        width: 5,
        height: 0,
        fov_scale: Fixed::one(),
        shapes: Vec::new(),
        lights: Vec::new(),
        shadow: part(1, 10),
    };
    assert_eq!(render(&scene).len(), 0);
}

#[test]
fn default_scene_renders_a_lit_pixel() {
    let scene = Scene::new();
    let c = pixel_color(&scene, 400, 300);
    assert!(0 <= c.r.raw() && c.r.raw() <= 1 << 32);
    assert!(0 <= c.g.raw() && c.g.raw() <= 1 << 32);
    assert!(0 <= c.b.raw() && c.b.raw() <= 1 << 32);
    let d = pixel_color(&scene, 250, 300);
    assert!(raws(d) != (0, 0, 0));
}
