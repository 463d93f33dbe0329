use raytracer::color::Color;
use raytracer::coordinate::Coordinate;
use raytracer::fixed::Fixed;
use raytracer::light::Light;
use raytracer::objects::{Ray, Shape};
use raytracer::scene::Scene;
use raytracer::vector::Vector;

fn whole(n: i64) -> Fixed {
    Fixed::from_int(n)
}

fn vector(x: i64, y: i64, z: i64) -> Vector {
    Vector::new(whole(x), whole(y), whole(z))
}

fn point(x: i64, y: i64, z: i64) -> Coordinate {
    Coordinate { x: whole(x), y: whole(y), z: whole(z) }
}

fn shade_of(level: i64) -> Color {
    Color { r: whole(level), g: whole(level), b: whole(level) }
}

fn ball(center: Coordinate, radius: i64, level: i64) -> Shape {
    Shape::new_sphere(center, whole(radius), shade_of(level), Fixed::one(), Fixed::zero())
}

fn scene_of(shapes: Vec<Shape>, width: u32, height: u32, fov_scale: Fixed) -> Scene {
    Scene { width, height, fov_scale, shapes, lights: Vec::new(), shadow: Fixed::from_ratio(1, 10) }
}

fn forward() -> Ray {
    Ray { origin: point(0, 0, 0), direction: vector(0, 0, -1) }
}

fn as_fixed(v: f64) -> Fixed {
    Fixed::from_raw((v * 4294967296.0).round() as i64)
}

fn as_number(f: Fixed) -> f64 {
    f.raw() as f64 / 4294967296.0
}

#[test]
fn trace_finds_the_nearest_shape() {
    let scene = scene_of(
        vec![
            ball(point(0, 0, -20), 1, 1),
            ball(point(0, 0, -5), 1, 2),
            ball(point(0, 0, -10), 1, 3),
        ],
        1,
        1,
        Fixed::one(),
    );
    let hit = scene.trace(&forward()).unwrap();
    assert_eq!(hit.distance.raw(), 4 << 32);
    assert_eq!(hit.shape.color().r.raw(), 2 << 32);
}

#[test]
fn trace_takes_the_first_of_equally_near_shapes() {
    let scene = scene_of(
        vec![
            ball(point(0, 0, -9), 1, 1),
            ball(point(0, 0, -5), 1, 2),
            ball(point(0, 0, -6), 2, 3),
            ball(point(0, 0, -5), 1, 4),
        ],
        1,
        1,
        Fixed::one(),
    );
    let hit = scene.trace(&forward()).unwrap();
    assert_eq!(hit.distance.raw(), 4 << 32);
    assert_eq!(hit.shape.color().r.raw(), 2 << 32);
}

#[test]
fn trace_finds_nothing_where_nothing_is_struck() {
    let empty = scene_of(Vec::new(), 1, 1, Fixed::one());
    assert!(empty.trace(&forward()).is_none());
    let behind = scene_of(
        vec![ball(point(0, 0, 5), 1, 1), ball(point(0, 4, -5), 1, 2)],
        1,
        1,
        Fixed::one(),
    );
    assert!(behind.trace(&forward()).is_none());
}

#[test]
fn trace_sees_planes_and_spheres() {
    let wall = Shape::new_plane(
        point(0, 0, -3),
        vector(0, 0, -1),
        shade_of(7),
        Fixed::one(),
        Fixed::zero(),
    );
    let scene = scene_of(vec![ball(point(0, 0, -5), 1, 1), wall], 1, 1, Fixed::one());
    let hit = scene.trace(&forward()).unwrap();
    assert_eq!(hit.distance.raw(), 3 << 32);
    assert!(matches!(hit.shape, Shape::Plane(_)));
}

#[test]
fn camera_ray_of_a_single_pixel_looks_straight_ahead() {
    let scene = scene_of(Vec::new(), 1, 1, Fixed::from_ratio(1, 2));
    let ray = Ray::first(0, 0, &scene);
    assert_eq!((ray.origin.x.raw(), ray.origin.y.raw(), ray.origin.z.raw()), (0, 0, 0));
    assert_eq!(
        (ray.direction.x.raw(), ray.direction.y.raw(), ray.direction.z.raw()),
        (0, 0, -(1 << 32))
    );
}

#[test]
fn camera_ray_exact_values() {
    let small = scene_of(Vec::new(), 2, 2, Fixed::one());
    let d = Ray::first(0, 0, &small).direction;
    assert_eq!((d.x.raw(), d.y.raw(), d.z.raw()), (-1753413056, 1753413056, -3506826112));
    let d = Ray::first(1, 1, &small).direction;
    assert_eq!((d.x.raw(), d.y.raw(), d.z.raw()), (1753413056, -1753413056, -3506826112));
    let large = scene_of(Vec::new(), 800, 600, Fixed::one());
    let d = Ray::first(0, 0, &large).direction;
    assert_eq!((d.x.raw(), d.y.raw(), d.z.raw()), (-2945672057, 2208332368, -2212019067));
}

fn camera_by_formula(x: u32, y: u32, width: u32, height: u32, degrees: f64) -> (f64, f64, f64) {
    let fov = (degrees.to_radians() / 2.0).tan();
    let aspect = width as f64 / height as f64;
    let sx = (((x as f64 + 0.5) / width as f64) * 2.0 - 1.0) * aspect * fov;
    let sy = (1.0 - ((y as f64 + 0.5) / height as f64) * 2.0) * fov;
    let len = (sx * sx + sy * sy + 1.0).sqrt();
    (sx / len, sy / len, -1.0 / len)
}

fn camera_matches_formula(x: u32, y: u32, width: u32, height: u32, degrees: f64) {
    let fov_scale = as_fixed((degrees.to_radians() / 2.0).tan());
    let scene = scene_of(Vec::new(), width, height, fov_scale);
    let ray = Ray::first(x, y, &scene);
    let (ex, ey, ez) = camera_by_formula(x, y, width, height, degrees);
    assert!((as_number(ray.direction.x) - ex).abs() < 1e-5);
    assert!((as_number(ray.direction.y) - ey).abs() < 1e-5);
    assert!((as_number(ray.direction.z) - ez).abs() < 1e-5);
    assert_eq!((ray.origin.x.raw(), ray.origin.y.raw(), ray.origin.z.raw()), (0, 0, 0));
}

#[test]
fn camera_ray_of_the_first_pixel_follows_the_formula() {
    camera_matches_formula(0, 0, 800, 600, 90.0);
    camera_matches_formula(0, 0, 640, 480, 60.0);
    camera_matches_formula(0, 0, 3, 7, 120.0);
    camera_matches_formula(0, 0, 1920, 1080, 45.0);
}

#[test]
fn camera_ray_of_other_pixels_follows_the_formula() {
    camera_matches_formula(799, 599, 800, 600, 90.0);
    camera_matches_formula(10, 20, 640, 480, 60.0);
    camera_matches_formula(400, 300, 800, 600, 90.0);
    camera_matches_formula(2, 0, 3, 7, 30.0);
}

#[test]
fn default_scene() {
    let scene = Scene::new();
    assert_eq!(scene.width, 800);
    assert_eq!(scene.height, 600);
    assert_eq!(scene.fov_scale.raw(), 1 << 32);
    assert_eq!(scene.shadow.raw(), 429496729);
    assert_eq!(scene.lights.len(), 1);
    assert_eq!(scene.shapes.len(), 5);
    match scene.lights[0] {
        Light::Spherical(l) => {
            assert_eq!(
                (l.position.x.raw(), l.position.y.raw(), l.position.z.raw()),
                (-(2 << 32), 10 << 32, -(3 << 32))
            );
            assert_eq!(l.strength.raw(), 24000 << 32);
            assert_eq!(l.color.g.raw(), Fixed::from_ratio(8, 10).raw());
        }
        Light::Directional(_) => panic!("the light shines from a point"),
    }
    assert!(matches!(scene.shapes[0], Shape::Sphere(_)));
    assert!(matches!(scene.shapes[1], Shape::Sphere(_)));
    assert!(matches!(scene.shapes[2], Shape::Plane(_)));
    assert!(matches!(scene.shapes[3], Shape::Plane(_)));
    assert!(matches!(scene.shapes[4], Shape::Plane(_)));
    assert_eq!(scene.shapes[0].color().b.raw(), 255 << 32);
    assert_eq!(scene.shapes[0].color().r.raw(), 51 << 32);
    assert_eq!(scene.shapes[0].reflectivity().raw(), 1 << 31);
    assert_eq!(scene.shapes[1].irradiance().raw(), 16320875);
    assert_eq!(scene.shapes[2].color().r.raw(), 51 << 31);
    assert_eq!(scene.shapes[4].color().g.raw(), 0);
    match scene.shapes[3] {
        Shape::Plane(p) => {
            assert_eq!(p.center.z.raw(), -(20 << 32));
            assert_eq!(p.normal.z.raw(), -(1 << 32));
        }
        Shape::Sphere(_) => panic!("the fourth shape is a plane"),
    }
}

#[test]
fn camera_rays_have_length_one() {
    let scene = scene_of(Vec::new(), 17, 11, Fixed::from_ratio(7, 5));
    let one: i128 = 1 << 32;
    for y in 0..11 {
        for x in 0..17 {
            let d = Ray::first(x, y, &scene).direction;
            let squared = d.norm_squared_wide() as i128;
            assert!(one * (one - 6) <= squared);
            assert!(squared < (one + 1) * (one + 1));
        }
    }
}
