use pt::color::Color;
use pt::fixed::SCALE;
use pt::point::Point;
use pt::rendering::{Ray, TextureCoords};
use pt::scene::{
    Coloration, Element, Intersection, Material, Plane, Scene, Sphere, SurfaceType,
};
use pt::vector::Vector3;

fn green() -> Material {
    Material {
        coloration: Coloration::Color(Color { red: 0, green: SCALE, blue: 0 }),
        albedo: SCALE,
        surface: SurfaceType::Diffuse,
    }
}

fn sphere_at(z: i64, radius: i64) -> Sphere {
    Sphere { center: Point { x: 0, y: 0, z }, radius, material: green() }
}

fn axis_ray() -> Ray {
    Ray {
        origin: Point { x: 0, y: 0, z: 0 },
        direction: Vector3 { x: 0, y: 0, z: -SCALE },
    }
}

#[test]
fn axis_ray_hits_unit_sphere_at_four() {
    // Sphere at (0,0,-5) radius 1, ray down the optical axis: distance 4.
    let s = sphere_at(-5 * SCALE, SCALE);
    assert_eq!(s.intersect(&axis_ray()), Some(4 * SCALE));
}

#[test]
fn sphere_beside_the_ray_is_missed() {
    let s = Sphere {
        center: Point { x: 0, y: 3 * SCALE, z: -5 * SCALE },
        radius: SCALE,
        material: green(),
    };
    assert_eq!(s.intersect(&axis_ray()), None);
}

#[test]
fn sphere_behind_the_origin_is_missed() {
    let s = sphere_at(5 * SCALE, SCALE);
    assert_eq!(s.intersect(&axis_ray()), None);
}

#[test]
fn ray_from_inside_returns_the_far_root() {
    // Origin inside a radius-2 sphere centered at the origin: t0 < 0, t1 = 2.
    let s = sphere_at(0, 2 * SCALE);
    assert_eq!(s.intersect(&axis_ray()), Some(2 * SCALE));
}

#[test]
fn plane_hit_distance_is_projected() {
    let p = Plane {
        origin: Point { x: 0, y: -2 * SCALE, z: 0 },
        normal: Vector3 { x: 0, y: -SCALE, z: 0 },
        material: green(),
    };
    let down = Ray {
        origin: Point { x: 0, y: 0, z: 0 },
        direction: Vector3 { x: 0, y: -SCALE, z: 0 },
    };
    assert_eq!(p.intersect(&down), Some(2 * SCALE));
    // A ray running inside the plane's surface never crosses it.
    let sideways = Ray {
        origin: Point { x: 0, y: 0, z: 0 },
        direction: Vector3 { x: SCALE, y: 0, z: 0 },
    };
    assert_eq!(p.intersect(&sideways), None);
}

#[test]
fn normals_point_outward() {
    let s = sphere_at(0, SCALE);
    let n = s.surface_normal(&Point { x: 2 * SCALE, y: 0, z: 0 });
    assert_eq!(n, Vector3 { x: SCALE, y: 0, z: 0 });
    let p = Plane {
        origin: Point { x: 0, y: -2 * SCALE, z: 0 },
        normal: Vector3 { x: 0, y: -SCALE, z: 0 },
        material: green(),
    };
    assert_eq!(p.surface_normal(), Vector3 { x: 0, y: SCALE, z: 0 });
}

#[test]
fn vector_algebra_basics() {
    let x = Vector3 { x: SCALE, y: 0, z: 0 };
    let y = Vector3 { x: 0, y: SCALE, z: 0 };
    assert_eq!(x.dot(&x), SCALE);
    assert_eq!(x.dot(&y), 0);
    assert_eq!(x.cross(&y), Vector3 { x: 0, y: 0, z: SCALE });
    assert_eq!(x.neg(), Vector3 { x: -SCALE, y: 0, z: 0 });
    assert_eq!(Vector3 { x: 3 * SCALE, y: 4 * SCALE, z: 0 }.length(), 5 * SCALE);
    assert_eq!(Vector3::zero(), Vector3 { x: 0, y: 0, z: 0 });
}

#[test]
fn normalize_lands_on_the_unit_sphere() {
    let v = Vector3 { x: 3 * SCALE, y: 4 * SCALE, z: 0 };
    let n = v.normalize();
    // 3/5 and 4/5, truncated onto the fixed-point grid.
    assert_eq!(n, Vector3 { x: 39321, y: 52428, z: 0 });
    let len = n.length();
    assert!((len - SCALE).abs() <= 4, "unit length off by {}", len - SCALE);
    // Tiny vectors whose squares all truncate away still normalize safely.
    let tiny = Vector3 { x: 1, y: 1, z: 0 }.normalize();
    assert!(tiny.length() > 0);
    // A vector already of exactly unit length normalizes to itself.
    let unit = Vector3 { x: SCALE, y: 0, z: 0 };
    assert_eq!(unit.normalize(), unit);
}

#[test]
fn point_and_vector_arithmetic() {
    let p = Point { x: SCALE, y: 0, z: 0 };
    let q = Point { x: 0, y: SCALE, z: 0 };
    assert_eq!(p.sub(q), Vector3 { x: SCALE, y: -SCALE, z: 0 });
    assert_eq!(
        q.add(Vector3 { x: SCALE, y: 0, z: 0 }),
        Point { x: SCALE, y: SCALE, z: 0 },
    );
    assert_eq!(Point::zero(), Point { x: 0, y: 0, z: 0 });
}

#[test]
fn trace_keeps_the_nearest_hit_and_first_on_ties() {
    let scene = Scene {
        width: 4,
        height: 2,
        fov_scale: SCALE,
        elements: vec![
            Element::Sphere(sphere_at(-5 * SCALE, SCALE)),
            Element::Sphere(sphere_at(-3 * SCALE, SCALE)),
        ],
        lights: vec![],
        shadow_bias: 0,
        max_recursion_depth: 3,
    };
    let hit = scene.trace(&axis_ray()).unwrap();
    assert_eq!(hit, Intersection { distance: 2 * SCALE, element: 1 });

    let tie = Scene {
        width: 4,
        height: 2,
        fov_scale: SCALE,
        elements: vec![
            Element::Sphere(sphere_at(-5 * SCALE, SCALE)),
            Element::Sphere(sphere_at(-5 * SCALE, SCALE)),
        ],
        lights: vec![],
        shadow_bias: 0,
        max_recursion_depth: 3,
    };
    assert_eq!(
        tie.trace(&axis_ray()).unwrap(),
        Intersection { distance: 4 * SCALE, element: 0 },
    );

    let empty = Scene {
        width: 4,
        height: 2,
        fov_scale: SCALE,
        elements: vec![],
        lights: vec![],
        shadow_bias: 0,
        max_recursion_depth: 3,
    };
    assert_eq!(empty.trace(&axis_ray()), None);
}

#[test]
fn sphere_texture_chart_is_anchored() {
    let s = sphere_at(0, SCALE);
    // On the positive x axis: zero longitude, mid latitude.
    let tc = s.texture_coords(&Point { x: SCALE, y: 0, z: 0 });
    assert_eq!(tc, TextureCoords { x: 0, y: SCALE / 2 });
    // At the top of the sphere: latitude 1.
    let top = s.texture_coords(&Point { x: 0, y: SCALE, z: 0 });
    assert_eq!(top.y, SCALE);
}

#[test]
fn camera_rays_are_centered_and_flipped() {
    let scene = Scene {
        width: 2,
        height: 1,
        fov_scale: SCALE,
        elements: vec![],
        lights: vec![],
        shadow_bias: 0,
        max_recursion_depth: 0,
    };
    let left = Ray::create_prime(0, 0, &scene);
    let right = Ray::create_prime(1, 0, &scene);
    assert_eq!(left.origin, Point { x: 0, y: 0, z: 0 });
    // Sensor y is the row center flipped upward: zero on the middle row.
    assert_eq!(left.direction.y, 0);
    assert!(left.direction.x < 0 && right.direction.x > 0);
    assert_eq!(left.direction.x, -right.direction.x);
    assert!(left.direction.z < 0);
}
