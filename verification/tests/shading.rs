use pt::color::Color;
use pt::fixed::{FOUR_PI_FX, PI_FX, SCALE};
use pt::point::Point;
use pt::rendering::{cast_ray, get_color, shade_diffuse, Ray};
use pt::scene::{
    Coloration, DirectionalLight, Element, Intersection, Light, Material, Plane, Scene, Sphere,
    SphericalLight, SurfaceType,
};
use pt::vector::Vector3;

fn white() -> Color {
    Color { red: SCALE, green: SCALE, blue: SCALE }
}

fn solid(c: Color, surface: SurfaceType) -> Material {
    // An albedo equal to the circle constant cancels the Lambertian divisor.
    Material { coloration: Coloration::Color(c), albedo: PI_FX, surface }
}

fn floor_plane(surface: SurfaceType) -> Plane {
    Plane {
        origin: Point { x: 0, y: -2 * SCALE, z: 0 },
        normal: Vector3 { x: 0, y: -SCALE, z: 0 },
        material: solid(white(), surface),
    }
}

fn down_light(direction: Vector3) -> Light {
    Light::Directional(DirectionalLight {
        direction,
        color: white(),
        intensity: SCALE,
    })
}

fn floor_scene(light_dir: Vector3) -> Scene {
    Scene {
        width: 4,
        height: 2,
        fov_scale: SCALE,
        elements: vec![Element::Plane(floor_plane(SurfaceType::Diffuse))],
        lights: vec![down_light(light_dir)],
        shadow_bias: 16,
        max_recursion_depth: 3,
    }
}

#[test]
fn lit_white_floor_shades_to_full_white() {
    // Light falling straight down on an upward-facing white floor with unit
    // intensity and a Lambert-cancelling albedo: exactly white.
    let scene = floor_scene(Vector3 { x: 0, y: -SCALE, z: 0 });
    let hit = Point { x: 0, y: -2 * SCALE, z: -2 * SCALE };
    let normal = Vector3 { x: 0, y: SCALE, z: 0 };
    let c = shade_diffuse(&scene, &scene.elements[0], hit, normal);
    assert_eq!(c, white());
}

#[test]
fn antiparallel_light_contributes_nothing() {
    // The light shines upward, along the floor normal's own direction from
    // below: the clamped cosine floors at zero and the floor stays black.
    let scene = floor_scene(Vector3 { x: 0, y: SCALE, z: 0 });
    let hit = Point { x: 0, y: -2 * SCALE, z: -2 * SCALE };
    let normal = Vector3 { x: 0, y: SCALE, z: 0 };
    let c = shade_diffuse(&scene, &scene.elements[0], hit, normal);
    assert_eq!(c, Color::black());
}

#[test]
fn occluded_light_contributes_nothing() {
    // A sphere hangs between the floor point and the downward light.
    let mut scene = floor_scene(Vector3 { x: 0, y: -SCALE, z: 0 });
    scene.elements.push(Element::Sphere(Sphere {
        center: Point { x: 0, y: 0, z: -2 * SCALE },
        radius: SCALE,
        material: solid(white(), SurfaceType::Diffuse),
    }));
    let hit = Point { x: 0, y: -2 * SCALE, z: -2 * SCALE };
    let normal = Vector3 { x: 0, y: SCALE, z: 0 };
    let c = shade_diffuse(&scene, &scene.elements[0], hit, normal);
    assert_eq!(c, Color::black());
}

#[test]
fn zero_reflectivity_equals_pure_diffuse() {
    let diffuse_scene = floor_scene(Vector3 { x: 0, y: -SCALE, z: 0 });
    let mut mirror_scene = floor_scene(Vector3 { x: 0, y: -SCALE, z: 0 });
    mirror_scene.elements[0] = Element::Plane(floor_plane(SurfaceType::Reflective {
        reflectivity: 0,
    }));
    let ray = Ray {
        origin: Point { x: 0, y: 0, z: 0 },
        direction: Vector3 { x: 0, y: -SCALE, z: 0 },
    };
    let i = Intersection { distance: 2 * SCALE, element: 0 };
    let a = get_color(&diffuse_scene, &ray, &i, 0);
    let b = get_color(&mirror_scene, &ray, &i, 0);
    assert_eq!(a, b);
}

#[test]
fn full_reflectivity_drops_the_diffuse_term() {
    // A fully mirrored floor under a zero recursion budget: the reflected
    // term is the terminal black and the diffuse term has zero weight.
    let mut scene = floor_scene(Vector3 { x: 0, y: -SCALE, z: 0 });
    scene.elements[0] = Element::Plane(floor_plane(SurfaceType::Reflective {
        reflectivity: SCALE,
    }));
    scene.max_recursion_depth = 0;
    let ray = Ray {
        origin: Point { x: 0, y: 0, z: 0 },
        direction: Vector3 { x: 0, y: -SCALE, z: 0 },
    };
    let i = Intersection { distance: 2 * SCALE, element: 0 };
    assert_eq!(get_color(&scene, &ray, &i, 0), Color::black());
}

#[test]
fn zero_recursion_budget_still_shades_diffuse_surfaces() {
    let mut scene = floor_scene(Vector3 { x: 0, y: -SCALE, z: 0 });
    scene.max_recursion_depth = 0;
    let ray = Ray {
        origin: Point { x: 0, y: 0, z: 0 },
        direction: Vector3 { x: 0, y: -SCALE, z: 0 },
    };
    let i = Intersection { distance: 2 * SCALE, element: 0 };
    assert_eq!(get_color(&scene, &ray, &i, 0), white());
}

#[test]
fn cast_ray_is_black_at_the_recursion_limit() {
    let scene = floor_scene(Vector3 { x: 0, y: -SCALE, z: 0 });
    let ray = Ray {
        origin: Point { x: 0, y: 0, z: 0 },
        direction: Vector3 { x: 0, y: -SCALE, z: 0 },
    };
    assert_eq!(cast_ray(&scene, &ray, 3), Color::black());
    assert_eq!(cast_ray(&scene, &ray, 7), Color::black());
    // Below the limit the same ray finds the lit floor.
    assert_eq!(cast_ray(&scene, &ray, 0), white());
}

#[test]
fn spherical_light_follows_inverse_square_falloff() {
    let light = Light::Spherical(SphericalLight {
        position: Point { x: 0, y: SCALE, z: 0 },
        color: white(),
        // Intensity equal to the sphere solid angle cancels the divisor at
        // distance one.
        intensity: FOUR_PI_FX,
    });
    let origin = Point { x: 0, y: 0, z: 0 };
    assert_eq!(light.intensity(&origin), SCALE);
    assert_eq!(light.distance(&origin), SCALE);
    assert_eq!(
        light.direction_from(&origin),
        Vector3 { x: 0, y: SCALE, z: 0 },
    );
}

#[test]
fn directional_light_is_infinitely_far() {
    let light = down_light(Vector3 { x: 0, y: -SCALE, z: 0 });
    let p = Point { x: 0, y: 0, z: 0 };
    assert_eq!(light.distance(&p), i64::MAX);
    assert_eq!(light.intensity(&p), SCALE);
    assert_eq!(light.color(), white());
    assert_eq!(light.direction_from(&p), Vector3 { x: 0, y: SCALE, z: 0 });
}

#[test]
fn light_sitting_on_the_surface_is_skipped() {
    let mut scene = floor_scene(Vector3 { x: 0, y: -SCALE, z: 0 });
    scene.lights = vec![Light::Spherical(SphericalLight {
        position: Point { x: 0, y: -2 * SCALE, z: -2 * SCALE },
        color: white(),
        intensity: FOUR_PI_FX,
    })];
    let hit = Point { x: 0, y: -2 * SCALE, z: -2 * SCALE };
    let normal = Vector3 { x: 0, y: SCALE, z: 0 };
    // The degenerate light contributes nothing rather than dividing by zero.
    assert_eq!(
        shade_diffuse(&scene, &scene.elements[0], hit, normal),
        Color::black(),
    );
}
