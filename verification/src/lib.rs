//! A recursive ray tracer over saturating fixed-point arithmetic: spheres and
//! planes, solid and textured materials, directional and spherical lights,
//! binary shadows, and depth-limited mirror reflection. Rendering is a pure
//! function from an immutable scene to a row-major grid of display pixels.
pub mod color;
pub mod fixed;
pub mod laws;
pub mod point;
pub mod rendering;
pub mod scene;
pub mod texture;
pub mod vector;

use vstd::prelude::*;

use crate::color::{to_rgba_spec, Rgba};
use crate::rendering::{get_color, get_color_spec, prime_ray_spec, trace_spec, Ray};
use crate::scene::{element_material, element_wf, material_wf, scene_wf, Coloration, Element, Scene};
use crate::texture::tex_dimensions;

verus! {

/// Why a scene was rejected before the first ray was cast.
#[derive(Clone, Copy, Debug, PartialEq, Eq, Structural)]
pub enum ConfigError {
    /// The sensor must be landscape: at least one row, more columns than rows.
    SensorShape,
    /// Some sphere has a zero or negative radius.
    SphereRadius,
    /// Some texture bitmap has no pixels along one side.
    EmptyTexture,
}

/// The sensor-geometry part of scene validity.
pub open spec fn sensor_ok(s: Scene) -> bool {
    s.height >= 1 && s.width > s.height
}

/// Some sphere carries a non-positive radius.
pub open spec fn has_bad_sphere(s: Scene) -> bool {
    exists|i: int|
        0 <= i < s.elements@.len() && match #[trigger] s.elements@[i] {
            Element::Sphere(sp) => sp.radius <= 0,
            Element::Plane(_) => false,
        }
}

/// Some material addresses a texture bitmap with an empty side.
pub open spec fn has_empty_texture(s: Scene) -> bool {
    exists|i: int|
        0 <= i < s.elements@.len() && !material_wf(element_material(#[trigger] s.elements@[i]))
}

/// The final color of pixel (x, y): the shaded nearest hit of the pixel's
/// camera ray, gamma-encoded, or the background pixel on a miss.
pub open spec fn pixel_spec(scene: Scene, background: Rgba, x: u32, y: u32) -> Rgba {
    let ray = prime_ray_spec(x, y, scene);
    match trace_spec(scene, ray) {
        Some(i) => to_rgba_spec(get_color_spec(scene, ray, i, 0u32)),
        None => background,
    }
}

/// Check every configuration rule the tracer's preconditions rest on, in a
/// fixed order: sensor shape first, then sphere radii, then texture bitmaps.
fn validate(scene: &Scene) -> (r: Option<ConfigError>)
    ensures
        r is None <==> scene_wf(*scene),
        r == Some(ConfigError::SensorShape) <==> !sensor_ok(*scene),
        r == Some(ConfigError::SphereRadius) <==> sensor_ok(*scene) && has_bad_sphere(*scene),
        r == Some(ConfigError::EmptyTexture) <==> sensor_ok(*scene) && !has_bad_sphere(*scene)
            && has_empty_texture(*scene),
{
    if !(scene.height >= 1 && scene.width > scene.height) {
        return Some(ConfigError::SensorShape);
    }
    let mut i: usize = 0;
    while i < scene.elements.len()
        invariant
            sensor_ok(*scene),
            i <= scene.elements@.len(),
            forall|j: int|
                0 <= j < i ==> match #[trigger] scene.elements@[j] {
                    Element::Sphere(sp) => sp.radius > 0,
                    Element::Plane(_) => true,
                },
        decreases scene.elements@.len() - i,
    {
        let bad: bool = match &scene.elements[i] {
            Element::Sphere(sp) => sp.radius <= 0,
            Element::Plane(_) => false,
        };
        if bad {
            proof {
                assert(has_bad_sphere(*scene)) by {
                    assert((i as int) < scene.elements@.len() && match scene.elements@[i as int] {
                        Element::Sphere(sp) => sp.radius <= 0,
                        Element::Plane(_) => false,
                    });
                }
                assert(!element_wf(scene.elements@[i as int]));
            }
            return Some(ConfigError::SphereRadius);
        }
        i = i + 1;
    }
    let mut k: usize = 0;
    while k < scene.elements.len()
        invariant
            sensor_ok(*scene),
            k <= scene.elements@.len(),
            forall|j: int|
                0 <= j < k ==> material_wf(element_material(#[trigger] scene.elements@[j])),
            forall|j: int|
                0 <= j < scene.elements@.len() ==> match #[trigger] scene.elements@[j] {
                    Element::Sphere(sp) => sp.radius > 0,
                    Element::Plane(_) => true,
                },
        decreases scene.elements@.len() - k,
    {
        let bad: bool = match scene.elements[k].material().coloration {
            Coloration::Color(_) => false,
            Coloration::Texture(ref t) => {
                let dims = tex_dimensions(t);
                dims.0 == 0 || dims.1 == 0
            },
        };
        if bad {
            proof {
                assert(!material_wf(element_material(scene.elements@[k as int])));
                assert(has_empty_texture(*scene)) by {
                    assert((k as int) < scene.elements@.len() && !material_wf(
                        element_material(scene.elements@[k as int]),
                    ));
                }
                assert(!element_wf(scene.elements@[k as int]));
            }
            return Some(ConfigError::EmptyTexture);
        }
        k = k + 1;
    }
    proof {
        assert forall|i2: int| 0 <= i2 < scene.elements@.len() implies element_wf(
            #[trigger] scene.elements@[i2],
        ) by {
            assert(material_wf(element_material(scene.elements@[i2])));
        }
    }
    None
}

/// Render the scene to a width-by-height, row-major, top-left-origin grid of
/// opaque display pixels: every pixel is the gamma-encoded color of its
/// camera ray's nearest hit, or the given background pixel where the ray
/// misses everything. A scene that breaks a configuration rule is rejected
/// whole, before any pixel is produced.
pub fn render(scene: &Scene, background: Rgba) -> (r: Result<Vec<Rgba>, ConfigError>)
    requires
        scene.width as int * scene.height as int <= usize::MAX as int,
    ensures
        match r {
            Ok(buf) => {
                &&& scene_wf(*scene)
                &&& buf@.len() == scene.width as int * scene.height as int
                &&& forall|xx: u32, yy: u32|
                    xx < scene.width && yy < scene.height ==> buf@[yy as int * scene.width as int
                        + xx as int] == #[trigger] pixel_spec(*scene, background, xx, yy)
            },
            Err(e) => {
                &&& !scene_wf(*scene)
                &&& (e == ConfigError::SensorShape <==> !sensor_ok(*scene))
                &&& (e == ConfigError::SphereRadius <==> sensor_ok(*scene) && has_bad_sphere(
                    *scene,
                ))
                &&& (e == ConfigError::EmptyTexture <==> sensor_ok(*scene) && !has_bad_sphere(
                    *scene,
                ) && has_empty_texture(*scene))
            },
        },
{
    match validate(scene) {
        Some(e) => Err(e),
        None => {
            let width = scene.width;
            let height = scene.height;
            let mut pixels: Vec<Rgba> = Vec::new();
            let mut y: u32 = 0;
            while y < height
                invariant
                    scene_wf(*scene),
                    width == scene.width,
                    height == scene.height,
                    width as int * height as int <= usize::MAX as int,
                    y <= height,
                    pixels@.len() == y as int * width as int,
                    forall|xx: u32, yy: u32|
                        xx < width && yy < y ==> pixels@[yy as int * width as int + xx as int]
                            == #[trigger] pixel_spec(*scene, background, xx, yy),
                decreases height - y,
            {
                let mut x: u32 = 0;
                while x < width
                    invariant
                        scene_wf(*scene),
                        width == scene.width,
                        height == scene.height,
                        width as int * height as int <= usize::MAX as int,
                        y < height,
                        x <= width,
                        pixels@.len() == y as int * width as int + x as int,
                        forall|xx: u32, yy: u32|
                            xx < width && yy < y ==> pixels@[yy as int * width as int + xx as int]
                                == #[trigger] pixel_spec(*scene, background, xx, yy),
                        forall|xx: u32|
                            xx < x ==> pixels@[y as int * width as int + xx as int] == #[trigger] pixel_spec(
                                *scene,
                                background,
                                xx,
                                y,
                            ),
                    decreases width - x,
                {
                    proof {
                        assert(y as int * width as int + x < width as int * height as int)
                            by (nonlinear_arith)
                            requires
                                y < height,
                                x < width,
                        ;
                    }
                    let ray = Ray::create_prime(x, y, scene);
                    let px: Rgba = match scene.trace(&ray) {
                        Some(i) => get_color(scene, &ray, &i, 0).to_rgba(),
                        None => background,
                    };
                    let ghost pre = pixels@;
                    pixels.push(px);
                    proof {
                        assert(px == pixel_spec(*scene, background, x, y));
                        assert forall|xx: u32, yy: u32| xx < width && yy < y implies pixels@[
                            yy as int * width as int + xx as int
                        ] == #[trigger] pixel_spec(*scene, background, xx, yy) by {
                            assert((yy as int) * (width as int) + (xx as int) < (y as int) * (
                            width as int))
                                by (nonlinear_arith)
                                requires
                                    yy < y,
                                    xx < width,
                            ;
                            assert(pixels@[yy as int * width as int + xx as int] == pre[
                                yy as int * width as int + xx as int
                            ]);
                        }
                    }
                    x = x + 1;
                }
                proof {
                    assert((y + 1) as int * width as int == y as int * width as int + width as int)
                        by (nonlinear_arith);
                }
                y = y + 1;
            }
            proof {
                assert((width as int) * (height as int) == (height as int) * (width as int))
                    by (nonlinear_arith);
            }
            Ok(pixels)
        },
    }
}

} // verus!
