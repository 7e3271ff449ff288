use pt::color::{gamma_decode, Color, Rgba};
use pt::fixed::SCALE;
use pt::point::Point;
use pt::rendering::TextureCoords;
use pt::scene::{Coloration, Element, Light, Material, Scene, Sphere, SurfaceType};
use pt::vector::Vector3;
use pt::{render, ConfigError};

fn sky() -> Rgba {
    Rgba { red: 178, green: 212, blue: 255, alpha: 255 }
}

fn green_sphere(radius: i64) -> Element {
    Element::Sphere(Sphere {
        center: Point { x: 0, y: 0, z: -5 * SCALE },
        radius,
        material: Material {
            coloration: Coloration::Color(Color { red: 0, green: SCALE, blue: 0 }),
            albedo: SCALE,
            surface: SurfaceType::Diffuse,
        },
    })
}

fn small_scene(elements: Vec<Element>, lights: Vec<Light>) -> Scene {
    Scene {
        width: 4,
        height: 2,
        // A narrow field of view, so the middle columns see the sphere and
        // the corners see past it.
        fov_scale: SCALE / 4,
        elements,
        lights,
        shadow_bias: 16,
        max_recursion_depth: 3,
    }
}

#[test]
fn unlit_sphere_is_black_and_misses_show_the_background() {
    // One green diffuse sphere at (0,0,-5), radius 1, no lights: a pixel whose
    // ray passes through the sphere shades to black (nothing illuminates it),
    // and a corner pixel that misses carries the background bytes untouched.
    let scene = small_scene(vec![green_sphere(SCALE)], vec![]);
    let buf = render(&scene, sky()).unwrap();
    assert_eq!(buf.len(), 8);
    let center = buf[0 * 4 + 2];
    assert_eq!(center, Rgba { red: 0, green: 0, blue: 0, alpha: 255 });
    let corner = buf[1 * 4 + 3];
    assert_eq!(corner, sky());
}

#[test]
fn all_misses_fill_the_background() {
    let scene = small_scene(vec![], vec![]);
    let buf = render(&scene, sky()).unwrap();
    assert_eq!(buf.len(), 8);
    for px in buf {
        assert_eq!(px, sky());
    }
}

#[test]
fn portrait_sensor_is_rejected() {
    let mut scene = small_scene(vec![], vec![]);
    scene.width = 2;
    scene.height = 2;
    assert_eq!(render(&scene, sky()), Err(ConfigError::SensorShape));
    scene.width = 4;
    scene.height = 0;
    assert_eq!(render(&scene, sky()), Err(ConfigError::SensorShape));
}

#[test]
fn non_positive_radius_is_rejected() {
    let scene = small_scene(vec![green_sphere(0)], vec![]);
    assert_eq!(render(&scene, sky()), Err(ConfigError::SphereRadius));
    let scene2 = small_scene(vec![green_sphere(-SCALE)], vec![]);
    assert_eq!(render(&scene2, sky()), Err(ConfigError::SphereRadius));
}

#[test]
fn empty_texture_is_rejected() {
    let empty = image::DynamicImage::new_rgba8(0, 0);
    let scene = small_scene(
        vec![Element::Sphere(Sphere {
            center: Point { x: 0, y: 0, z: -5 * SCALE },
            radius: SCALE,
            material: Material {
                coloration: Coloration::Texture(empty),
                albedo: SCALE,
                surface: SurfaceType::Diffuse,
            },
        })],
        vec![],
    );
    assert_eq!(render(&scene, sky()), Err(ConfigError::EmptyTexture));
}

#[test]
fn texture_sampling_addresses_the_wrapped_pixel() {
    // A two-pixel texture: red on the left, blue on the right.
    let mut img = image::RgbaImage::new(2, 1);
    img.put_pixel(0, 0, image::Rgba([255, 0, 0, 255]));
    img.put_pixel(1, 0, image::Rgba([0, 0, 255, 255]));
    let coloration = Coloration::Texture(image::DynamicImage::ImageRgba8(img));
    // 0.5 of two pixels lands on column 1: the blue pixel, decoded to linear.
    let right = coloration.color(&TextureCoords { x: SCALE / 2, y: 0 });
    assert_eq!(right, Color { red: 0, green: 0, blue: SCALE });
    // 0.1 of two pixels truncates to column 0: the red pixel.
    let left = coloration.color(&TextureCoords { x: SCALE / 10, y: 0 });
    assert_eq!(left, Color { red: SCALE, green: 0, blue: 0 });
    // -0.75 of two pixels is -1.5, truncated to -1 and folded back to column 1.
    let folded = coloration.color(&TextureCoords { x: -3 * SCALE / 4, y: 0 });
    assert_eq!(folded, Color { red: 0, green: 0, blue: SCALE });
}

#[test]
fn textured_pixels_decode_mid_grays() {
    let mut img = image::RgbaImage::new(1, 1);
    img.put_pixel(0, 0, image::Rgba([128, 128, 128, 255]));
    let coloration = Coloration::Texture(image::DynamicImage::ImageRgba8(img));
    let c = coloration.color(&TextureCoords { x: 0, y: 0 });
    let g = gamma_decode(128);
    assert_eq!(c, Color { red: g, green: g, blue: g });
}
