//! The scene data model: primitives with materials, lights, the aggregate
//! scene, and intersection records. Texture sampling wraps a coordinate into
//! the bitmap grid and decodes the addressed pixel back to linear light.
use vstd::prelude::*;

use crate::color::{from_rgba_spec, Color, Rgba};
use crate::fixed::{
    abs64, abs_int, fdiv, fmul, fx_div, fx_mul, tdiv, FOUR_PI_FX, SCALE,
};
use crate::point::{psub, Point};
use crate::rendering::TextureCoords;
use crate::texture::{tex_dimensions, tex_get_pixel, tex_height, tex_pixels, tex_width};
use crate::vector::{is_zero_vec, vdot, vlen, vneg, vnormalize, Vector3};

verus! {

/// A surface's source of color: one constant color, or a texture lookup.
pub enum Coloration {
    Color(Color),
    Texture(image::DynamicImage),
}

#[derive(Clone, Copy, Debug, PartialEq, Eq, Structural)]
pub enum SurfaceType {
    Diffuse,
    Reflective { reflectivity: i64 },
}

pub struct Material {
    pub coloration: Coloration,
    pub albedo: i64,
    pub surface: SurfaceType,
}

pub struct Sphere {
    pub center: Point,
    pub radius: i64,
    pub material: Material,
}

pub struct Plane {
    pub origin: Point,
    pub normal: Vector3,
    pub material: Material,
}

pub enum Element {
    Sphere(Sphere),
    Plane(Plane),
}

/// A light so far away that its rays arrive parallel, with constant intensity.
pub struct DirectionalLight {
    pub direction: Vector3,
    pub color: Color,
    pub intensity: i64,
}

/// A point source near the scene; intensity falls off with squared distance.
pub struct SphericalLight {
    pub position: Point,
    pub color: Color,
    pub intensity: i64,
}

pub enum Light {
    Directional(DirectionalLight),
    Spherical(SphericalLight),
}

pub struct Scene {
    pub width: u32,
    pub height: u32,
    /// Tangent of half the field of view: the sensor half-extent one unit in
    /// front of the camera. A wider field of view enlarges it proportionally.
    pub fov_scale: i64,
    pub elements: Vec<Element>,
    pub lights: Vec<Light>,
    /// Offset applied to secondary-ray origins so a ray does not immediately
    /// re-intersect the surface it leaves.
    pub shadow_bias: i64,
    pub max_recursion_depth: u32,
}

/// A hit along a ray: the distance from the ray origin and the index of the
/// hit element in the scene's list (an index rather than a reference, so the
/// record outlives no borrow).
#[derive(Clone, Copy, Debug, PartialEq, Eq, Structural)]
pub struct Intersection {
    pub distance: i64,
    pub element: usize,
}

impl Intersection {
    /// A hit record never carries a negative distance; the intersection
    /// tests only produce distances at or beyond the ray origin.
    pub fn new(distance: i64, element: usize) -> (r: Intersection)
        requires
            distance >= 0,
        ensures
            r.distance == distance,
            r.element == element,
    {
        Intersection { distance, element }
    }
}

/// A texture coloration must address a bitmap with at least one pixel each way.
pub open spec fn material_wf(m: Material) -> bool {
    match m.coloration {
        Coloration::Color(_) => true,
        Coloration::Texture(t) => tex_width(t) > 0 && tex_height(t) > 0,
    }
}

/// Spheres carry a positive radius; every material can be sampled.
pub open spec fn element_wf(e: Element) -> bool {
    match e {
        Element::Sphere(s) => s.radius > 0 && material_wf(s.material),
        Element::Plane(p) => material_wf(p.material),
    }
}

/// What the renderer checks before the first ray: a landscape sensor with at
/// least one pixel row, and well-formed elements.
pub open spec fn scene_wf(s: Scene) -> bool {
    &&& s.height >= 1
    &&& s.width > s.height
    &&& forall|i: int| 0 <= i < s.elements@.len() ==> element_wf(#[trigger] s.elements@[i])
}

/// Wrap a fixed-point texture coordinate onto a pixel grid: scale by the
/// bound, drop the fraction, then take the coordinate modulo the bound with
/// negative values folded back in from the far edge.
pub open spec fn wrap_spec(val: i64, bound: u32) -> u32 {
    (tdiv(val * bound, SCALE as int) % (bound as int)) as u32
}

pub fn wrap(val: i64, bound: u32) -> (r: u32)
    requires
        bound > 0,
    ensures
        r == wrap_spec(val, bound),
        r < bound,
{
    let neg: bool = val < 0;
    let vm = abs64(val);
    assert(vm * (bound as u128) <= 0x8000_0000_0000_0000u128 * 0x1_0000_0000u128)
        by (nonlinear_arith)
        requires
            vm <= 0x8000_0000_0000_0000u128,
            bound <= 0x1_0000_0000u128,
    ;
    let p: u128 = vm * (bound as u128);
    let i: u128 = p / 65536;
    let m: u128 = i % (bound as u128);
    proof {
        lemma_scene_mul_abs_sign(val as int, bound as int);
        let ii = i as int;
        let b = bound as int;
        vstd::arithmetic::div_mod::lemma_fundamental_div_mod(ii, b);
        let q = ii / b;
        if neg && m != 0 {
            assert(b * (-q - 1) == -(b * q) - b) by (nonlinear_arith);
            assert(-ii == b * (-q - 1) + (b - (m as int)));
            vstd::arithmetic::div_mod::lemma_mod_multiples_vanish(-q - 1, b - (m as int), b);
            vstd::arithmetic::div_mod::lemma_small_mod((b - m) as nat, b as nat);
        } else if neg {
            assert(b * (-q) == -(b * q)) by (nonlinear_arith);
            assert(-ii == b * (-q) + 0);
            vstd::arithmetic::div_mod::lemma_mod_multiples_vanish(-q, 0, b);
            vstd::arithmetic::div_mod::lemma_small_mod(0nat, b as nat);
        }
    }
    if neg && m != 0 {
        bound - (m as u32)
    } else {
        m as u32
    }
}

proof fn lemma_scene_mul_abs_sign(a: int, b: int)
    by (nonlinear_arith)
    ensures
        abs_int(a * b) == abs_int(a) * abs_int(b),
        (a * b < 0) <==> ((a < 0) != (b < 0) && a != 0 && b != 0),
{
}

/// The color a coloration yields at given texture coordinates: a solid color
/// directly, or the addressed texture pixel decoded to linear light.
pub open spec fn coloration_color_spec(c: Coloration, coords: TextureCoords) -> Color {
    match c {
        Coloration::Color(col) => col,
        Coloration::Texture(tex) => {
            let px = tex_pixels(tex)[
                (wrap_spec(coords.x, tex_width(tex)), wrap_spec(coords.y, tex_height(tex)))
            ];
            from_rgba_spec(Rgba { red: px.0, green: px.1, blue: px.2, alpha: px.3 })
        },
    }
}

impl Coloration {
    pub fn color(&self, coords: &TextureCoords) -> (r: Color)
        requires
            match *self {
                Coloration::Color(_) => true,
                Coloration::Texture(t) => tex_width(t) > 0 && tex_height(t) > 0,
            },
        ensures
            r == coloration_color_spec(*self, *coords),
    {
        match self {
            Coloration::Color(c) => *c,
            Coloration::Texture(tex) => {
                let dims = tex_dimensions(tex);
                let tex_x = wrap(coords.x, dims.0);
                let tex_y = wrap(coords.y, dims.1);
                let px = tex_get_pixel(tex, tex_x, tex_y);
                Color::from_rgba(Rgba { red: px.0, green: px.1, blue: px.2, alpha: px.3 })
            },
        }
    }
}

impl Element {
    pub fn material(&self) -> (r: &Material)
        ensures
            *r == element_material(*self),
    {
        match self {
            Element::Sphere(s) => &s.material,
            Element::Plane(p) => &p.material,
        }
    }
}

pub open spec fn element_material(e: Element) -> Material {
    match e {
        Element::Sphere(s) => s.material,
        Element::Plane(p) => p.material,
    }
}

/// Direction from a surface point toward a light.
pub open spec fn light_dir_spec(l: Light, hit: Point) -> Vector3 {
    match l {
        Light::Directional(d) => vneg(d.direction),
        Light::Spherical(s) => vnormalize(psub(s.position, hit)),
    }
}

/// A spherical light sitting exactly on the surface point has no direction.
pub open spec fn light_degenerate_at(l: Light, hit: Point) -> bool {
    match l {
        Light::Directional(_) => false,
        Light::Spherical(s) => is_zero_vec(psub(s.position, hit)),
    }
}

/// Intensity arriving at a surface point: constant for a directional light,
/// inverse-square falloff over the sphere of radius `distance` for a
/// spherical one. A vanishing squared distance saturates.
pub open spec fn light_intensity_spec(l: Light, hit: Point) -> i64 {
    match l {
        Light::Directional(d) => d.intensity,
        Light::Spherical(s) => {
            let p = psub(s.position, hit);
            let denom = fmul(FOUR_PI_FX, vdot(p, p));
            if denom <= 0 {
                i64::MAX
            } else {
                fdiv(s.intensity, denom)
            }
        },
    }
}

/// Distance from a surface point to a light; a directional light is farther
/// than any representable distance.
pub open spec fn light_distance_spec(l: Light, hit: Point) -> i64 {
    match l {
        Light::Directional(_) => i64::MAX,
        Light::Spherical(s) => vlen(psub(s.position, hit)),
    }
}

impl Light {
    pub fn color(&self) -> (r: Color)
        ensures
            r == light_color(*self),
    {
        match self {
            Light::Directional(d) => d.color,
            Light::Spherical(s) => s.color,
        }
    }

    /// A vector pointing from the given point toward the light.
    pub fn direction_from(&self, hit_point: &Point) -> (r: Vector3)
        requires
            !light_degenerate_at(*self, *hit_point),
        ensures
            r == light_dir_spec(*self, *hit_point),
    {
        match self {
            Light::Directional(d) => d.direction.neg(),
            Light::Spherical(s) => s.position.sub(*hit_point).normalize(),
        }
    }

    pub fn intensity(&self, hit_point: &Point) -> (r: i64)
        ensures
            r == light_intensity_spec(*self, *hit_point),
    {
        match self {
            Light::Directional(d) => d.intensity,
            Light::Spherical(s) => {
                let p = s.position.sub(*hit_point);
                let r2 = p.dot(&p);
                let denom = fx_mul(FOUR_PI_FX, r2);
                if denom <= 0 {
                    i64::MAX
                } else {
                    fx_div(s.intensity, denom)
                }
            },
        }
    }

    pub fn distance(&self, hit_point: &Point) -> (r: i64)
        ensures
            r == light_distance_spec(*self, *hit_point),
    {
        match self {
            Light::Directional(_) => i64::MAX,
            Light::Spherical(s) => s.position.sub(*hit_point).length(),
        }
    }
}

pub open spec fn light_color(l: Light) -> Color {
    match l {
        Light::Directional(d) => d.color,
        Light::Spherical(s) => s.color,
    }
}

} // verus!
