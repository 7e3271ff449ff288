//! The ray-tracing pipeline: camera rays, ray/primitive intersection,
//! nearest-hit selection, surface frames, diffuse shading with binary
//! shadows, and depth-limited mirror recursion.
use vstd::prelude::*;

use crate::color::{cadd, cblack, cclamp, cmul, cscale, Color};
use crate::fixed::{
    fabs, fadd, fdiv, fmul, fsqrt, fsub, fx_abs, fx_add, fx_div, fx_mul, fx_sqrt, fx_sub, PI_FX,
    SCALE,
};
use crate::point::{padd, psub, Point};
use crate::scene::{
    coloration_color_spec, element_material, element_wf, light_color, light_degenerate_at,
    light_dir_spec, light_intensity_spec, scene_wf, Element, Intersection, Light, Plane, Scene,
    Sphere, SurfaceType,
};
use crate::vector::{is_zero_vec, vcross, vdot, vneg, vnormalize, vscale, vsub, Vector3};

verus! {

/// A quarter unit, the divisor of the four-quadrant longitude chart.
pub const QUARTER_FX: i64 = 16384;

/// Half a unit.
pub const HALF_FX: i64 = 32768;

#[derive(Clone, Copy, Debug, PartialEq, Eq, Structural)]
pub struct Ray {
    pub origin: Point,
    pub direction: Vector3,
}

/// Coordinates handed to a texture sampler; any value is meaningful, the
/// sampler wraps them onto its pixel grid.
#[derive(Clone, Copy, Debug, PartialEq, Eq, Structural)]
pub struct TextureCoords {
    pub x: i64,
    pub y: i64,
}

/// The ray through the center of pixel (x, y): pixel centers are mapped onto
/// a square sensor one unit in front of the camera, the horizontal axis is
/// stretched by the aspect ratio, the vertical axis flipped, and both scaled
/// by the field-of-view factor; the camera sits at the origin looking down
/// the negative z axis.
pub open spec fn prime_ray_spec(x: u32, y: u32, scene: Scene) -> Ray {
    let wfx = ((scene.width as int) * (SCALE as int)) as i64;
    let hfx = ((scene.height as int) * (SCALE as int)) as i64;
    let px = ((2 * (x as int) + 1) * (SCALE as int)) as i64;
    let py = ((2 * (y as int) + 1) * (SCALE as int)) as i64;
    let aspect = fdiv(wfx, hfx);
    let sensor_x = fmul(fmul(fsub(fdiv(px, wfx), SCALE), aspect), scene.fov_scale);
    let sensor_y = fmul(fsub(SCALE, fdiv(py, hfx)), scene.fov_scale);
    Ray {
        origin: Point { x: 0i64, y: 0i64, z: 0i64 },
        direction: vnormalize(Vector3 { x: sensor_x, y: sensor_y, z: (-SCALE) as i64 }),
    }
}

/// Mirror reflection about the surface normal, with the origin pushed off
/// the surface by the bias.
pub open spec fn reflect_ray_spec(normal: Vector3, incident: Vector3, hit: Point, bias: i64) -> Ray {
    Ray {
        origin: padd(hit, vscale(normal, bias)),
        direction: vsub(incident, vscale(normal, fadd(vdot(incident, normal), vdot(incident, normal)))),
    }
}

impl Ray {
    pub fn create_prime(x: u32, y: u32, scene: &Scene) -> (r: Ray)
        requires
            scene.height >= 1,
            scene.width > scene.height,
        ensures
            r == prime_ray_spec(x, y, *scene),
    {
        let wfx: i64 = (scene.width as i64) * SCALE;
        let hfx: i64 = (scene.height as i64) * SCALE;
        let px: i64 = (2 * (x as i64) + 1) * SCALE;
        let py: i64 = (2 * (y as i64) + 1) * SCALE;
        let aspect = fx_div(wfx, hfx);
        let sensor_x = fx_mul(fx_mul(fx_sub(fx_div(px, wfx), SCALE), aspect), scene.fov_scale);
        let sensor_y = fx_mul(fx_sub(SCALE, fx_div(py, hfx)), scene.fov_scale);
        Ray {
            origin: Point::zero(),
            direction: Vector3 { x: sensor_x, y: sensor_y, z: -SCALE }.normalize(),
        }
    }

    pub fn create_reflection(normal: Vector3, incident: Vector3, intersection: Point, bias: i64) -> (r: Ray)
        ensures
            r == reflect_ray_spec(normal, incident, intersection, bias),
    {
        let d = incident.dot(&normal);
        Ray {
            origin: intersection.add(normal.scale(bias)),
            direction: incident.sub(normal.scale(fx_add(d, d))),
        }
    }
}

/// Offset from the ray origin to the sphere center.
pub open spec fn sphere_offset(s: Sphere, ray: Ray) -> Vector3 {
    psub(s.center, ray.origin)
}

/// Projection of the center offset onto the ray direction: the distance along
/// the ray to the point of closest approach.
pub open spec fn sphere_adj(s: Sphere, ray: Ray) -> i64 {
    vdot(sphere_offset(s, ray), ray.direction)
}

/// Squared perpendicular distance from the sphere center to the ray line.
pub open spec fn sphere_perp_sq(s: Sphere, ray: Ray) -> i64 {
    fsub(vdot(sphere_offset(s, ray), sphere_offset(s, ray)), fmul(sphere_adj(s, ray), sphere_adj(s, ray)))
}

/// Squared radius.
pub open spec fn sphere_radius_sq(s: Sphere) -> i64 {
    fmul(s.radius, s.radius)
}

/// Half the chord the ray cuts through the sphere.
pub open spec fn sphere_thickness(s: Sphere, ray: Ray) -> i64 {
    fsqrt(fsub(sphere_radius_sq(s), sphere_perp_sq(s, ray)))
}

/// The near intersection parameter.
pub open spec fn sphere_t0(s: Sphere, ray: Ray) -> i64 {
    fsub(sphere_adj(s, ray), sphere_thickness(s, ray))
}

/// The far intersection parameter.
pub open spec fn sphere_t1(s: Sphere, ray: Ray) -> i64 {
    fadd(sphere_adj(s, ray), sphere_thickness(s, ray))
}

/// Distance to the nearest sphere intersection at or beyond the ray origin:
/// none if the ray line passes farther from the center than the radius, or if
/// the sphere lies entirely behind the origin; the near root when the origin
/// is outside the sphere, the far root when inside.
pub open spec fn sphere_intersect_spec(s: Sphere, ray: Ray) -> Option<i64> {
    if sphere_perp_sq(s, ray) > sphere_radius_sq(s) {
        None
    } else {
        let t0 = sphere_t0(s, ray);
        let t1 = sphere_t1(s, ray);
        if t0 < 0 && t1 < 0 {
            None
        } else if t0 >= 0 {
            Some(t0)
        } else {
            Some(t1)
        }
    }
}

/// Distance to the plane: a hit needs the ray to run against the stored
/// normal (a denominator of less than one fixed-point step counts as
/// parallel) and the crossing to lie at or beyond the origin.
pub open spec fn plane_intersect_spec(p: Plane, ray: Ray) -> Option<i64> {
    let denom = vdot(p.normal, ray.direction);
    if denom > 0 {
        let d = fdiv(vdot(psub(p.origin, ray.origin), p.normal), denom);
        if d >= 0 {
            Some(d)
        } else {
            None
        }
    } else {
        None
    }
}

pub open spec fn element_intersect_spec(e: Element, ray: Ray) -> Option<i64> {
    match e {
        Element::Sphere(s) => sphere_intersect_spec(s, ray),
        Element::Plane(p) => plane_intersect_spec(p, ray),
    }
}

/// Outward normal of a sphere at a surface point; a point collapsing onto
/// the center (possible only through rounding) falls back to straight up.
pub open spec fn sphere_normal_spec(s: Sphere, hit: Point) -> Vector3 {
    if is_zero_vec(psub(hit, s.center)) {
        Vector3 { x: 0i64, y: SCALE, z: 0i64 }
    } else {
        vnormalize(psub(hit, s.center))
    }
}

/// Planes are one-sided: the shading normal is the negated stored normal.
pub open spec fn plane_normal_spec(p: Plane) -> Vector3 {
    vneg(p.normal)
}

pub open spec fn element_normal_spec(e: Element, hit: Point) -> Vector3 {
    match e {
        Element::Sphere(s) => sphere_normal_spec(s, hit),
        Element::Plane(p) => plane_normal_spec(p),
    }
}

/// Four-quadrant longitude of the direction (xc, yc), as a fraction of a full
/// turn: the coordinate is split by quadrant and interpolated linearly along
/// the unit diamond, a monotone wrap-around chart that needs no
/// transcendental function. Both coordinates zero fall back to zero.
pub open spec fn diamond01_spec(yc: i64, xc: i64) -> i64 {
    let d = fadd(fabs(yc), fabs(xc));
    if d <= 0 {
        0i64
    } else {
        let t = fdiv(yc, d);
        let p = if xc >= 0 {
            if yc >= 0 {
                t
            } else {
                fadd(fadd(SCALE, SCALE), fadd(fadd(SCALE, SCALE), t))
            }
        } else {
            fsub(fadd(SCALE, SCALE), t)
        };
        fmul(p, QUARTER_FX)
    }
}

fn diamond01(yc: i64, xc: i64) -> (r: i64)
    ensures
        r == diamond01_spec(yc, xc),
{
    let d = fx_add(fx_abs(yc), fx_abs(xc));
    if d <= 0 {
        0
    } else {
        let t = fx_div(yc, d);
        let p = if xc >= 0 {
            if yc >= 0 {
                t
            } else {
                fx_add(fx_add(SCALE, SCALE), fx_add(fx_add(SCALE, SCALE), t))
            }
        } else {
            fx_sub(fx_add(SCALE, SCALE), t)
        };
        fx_mul(p, QUARTER_FX)
    }
}

/// Spherical chart: longitude from the (z, x) direction around the vertical
/// axis, latitude linear in the height above the center.
pub open spec fn sphere_tex_spec(s: Sphere, hit: Point) -> TextureCoords {
    let hv = psub(hit, s.center);
    TextureCoords {
        x: diamond01_spec(hv.z, hv.x),
        y: fmul(fadd(SCALE, fdiv(hv.y, s.radius)), HALF_FX),
    }
}

/// Planar chart: the hit offset projected onto two in-plane basis vectors,
/// crossing the normal with the world forward axis (or the up axis where the
/// normal is parallel to forward).
pub open spec fn plane_tex_spec(p: Plane, hit: Point) -> TextureCoords {
    let first = vcross(p.normal, Vector3 { x: 0i64, y: 0i64, z: SCALE });
    let x_axis = if is_zero_vec(first) {
        vcross(p.normal, Vector3 { x: 0i64, y: SCALE, z: 0i64 })
    } else {
        first
    };
    let y_axis = vcross(p.normal, x_axis);
    let hv = psub(hit, p.origin);
    TextureCoords { x: vdot(hv, x_axis), y: vdot(hv, y_axis) }
}

pub open spec fn element_tex_spec(e: Element, hit: Point) -> TextureCoords {
    match e {
        Element::Sphere(s) => sphere_tex_spec(s, hit),
        Element::Plane(p) => plane_tex_spec(p, hit),
    }
}

impl Sphere {
    pub fn intersect(&self, ray: &Ray) -> (r: Option<i64>)
        ensures
            r == sphere_intersect_spec(*self, *ray),
            r matches Some(d) ==> d >= 0,
    {
        let vec_to_center = self.center.sub(ray.origin);
        let adj = vec_to_center.dot(&ray.direction);
        let hyp2 = vec_to_center.dot(&vec_to_center);
        let opp2 = fx_sub(hyp2, fx_mul(adj, adj));
        let r2 = fx_mul(self.radius, self.radius);
        if opp2 > r2 {
            return None;
        }
        let thickness = fx_sqrt(fx_sub(r2, opp2));
        let t0 = fx_sub(adj, thickness);
        let t1 = fx_add(adj, thickness);
        if t0 < 0 && t1 < 0 {
            None
        } else if t0 >= 0 {
            Some(t0)
        } else {
            Some(t1)
        }
    }

    pub fn surface_normal(&self, hit_point: &Point) -> (r: Vector3)
        ensures
            r == sphere_normal_spec(*self, *hit_point),
    {
        let offset = hit_point.sub(self.center);
        if offset.is_zero() {
            Vector3 { x: 0, y: SCALE, z: 0 }
        } else {
            offset.normalize()
        }
    }

    pub fn texture_coords(&self, hit_point: &Point) -> (r: TextureCoords)
        requires
            self.radius != 0,
        ensures
            r == sphere_tex_spec(*self, *hit_point),
    {
        let hv = hit_point.sub(self.center);
        TextureCoords {
            x: diamond01(hv.z, hv.x),
            y: fx_mul(fx_add(SCALE, fx_div(hv.y, self.radius)), HALF_FX),
        }
    }
}

impl Plane {
    pub fn intersect(&self, ray: &Ray) -> (r: Option<i64>)
        ensures
            r == plane_intersect_spec(*self, *ray),
            r matches Some(d) ==> d >= 0,
    {
        let denom = self.normal.dot(&ray.direction);
        if denom > 0 {
            let v = self.origin.sub(ray.origin);
            let distance = fx_div(v.dot(&self.normal), denom);
            if distance >= 0 {
                return Some(distance);
            }
        }
        None
    }

    pub fn surface_normal(&self) -> (r: Vector3)
        ensures
            r == plane_normal_spec(*self),
    {
        self.normal.neg()
    }

    pub fn texture_coords(&self, hit_point: &Point) -> (r: TextureCoords)
        ensures
            r == plane_tex_spec(*self, *hit_point),
    {
        let first = self.normal.cross(&Vector3 { x: 0, y: 0, z: SCALE });
        let x_axis = if first.is_zero() {
            self.normal.cross(&Vector3 { x: 0, y: SCALE, z: 0 })
        } else {
            first
        };
        let y_axis = self.normal.cross(&x_axis);
        let hv = hit_point.sub(self.origin);
        TextureCoords { x: hv.dot(&x_axis), y: hv.dot(&y_axis) }
    }
}

impl Element {
    pub fn intersect(&self, ray: &Ray) -> (r: Option<i64>)
        ensures
            r == element_intersect_spec(*self, *ray),
            r matches Some(d) ==> d >= 0,
    {
        match self {
            Element::Sphere(s) => s.intersect(ray),
            Element::Plane(p) => p.intersect(ray),
        }
    }

    pub fn surface_normal(&self, hit_point: &Point) -> (r: Vector3)
        ensures
            r == element_normal_spec(*self, *hit_point),
    {
        match self {
            Element::Sphere(s) => s.surface_normal(hit_point),
            Element::Plane(p) => p.surface_normal(),
        }
    }

    pub fn texture_coords(&self, hit_point: &Point) -> (r: TextureCoords)
        requires
            element_wf(*self),
        ensures
            r == element_tex_spec(*self, *hit_point),
    {
        match self {
            Element::Sphere(s) => s.texture_coords(hit_point),
            Element::Plane(p) => p.texture_coords(hit_point),
        }
    }
}

/// Nearest hit among the first n elements, scanning in list order and keeping
/// the strictly smaller distance, so ties go to the earlier element.
pub open spec fn trace_upto(scene: Scene, ray: Ray, n: int) -> Option<Intersection>
    decreases n,
{
    if n <= 0 {
        None
    } else {
        let prev = trace_upto(scene, ray, n - 1);
        match element_intersect_spec(scene.elements@[n - 1], ray) {
            None => prev,
            Some(d) => match prev {
                None => Some(Intersection { distance: d, element: (n - 1) as usize }),
                Some(pi) => if d < pi.distance {
                    Some(Intersection { distance: d, element: (n - 1) as usize })
                } else {
                    prev
                },
            },
        }
    }
}

/// Nearest hit over the whole scene.
pub open spec fn trace_spec(scene: Scene, ray: Ray) -> Option<Intersection> {
    trace_upto(scene, ray, scene.elements@.len() as int)
}

pub proof fn lemma_trace_upto_ok(scene: Scene, ray: Ray, n: int)
    requires
        0 <= n <= scene.elements@.len(),
        n <= usize::MAX,
    ensures
        match trace_upto(scene, ray, n) {
            Some(i) => i.element < n && i.distance >= 0 && element_intersect_spec(
                scene.elements@[i.element as int],
                ray,
            ) == Some(i.distance),
            None => true,
        },
    decreases n,
{
    if n > 0 {
        lemma_trace_upto_ok(scene, ray, n - 1);
        let prev = trace_upto(scene, ray, n - 1);
        match element_intersect_spec(scene.elements@[n - 1], ray) {
            None => {},
            Some(d) => {
                assert(d >= 0) by {
                    lemma_intersect_nonneg(scene.elements@[n - 1], ray);
                }
            },
        }
    }
}

/// Both intersection tests only report hits at or beyond the ray origin.
pub proof fn lemma_intersect_nonneg(e: Element, ray: Ray)
    ensures
        match element_intersect_spec(e, ray) {
            Some(d) => d >= 0,
            None => true,
        },
{
}

impl Scene {
    /// Linear scan over all elements for the nearest hit.
    pub fn trace(&self, ray: &Ray) -> (r: Option<Intersection>)
        ensures
            r == trace_spec(*self, *ray),
            r matches Some(i) ==> i.element < self.elements@.len() && i.distance >= 0,
    {
        let mut best: Option<Intersection> = None;
        let mut idx: usize = 0;
        while idx < self.elements.len()
            invariant
                idx <= self.elements@.len(),
                best == trace_upto(*self, *ray, idx as int),
                best matches Some(i) ==> i.element < idx && i.distance >= 0,
            decreases self.elements@.len() - idx,
        {
            match self.elements[idx].intersect(ray) {
                None => {},
                Some(d) => {
                    match best {
                        None => {
                            best = Some(Intersection::new(d, idx));
                        },
                        Some(prev) => {
                            if d < prev.distance {
                                best = Some(Intersection::new(d, idx));
                            }
                        },
                    }
                },
            }
            idx = idx + 1;
        }
        proof {
            lemma_trace_upto_ok(*self, *ray, self.elements@.len() as int);
        }
        best
    }
}

/// Where a ray at parameter `distance` meets a surface.
pub open spec fn hit_point_spec(ray: Ray, distance: i64) -> Point {
    padd(ray.origin, vscale(ray.direction, distance))
}

/// One light's contribution at a surface point: nothing if the point is
/// shadowed or the light degenerate; otherwise the clamped cosine times the
/// arriving intensity and the Lambertian albedo fraction, tinting the
/// surface color by the light color.
pub open spec fn light_term_spec(
    scene: Scene,
    elem: Element,
    hit: Point,
    normal: Vector3,
    light: Light,
) -> Color {
    if light_degenerate_at(light, hit) {
        cblack()
    } else {
        let dtl = light_dir_spec(light, hit);
        let shadow_ray = Ray {
            origin: padd(hit, vscale(normal, scene.shadow_bias)),
            direction: dtl,
        };
        let intensity = if trace_spec(scene, shadow_ray) is None {
            light_intensity_spec(light, hit)
        } else {
            0i64
        };
        let dotp = vdot(normal, dtl);
        let power = fmul(
            if dotp >= 0 {
                dotp
            } else {
                0i64
            },
            intensity,
        );
        let reflected_frac = fdiv(element_material(elem).albedo, PI_FX);
        let lc = cscale(cscale(light_color(light), power), reflected_frac);
        cmul(
            coloration_color_spec(element_material(elem).coloration, element_tex_spec(elem, hit)),
            lc,
        )
    }
}

/// Left fold of the first n lights' contributions.
pub open spec fn shade_upto(scene: Scene, elem: Element, hit: Point, normal: Vector3, n: int) -> Color
    decreases n,
{
    if n <= 0 {
        cblack()
    } else {
        cadd(
            shade_upto(scene, elem, hit, normal, n - 1),
            light_term_spec(scene, elem, hit, normal, scene.lights@[n - 1]),
        )
    }
}

/// Direct lighting at a surface point: every light's contribution summed in
/// list order, then clamped to the unit interval per channel.
pub open spec fn shade_spec(scene: Scene, elem: Element, hit: Point, normal: Vector3) -> Color {
    cclamp(shade_upto(scene, elem, hit, normal, scene.lights@.len() as int))
}

/// Compose the diffuse and reflected terms: a diffuse surface returns the
/// diffuse color; a reflective one blends the two by the reflectivity.
pub open spec fn blend_spec(diffuse: Color, surface: SurfaceType, reflected: Color) -> Color {
    match surface {
        SurfaceType::Diffuse => diffuse,
        SurfaceType::Reflective { reflectivity } => cadd(
            cscale(diffuse, fsub(SCALE, reflectivity)),
            cscale(reflected, reflectivity),
        ),
    }
}

/// Reflection bounces still allowed below the recursion limit.
pub open spec fn recursion_fuel(scene: Scene, depth: u32) -> nat {
    if depth < scene.max_recursion_depth {
        (scene.max_recursion_depth - depth) as nat
    } else {
        0nat
    }
}

/// Color of a traced ray at the given recursion depth: black at or beyond
/// the recursion limit, black on a miss, otherwise the shaded nearest hit
/// with one more reflection bounce.
pub open spec fn cast_spec(scene: Scene, ray: Ray, depth: u32) -> Color
    decreases recursion_fuel(scene, depth),
{
    if depth >= scene.max_recursion_depth {
        cblack()
    } else {
        match trace_spec(scene, ray) {
            None => cblack(),
            Some(i) => {
                let hit = hit_point_spec(ray, i.distance);
                let elem = scene.elements@[i.element as int];
                let normal = element_normal_spec(elem, hit);
                let diffuse = shade_spec(scene, elem, hit, normal);
                let refl = reflect_ray_spec(normal, ray.direction, hit, scene.shadow_bias);
                blend_spec(
                    diffuse,
                    element_material(elem).surface,
                    cast_spec(scene, refl, (depth + 1) as u32),
                )
            },
        }
    }
}

/// Color of a known hit at the given depth: the diffuse term, blended with
/// the reflected ray's color where the surface reflects; the reflected term
/// is black once the recursion limit leaves no bounce.
pub open spec fn get_color_spec(scene: Scene, ray: Ray, intersection: Intersection, depth: u32) -> Color {
    let hit = hit_point_spec(ray, intersection.distance);
    let elem = scene.elements@[intersection.element as int];
    let normal = element_normal_spec(elem, hit);
    let diffuse = shade_spec(scene, elem, hit, normal);
    let refl = reflect_ray_spec(normal, ray.direction, hit, scene.shadow_bias);
    let reflected = if depth < scene.max_recursion_depth {
        cast_spec(scene, refl, (depth + 1) as u32)
    } else {
        cblack()
    };
    blend_spec(diffuse, element_material(elem).surface, reflected)
}

/// Accumulate direct lighting over all lights with shadow tests, then clamp.
pub fn shade_diffuse(
    scene: &Scene,
    element: &Element,
    hit_point: Point,
    surface_normal: Vector3,
) -> (r: Color)
    requires
        element_wf(*element),
    ensures
        r == shade_spec(*scene, *element, hit_point, surface_normal),
{
    let texture_coords = element.texture_coords(&hit_point);
    let mut color = Color::black();
    let mut li: usize = 0;
    while li < scene.lights.len()
        invariant
            li <= scene.lights@.len(),
            element_wf(*element),
            texture_coords == element_tex_spec(*element, hit_point),
            color == shade_upto(*scene, *element, hit_point, surface_normal, li as int),
        decreases scene.lights@.len() - li,
    {
        let light = &scene.lights[li];
        let degenerate: bool = match light {
            Light::Directional(_) => false,
            Light::Spherical(s) => s.position.sub(hit_point).is_zero(),
        };
        if degenerate {
            proof {
                assert(cadd(color, cblack()) == color);
            }
        } else {
            let direction_to_light = light.direction_from(&hit_point);
            let shadow_ray = Ray {
                origin: hit_point.add(surface_normal.scale(scene.shadow_bias)),
                direction: direction_to_light,
            };
            let in_light = scene.trace(&shadow_ray).is_none();
            let light_intensity = if in_light {
                light.intensity(&hit_point)
            } else {
                0
            };
            let dotp = surface_normal.dot(&direction_to_light);
            let clamped_dot = if dotp >= 0 {
                dotp
            } else {
                0
            };
            let light_power = fx_mul(clamped_dot, light_intensity);
            let light_reflected = fx_div(element.material().albedo, PI_FX);
            let light_color = light.color().scale(light_power).scale(light_reflected);
            color = color.add(
                element.material().coloration.color(&texture_coords).mul(light_color),
            );
        }
        li = li + 1;
    }
    color.clamp()
}

/// Shade a known hit, recursing into the mirror direction while the depth
/// limit allows.
pub fn get_color(scene: &Scene, ray: &Ray, intersection: &Intersection, depth: u32) -> (r: Color)
    requires
        scene_wf(*scene),
        intersection.element < scene.elements@.len(),
    ensures
        r == get_color_spec(*scene, *ray, *intersection, depth),
    decreases recursion_fuel(*scene, depth), 0int,
{
    let hit_point = ray.origin.add(ray.direction.scale(intersection.distance));
    let element = &scene.elements[intersection.element];
    let surface_normal = element.surface_normal(&hit_point);
    let diffuse = shade_diffuse(scene, element, hit_point, surface_normal);
    match element.material().surface {
        SurfaceType::Diffuse => diffuse,
        SurfaceType::Reflective { reflectivity } => {
            let reflection_ray = Ray::create_reflection(
                surface_normal,
                ray.direction,
                hit_point,
                scene.shadow_bias,
            );
            let reflected = if depth < scene.max_recursion_depth {
                cast_ray(scene, &reflection_ray, depth + 1)
            } else {
                Color::black()
            };
            diffuse.scale(fx_sub(SCALE, reflectivity)).add(reflected.scale(reflectivity))
        },
    }
}

/// Trace a ray and shade what it hits: black at or beyond the recursion
/// limit and black on a miss.
pub fn cast_ray(scene: &Scene, ray: &Ray, depth: u32) -> (r: Color)
    requires
        scene_wf(*scene),
    ensures
        r == cast_spec(*scene, *ray, depth),
    decreases recursion_fuel(*scene, depth), 1int,
{
    if depth >= scene.max_recursion_depth {
        return Color::black();
    }
    let intersection = scene.trace(ray);
    match intersection {
        Some(i) => get_color(scene, ray, &i, depth),
        None => Color::black(),
    }
}

} // verus!
