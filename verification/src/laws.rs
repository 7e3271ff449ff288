//! Global statements the tracer obeys, proved against the specification
//! functions that the executable contracts are written in.
use vstd::prelude::*;

use crate::color::{
    cadd, cblack, clamp01, cmul, cscale, gamma_decode_spec, gamma_encode_spec, gamma_err, iroot5,
    lemma_best_byte_nearest, lemma_iroot5_bounds, lemma_pow11_chain, p5, Color,
};
use crate::fixed::{abs_int, fdiv, fmul, lemma_isqrt_bounds, sat64, tdiv, SCALE};
use crate::point::Point;
use crate::rendering::{
    blend_spec, cast_spec, element_intersect_spec, element_normal_spec, get_color_spec,
    hit_point_spec, light_term_spec, shade_spec, sphere_intersect_spec, sphere_perp_sq,
    sphere_radius_sq, sphere_t0, sphere_t1, trace_spec, trace_upto, Ray,
};
use crate::scene::{
    element_material, light_degenerate_at, light_dir_spec, DirectionalLight, Intersection, Light,
    Scene, Sphere, SurfaceType,
};
use crate::vector::{vdot, vlen, vneg, vnorm_sq, vnormalize, Vector3};

verus! {

proof fn lemma_mul_unit(x: i64)
    ensures
        tdiv(x * SCALE, SCALE as int) == x,
{
    if x >= 0 {
        vstd::arithmetic::div_mod::lemma_div_multiples_vanish(x as int, SCALE as int);
        assert(x * SCALE == SCALE * x) by (nonlinear_arith);
    } else {
        vstd::arithmetic::div_mod::lemma_div_multiples_vanish(-(x as int), SCALE as int);
        assert(-(x * SCALE) == SCALE * -(x as int)) by (nonlinear_arith);
    }
}

proof fn lemma_fmul_one(x: i64)
    ensures
        fmul(x, SCALE) == x,
{
    lemma_mul_unit(x);
}

proof fn lemma_fdiv_unit(x: i64)
    ensures
        fdiv(x, SCALE) == x,
{
    lemma_mul_unit(x);
}

proof fn lemma_fmul_zero(x: i64)
    ensures
        fmul(x, 0) == 0,
        fmul(0, x) == 0,
{
}

proof fn lemma_cscale_one(c: Color)
    ensures
        cscale(c, SCALE) == c,
{
    lemma_fmul_one(c.red);
    lemma_fmul_one(c.green);
    lemma_fmul_one(c.blue);
}

proof fn lemma_cscale_zero(c: Color)
    ensures
        cscale(c, 0) == cblack(),
{
    lemma_fmul_zero(c.red);
    lemma_fmul_zero(c.green);
    lemma_fmul_zero(c.blue);
}

proof fn lemma_cadd_black(c: Color)
    ensures
        cadd(c, cblack()) == c,
        cadd(cblack(), c) == c,
{
}

/// A ray misses a sphere exactly when the squared perpendicular distance from
/// the center to the ray line exceeds the squared radius, or when both chord
/// parameters are negative, that is, the sphere lies entirely behind the ray
/// origin.
pub proof fn law_sphere_miss(s: Sphere, ray: Ray)
    ensures
        sphere_intersect_spec(s, ray) is None <==> (sphere_perp_sq(s, ray) > sphere_radius_sq(s)
            || (sphere_t0(s, ray) < 0 && sphere_t1(s, ray) < 0)),
{
}

/// A surface point facing away from a light receives nothing from it: when
/// the cosine between the normal and the direction to the light is at or
/// below zero, the light's whole contribution is black.
pub proof fn law_facing_away_is_dark(
    scene: Scene,
    elem: crate::scene::Element,
    hit: Point,
    normal: Vector3,
    light: Light,
)
    requires
        !light_degenerate_at(light, hit),
        vdot(normal, light_dir_spec(light, hit)) <= 0,
    ensures
        light_term_spec(scene, elem, hit, normal, light) == cblack(),
{
    let intensity = if crate::rendering::trace_spec(
        scene,
        Ray {
            origin: crate::point::padd(hit, crate::vector::vscale(normal, scene.shadow_bias)),
            direction: light_dir_spec(light, hit),
        },
    ) is None {
        crate::scene::light_intensity_spec(light, hit)
    } else {
        0i64
    };
    lemma_fmul_zero(intensity);
    let lc = crate::scene::light_color(light);
    lemma_cscale_zero(lc);
    lemma_fmul_zero(fdiv(element_material(elem).albedo, crate::fixed::PI_FX));
    assert(cscale(cblack(), fdiv(element_material(elem).albedo, crate::fixed::PI_FX))
        == cblack());
    let sc = crate::scene::coloration_color_spec(
        element_material(elem).coloration,
        crate::rendering::element_tex_spec(elem, hit),
    );
    lemma_fmul_zero(sc.red);
    lemma_fmul_zero(sc.green);
    lemma_fmul_zero(sc.blue);
    assert(cmul(sc, cblack()) == cblack());
}

/// The cosine of a vector against its own negation never exceeds zero.
proof fn lemma_dot_with_neg_nonpos(v: Vector3)
    ensures
        vdot(v, vneg(v)) <= 0,
{
    let nx = sat64(-v.x) as i64;
    let ny = sat64(-v.y) as i64;
    let nz = sat64(-v.z) as i64;
    assert(v.x * nx <= 0 && v.y * ny <= 0 && v.z * nz <= 0) by (nonlinear_arith)
        requires
            nx == sat64(-v.x),
            ny == sat64(-v.y),
            nz == sat64(-v.z),
    ;
    lemma_tdiv_nonpos(v.x as int * nx);
    lemma_tdiv_nonpos(v.y as int * ny);
    lemma_tdiv_nonpos(v.z as int * nz);
}

proof fn lemma_tdiv_nonpos(a: int)
    requires
        a <= 0,
    ensures
        tdiv(a, SCALE as int) <= 0,
{
    vstd::arithmetic::div_mod::lemma_div_pos_is_pos(-a, SCALE as int);
}

/// A directional light shining along the surface normal (so the normal is
/// antiparallel to the direction back toward the light) contributes nothing:
/// the clamped cosine floors at zero.
pub proof fn law_antiparallel_directional_is_dark(
    scene: Scene,
    elem: crate::scene::Element,
    hit: Point,
    d: DirectionalLight,
)
    ensures
        light_term_spec(scene, elem, hit, d.direction, Light::Directional(d)) == cblack(),
{
    lemma_dot_with_neg_nonpos(d.direction);
    law_facing_away_is_dark(scene, elem, hit, d.direction, Light::Directional(d));
}

proof fn lemma_trace_upto_nearest(scene: Scene, ray: Ray, n: int)
    requires
        0 <= n <= scene.elements@.len(),
        n <= usize::MAX,
    ensures
        match trace_upto(scene, ray, n) {
            Some(i) => forall|j: int|
                0 <= j < n && (#[trigger] element_intersect_spec(scene.elements@[j], ray))
                    is Some ==> i.distance <= element_intersect_spec(
                    scene.elements@[j],
                    ray,
                )->Some_0,
            None => forall|j: int|
                0 <= j < n ==> (#[trigger] element_intersect_spec(scene.elements@[j], ray))
                    is None,
        },
    decreases n,
{
    if n > 0 {
        lemma_trace_upto_nearest(scene, ray, n - 1);
    }
}

/// The trace is the nearest hit: where it reports an intersection, no element
/// of the scene is hit at a strictly smaller distance, and where it reports
/// none, no element is hit at all.
pub proof fn law_trace_nearest(scene: Scene, ray: Ray)
    requires
        scene.elements@.len() <= usize::MAX,
    ensures
        match trace_spec(scene, ray) {
            Some(i) => forall|j: int|
                0 <= j < scene.elements@.len() && (#[trigger] element_intersect_spec(
                    scene.elements@[j],
                    ray,
                )) is Some ==> i.distance <= element_intersect_spec(
                    scene.elements@[j],
                    ray,
                )->Some_0,
            None => forall|j: int|
                0 <= j < scene.elements@.len() ==> (#[trigger] element_intersect_spec(
                    scene.elements@[j],
                    ray,
                )) is None,
        },
{
    lemma_trace_upto_nearest(scene, ray, scene.elements@.len() as int);
}

/// The reflectivity blend is a convex combination at its endpoints: with
/// reflectivity zero the reflected term vanishes exactly and the surface is
/// purely diffuse; with reflectivity one the diffuse term carries no weight
/// and the blend is exactly the reflected color.
pub proof fn law_blend_extremes(diffuse: Color, reflected: Color)
    ensures
        blend_spec(diffuse, SurfaceType::Reflective { reflectivity: 0i64 }, reflected) == diffuse,
        blend_spec(diffuse, SurfaceType::Reflective { reflectivity: SCALE }, reflected)
            == reflected,
{
    lemma_fmul_one(SCALE);
    lemma_cscale_one(diffuse);
    lemma_cscale_one(reflected);
    lemma_cscale_zero(diffuse);
    lemma_cscale_zero(reflected);
    lemma_cadd_black(diffuse);
    lemma_cadd_black(reflected);
}

/// Tracing stops at the recursion limit: a ray cast at or beyond
/// `max_recursion_depth` is black with no further work.
pub proof fn law_recursion_terminal(scene: Scene, ray: Ray, depth: u32)
    requires
        depth >= scene.max_recursion_depth,
    ensures
        cast_spec(scene, ray, depth) == cblack(),
{
}

/// With the recursion limit at zero, a hit on a fully reflective surface
/// produces exactly the terminal black: no reflection ray is ever shaded.
pub proof fn law_zero_depth_blackout(scene: Scene, ray: Ray, i: Intersection)
    requires
        scene.max_recursion_depth == 0,
        element_material(scene.elements@[i.element as int]).surface == (SurfaceType::Reflective {
            reflectivity: SCALE,
        }),
    ensures
        get_color_spec(scene, ray, i, 0u32) == cblack(),
{
    let hit = hit_point_spec(ray, i.distance);
    let elem = scene.elements@[i.element as int];
    let normal = element_normal_spec(elem, hit);
    let diffuse = shade_spec(scene, elem, hit, normal);
    lemma_cscale_zero(diffuse);
    lemma_cscale_one(cblack());
    lemma_cadd_black(cblack());
}

/// With the recursion limit at zero, a diffuse surface still shades normally
/// at depth zero: the limit only suppresses reflection rays.
pub proof fn law_zero_depth_diffuse_unaffected(scene: Scene, ray: Ray, i: Intersection)
    requires
        scene.max_recursion_depth == 0,
        element_material(scene.elements@[i.element as int]).surface == SurfaceType::Diffuse,
    ensures
        get_color_spec(scene, ray, i, 0u32) == shade_spec(
            scene,
            scene.elements@[i.element as int],
            hit_point_spec(ray, i.distance),
            element_normal_spec(scene.elements@[i.element as int], hit_point_spec(ray, i.distance)),
        ),
{
}

/// Dividing a coordinate no larger than the length by the length leaves a
/// quotient within one unit, off from the exact ratio by less than one
/// divisor step.
proof fn lemma_unit_div_decomp(x: int, len: int)
    requires
        0 < len,
        abs_int(x) <= len,
    ensures
        abs_int(tdiv(x * 65536, len)) <= 65536,
        abs_int(x * 65536 - tdiv(x * 65536, len) * len) < len,
{
    let r = tdiv(x * 65536, len);
    if x >= 0 {
        vstd::arithmetic::div_mod::lemma_fundamental_div_mod(x * 65536, len);
        vstd::arithmetic::div_mod::lemma_mod_bound(x * 65536, len);
        vstd::arithmetic::div_mod::lemma_div_pos_is_pos(x * 65536, len);
        assert(r == (x * 65536) / len);
        vstd::arithmetic::div_mod::lemma_div_is_ordered(x * 65536, len * 65536, len);
        vstd::arithmetic::div_mod::lemma_div_multiples_vanish(65536, len);
        assert(len * r == r * len) by (nonlinear_arith);
        assert(x * 65536 - r * len == (x * 65536) % len);
    } else {
        let xm = -x;
        vstd::arithmetic::div_mod::lemma_fundamental_div_mod(xm * 65536, len);
        vstd::arithmetic::div_mod::lemma_mod_bound(xm * 65536, len);
        vstd::arithmetic::div_mod::lemma_div_pos_is_pos(xm * 65536, len);
        let rm = (xm * 65536) / len;
        assert(r == -rm);
        vstd::arithmetic::div_mod::lemma_div_is_ordered(xm * 65536, len * 65536, len);
        vstd::arithmetic::div_mod::lemma_div_multiples_vanish(65536, len);
        assert(len * rm == rm * len) by (nonlinear_arith);
        assert((-rm) * len == -(rm * len)) by (nonlinear_arith);
        assert(x * 65536 - r * len == -((xm * 65536) % len));
    }
}

/// Normalization lands within four fixed-point steps of unit length, for any
/// vector at least one unit long whose coordinates leave room to square.
/// (Far shorter vectors lose too much of their direction to truncation for a
/// uniform bound: normalizing (1, 1, 0), two steps long, yields a vector of
/// length about the square root of two.)
pub proof fn law_normalize_unit_length(v: Vector3)
    requires
        abs_int(v.x as int) <= 0x2000_0000_0000_0000,
        abs_int(v.y as int) <= 0x2000_0000_0000_0000,
        abs_int(v.z as int) <= 0x2000_0000_0000_0000,
        vnorm_sq(v) >= SCALE as int * SCALE as int,
    ensures
        abs_int(vlen(vnormalize(v)) as int - SCALE as int) <= 4,
{
    let s = 65536int;
    let q = vnorm_sq(v);
    assert(v.x * v.x == abs_int(v.x as int) * abs_int(v.x as int) && v.x * v.x >= 0)
        by (nonlinear_arith);
    assert(v.y * v.y == abs_int(v.y as int) * abs_int(v.y as int) && v.y * v.y >= 0)
        by (nonlinear_arith);
    assert(v.z * v.z == abs_int(v.z as int) * abs_int(v.z as int) && v.z * v.z >= 0)
        by (nonlinear_arith);
    assert(v.x * v.x <= 0x2000_0000_0000_0000 * 0x2000_0000_0000_0000) by (nonlinear_arith)
        requires
            abs_int(v.x as int) <= 0x2000_0000_0000_0000,
            v.x * v.x == abs_int(v.x as int) * abs_int(v.x as int),
    ;
    assert(v.y * v.y <= 0x2000_0000_0000_0000 * 0x2000_0000_0000_0000) by (nonlinear_arith)
        requires
            abs_int(v.y as int) <= 0x2000_0000_0000_0000,
            v.y * v.y == abs_int(v.y as int) * abs_int(v.y as int),
    ;
    assert(v.z * v.z <= 0x2000_0000_0000_0000 * 0x2000_0000_0000_0000) by (nonlinear_arith)
        requires
            abs_int(v.z as int) <= 0x2000_0000_0000_0000,
            v.z * v.z == abs_int(v.z as int) * abs_int(v.z as int),
    ;
    lemma_isqrt_bounds(q);
    let len = crate::fixed::isqrt(q);
    assert(len >= s) by {
        if len < s {
            assert((len + 1) * (len + 1) <= s * s) by (nonlinear_arith)
                requires
                    0 <= len,
                    len < s,
            ;
        }
    }
    assert(len <= 0x4000_0000_0000_0000) by {
        if len > 0x4000_0000_0000_0000 {
            assert(len * len > 0x4000_0000_0000_0000 * 0x4000_0000_0000_0000)
                by (nonlinear_arith)
                requires
                    len > 0x4000_0000_0000_0000,
            ;
        }
    }
    assert(vlen(v) == len);
    assert(abs_int(v.x as int) <= len) by {
        if abs_int(v.x as int) > len {
            assert(v.x * v.x >= (len + 1) * (len + 1)) by (nonlinear_arith)
                requires
                    abs_int(v.x as int) >= len + 1,
                    len >= 0,
                    v.x * v.x == abs_int(v.x as int) * abs_int(v.x as int),
            ;
        }
    }
    assert(abs_int(v.y as int) <= len) by {
        if abs_int(v.y as int) > len {
            assert(v.y * v.y >= (len + 1) * (len + 1)) by (nonlinear_arith)
                requires
                    abs_int(v.y as int) >= len + 1,
                    len >= 0,
                    v.y * v.y == abs_int(v.y as int) * abs_int(v.y as int),
            ;
        }
    }
    assert(abs_int(v.z as int) <= len) by {
        if abs_int(v.z as int) > len {
            assert(v.z * v.z >= (len + 1) * (len + 1)) by (nonlinear_arith)
                requires
                    abs_int(v.z as int) >= len + 1,
                    len >= 0,
                    v.z * v.z == abs_int(v.z as int) * abs_int(v.z as int),
            ;
        }
    }
    let rx = tdiv(v.x * 65536, len);
    let ry = tdiv(v.y * 65536, len);
    let rz = tdiv(v.z * 65536, len);
    lemma_unit_div_decomp(v.x as int, len);
    lemma_unit_div_decomp(v.y as int, len);
    lemma_unit_div_decomp(v.z as int, len);
    let ex = v.x * 65536 - rx * len;
    let ey = v.y * 65536 - ry * len;
    let ez = v.z * 65536 - rz * len;
    let n = vnormalize(v);
    assert(n.x == rx && n.y == ry && n.z == rz);
    let rr = vnorm_sq(n);
    assert(rr == rx * rx + ry * ry + rz * rz);

    // Each squared coordinate, rescaled, splits into quotient and error parts.
    let cc = 4294967296int;
    assert(v.x * v.x * cc == rx * rx * (len * len) + 2 * (rx * (ex * len)) + ex * ex)
        by (nonlinear_arith)
        requires
            cc == 4294967296int,
            ex == v.x * 65536 - rx * len,
    ;
    assert(v.y * v.y * cc == ry * ry * (len * len) + 2 * (ry * (ey * len)) + ey * ey)
        by (nonlinear_arith)
        requires
            cc == 4294967296int,
            ey == v.y * 65536 - ry * len,
    ;
    assert(v.z * v.z * cc == rz * rz * (len * len) + 2 * (rz * (ez * len)) + ez * ez)
        by (nonlinear_arith)
        requires
            cc == 4294967296int,
            ez == v.z * 65536 - rz * len,
    ;
    let ll = len * len;
    assert(rr * ll == rx * rx * ll + ry * ry * ll + rz * rz * ll) by (nonlinear_arith)
        requires
            rr == rx * rx + ry * ry + rz * rz,
            ll == len * len,
    ;
    let px = rx * (ex * len);
    let py = ry * (ey * len);
    let pz = rz * (ez * len);
    let ff = ex * ex + ey * ey + ez * ez;
    assert(q * cc == rr * ll + 2 * (px + py + pz) + ff);

    // Bound every cross and error term by the squared length.
    assert(abs_int(ex * len) <= ll && ex * ex <= ll) by (nonlinear_arith)
        requires
            abs_int(ex) < len,
            len > 0,
            ll == len * len,
    ;
    assert(abs_int(ey * len) <= ll && ey * ey <= ll) by (nonlinear_arith)
        requires
            abs_int(ey) < len,
            len > 0,
            ll == len * len,
    ;
    assert(abs_int(ez * len) <= ll && ez * ez <= ll) by (nonlinear_arith)
        requires
            abs_int(ez) < len,
            len > 0,
            ll == len * len,
    ;
    assert(abs_int(px) <= 65536 * ll) by (nonlinear_arith)
        requires
            abs_int(rx) <= 65536,
            abs_int(ex * len) <= ll,
            px == rx * (ex * len),
            ll >= 0,
    ;
    assert(abs_int(py) <= 65536 * ll) by (nonlinear_arith)
        requires
            abs_int(ry) <= 65536,
            abs_int(ey * len) <= ll,
            py == ry * (ey * len),
            ll >= 0,
    ;
    assert(abs_int(pz) <= 65536 * ll) by (nonlinear_arith)
        requires
            abs_int(rz) <= 65536,
            abs_int(ez * len) <= ll,
            pz == rz * (ez * len),
            ll >= 0,
    ;
    assert(ex * ex >= 0 && ey * ey >= 0 && ez * ez >= 0) by (nonlinear_arith);
    assert(0 <= ff <= 3 * ll);

    // The squared norm of the input brackets the squared length.
    assert(ll <= q && q <= ll + 2 * len) by (nonlinear_arith)
        requires
            len * len <= q,
            q < (len + 1) * (len + 1),
            ll == len * len,
    ;

    // Combine: the squared norm of the output lies within 8 steps of one.
    assert(q * cc >= ll * cc) by (nonlinear_arith)
        requires
            cc == 4294967296int,
            q >= ll,
    ;
    assert(q * cc <= ll * cc + 2 * len * cc) by (nonlinear_arith)
        requires
            cc == 4294967296int,
            q <= ll + 2 * len,
    ;
    assert(2 * len * cc <= 2 * 65536 * ll) by (nonlinear_arith)
        requires
            cc == 4294967296int,
            len >= 65536,
            ll == len * len,
    ;
    assert(rr * ll >= ll * cc - 6 * 65536 * ll - 3 * ll) by (nonlinear_arith)
        requires
            q * cc == rr * ll + 2 * (px + py + pz) + ff,
            q * cc >= ll * cc,
            abs_int(px) <= 65536 * ll,
            abs_int(py) <= 65536 * ll,
            abs_int(pz) <= 65536 * ll,
            0 <= ff,
            ff <= 3 * ll,
    ;
    assert(rr * ll <= ll * cc + 8 * 65536 * ll) by (nonlinear_arith)
        requires
            q * cc == rr * ll + 2 * (px + py + pz) + ff,
            q * cc <= ll * cc + 2 * len * cc,
            2 * len * cc <= 2 * 65536 * ll,
            abs_int(px) <= 65536 * ll,
            abs_int(py) <= 65536 * ll,
            abs_int(pz) <= 65536 * ll,
            0 <= ff,
    ;
    assert(ll >= 1) by (nonlinear_arith)
        requires
            len >= 1,
            ll == len * len,
    ;
    assert(rr >= cc - 6 * 65536 - 3) by (nonlinear_arith)
        requires
            rr * ll >= ll * cc - 6 * 65536 * ll - 3 * ll,
            ll >= 1,
    ;
    assert(rr <= cc + 8 * 65536) by (nonlinear_arith)
        requires
            rr * ll <= ll * cc + 8 * 65536 * ll,
            ll >= 1,
    ;

    // An integer square root of that bracket lies within 4 steps of one unit.
    lemma_isqrt_bounds(rr);
    let ln = crate::fixed::isqrt(rr);
    assert((65536 - 4) * (65536 - 4) <= cc - 6 * 65536 - 3) by (nonlinear_arith)
        requires
            cc == 4294967296int,
    ;
    assert(cc + 8 * 65536 < (65536 + 4) * (65536 + 4)) by (nonlinear_arith)
        requires
            cc == 4294967296int,
    ;
    assert(ln >= 65536 - 4) by {
        if ln < 65536 - 4 {
            assert((ln + 1) * (ln + 1) <= (65536 - 4) * (65536 - 4)) by (nonlinear_arith)
                requires
                    0 <= ln,
                    ln < 65536 - 4,
            ;
        }
    }
    assert(ln <= 65536 + 4) by {
        if ln > 65536 + 4 {
            assert(ln * ln >= (65536 + 4) * (65536 + 4)) by (nonlinear_arith)
                requires
                    ln >= 65536 + 4,
            ;
        }
    }
    assert(vlen(n) == ln);
}

/// Normalization is the identity on vectors of exactly unit length; repeated
/// normalization therefore settles as soon as the length is exact.
pub proof fn law_normalize_fixed_on_unit(v: Vector3)
    requires
        vlen(v) == SCALE,
    ensures
        vnormalize(v) == v,
{
    lemma_fdiv_unit(v.x);
    lemma_fdiv_unit(v.y);
    lemma_fdiv_unit(v.z);
}

/// Every display byte's decoded value stays within the unit interval.
pub proof fn lemma_gamma_decode_range(b: u8)
    ensures
        0 <= gamma_decode_spec(b),
        gamma_decode_spec(b) <= SCALE,
{
    let b1 = b as int;
    let b2 = b1 * b1;
    let b4 = b2 * b2;
    let b8 = b4 * b4;
    let b10 = b8 * b2;
    let b11 = b10 * b1;
    assert(0 <= b2 <= 65025) by (nonlinear_arith)
        requires
            0 <= b1 <= 255,
            b2 == b1 * b1,
    ;
    assert(0 <= b4 <= 4228250625) by (nonlinear_arith)
        requires
            0 <= b2 <= 65025,
            b4 == b2 * b2,
    ;
    assert(0 <= b8 <= 17878103347812890625) by (nonlinear_arith)
        requires
            0 <= b4 <= 4228250625,
            b8 == b4 * b4,
    ;
    assert(0 <= b10 <= 1162523670191533212890625) by (nonlinear_arith)
        requires
            0 <= b8 <= 17878103347812890625,
            0 <= b2 <= 65025,
            b10 == b8 * b2,
    ;
    assert(0 <= b11 <= 296443535898840969287109375) by (nonlinear_arith)
        requires
            0 <= b10 <= 1162523670191533212890625,
            0 <= b1 <= 255,
            b11 == b10 * b1,
    ;
    lemma_pow11_chain(b1, b2, b4, b8, b10, b11);
    assert(b11 * 1099511627776 <= 325943114699807725412627251200000000000) by (nonlinear_arith)
        requires
            0 <= b11 <= 296443535898840969287109375,
    ;
    assert(b11 * 1099511627776 >= 0) by (nonlinear_arith)
        requires
            b11 >= 0,
    ;
    let t = (b11 * 1099511627776) / 296443535898840969287109375;
    assert(296443535898840969287109375int * 1099511627776int
        == 325943114699807725412627251200000000000int) by (nonlinear_arith);
    vstd::arithmetic::div_mod::lemma_div_is_ordered(
        b11 * 1099511627776,
        296443535898840969287109375int * 1099511627776int,
        296443535898840969287109375int,
    );
    vstd::arithmetic::div_mod::lemma_div_multiples_vanish(
        1099511627776int,
        296443535898840969287109375int,
    );
    vstd::arithmetic::div_mod::lemma_div_pos_is_pos(
        b11 * 1099511627776,
        296443535898840969287109375int,
    );
    assert(0 <= t <= 1099511627776);
    assert(t * 1099511627776 <= 1208925819614629174706176) by (nonlinear_arith)
        requires
            t <= 1099511627776,
    ;
    assert(t * 1099511627776 >= 0) by (nonlinear_arith)
        requires
            t >= 0,
    ;
    lemma_iroot5_bounds(t * 1099511627776);
    let r = iroot5(t * 1099511627776);
    if r > SCALE {
        assert(p5(65537int) > 1208925819614629174706176int) by (nonlinear_arith);
        assert(p5(r) >= p5(65537int)) by (nonlinear_arith)
            requires
                r >= 65537,
        ;
    }
}

/// Gamma round trip: encoding a linear value in the unit interval picks the
/// byte whose decoded value lies nearest it, so the decode-of-encode error is
/// the 8-bit quantization error itself and no byte does better.
pub proof fn law_gamma_round_trip(c: i64)
    requires
        0 <= c <= SCALE,
    ensures
        forall|b: u8|
            gamma_err(gamma_encode_spec(c), c) <= #[trigger] gamma_err(b, c),
{
    assert(clamp01(c) == c);
    lemma_best_byte_nearest(c, 256);
    assert forall|b: u8| gamma_err(gamma_encode_spec(c), c) <= #[trigger] gamma_err(b, c) by {
        assert(b < 256);
    }
}

/// On values that are exactly some byte's decoded color, the gamma round
/// trip is lossless: decode(encode(decode(b))) == decode(b).
pub proof fn law_gamma_exact_on_decoded(b: u8)
    ensures
        gamma_decode_spec(gamma_encode_spec(gamma_decode_spec(b))) == gamma_decode_spec(b),
{
    lemma_gamma_decode_range(b);
    let c = gamma_decode_spec(b);
    law_gamma_round_trip(c);
    assert(gamma_err(b, c) == 0);
    assert(gamma_err(gamma_encode_spec(c), c) == 0);
    assert(abs_int(gamma_decode_spec(gamma_encode_spec(c)) - c) == 0);
}

} // verus!
