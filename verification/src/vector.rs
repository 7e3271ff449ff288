//! Free 3D vectors over fixed-point coordinates: dot and cross products,
//! Euclidean length, normalization, negation and scaling.
use vstd::prelude::*;

use crate::fixed::{
    abs64, abs_int, fadd, fdiv, fmul, fsub, fx_add, fx_div, fx_mul, fx_sub, isqrt, isqrt_u128,
    sat64, tdiv, SCALE,
};

verus! {

#[derive(Clone, Copy, Debug, PartialEq, Eq, Structural)]
pub struct Vector3 {
    pub x: i64,
    pub y: i64,
    pub z: i64,
}

/// Dot product: each coordinate product is rescaled once, the three terms are
/// summed exactly, and the sum clamps into range.
pub open spec fn vdot(a: Vector3, b: Vector3) -> i64 {
    sat64(
        tdiv(a.x * b.x, SCALE as int) + tdiv(a.y * b.y, SCALE as int) + tdiv(
            a.z * b.z,
            SCALE as int,
        ),
    ) as i64
}

/// Exact sum of squared coordinates, on the raw (unscaled) integer grid.
pub open spec fn vnorm_sq(v: Vector3) -> int {
    v.x * v.x + v.y * v.y + v.z * v.z
}

/// Euclidean length: the raw squares are summed exactly, so the only rounding
/// is the integer square root itself.
pub open spec fn vlen(v: Vector3) -> i64 {
    sat64(isqrt(vnorm_sq(v))) as i64
}

pub open spec fn vnormalize(v: Vector3) -> Vector3 {
    Vector3 { x: fdiv(v.x, vlen(v)), y: fdiv(v.y, vlen(v)), z: fdiv(v.z, vlen(v)) }
}

pub open spec fn vscale(v: Vector3, k: i64) -> Vector3 {
    Vector3 { x: fmul(v.x, k), y: fmul(v.y, k), z: fmul(v.z, k) }
}

pub open spec fn vneg(v: Vector3) -> Vector3 {
    Vector3 { x: sat64(-v.x) as i64, y: sat64(-v.y) as i64, z: sat64(-v.z) as i64 }
}

pub open spec fn vadd(a: Vector3, b: Vector3) -> Vector3 {
    Vector3 { x: fadd(a.x, b.x), y: fadd(a.y, b.y), z: fadd(a.z, b.z) }
}

pub open spec fn vsub(a: Vector3, b: Vector3) -> Vector3 {
    Vector3 { x: fsub(a.x, b.x), y: fsub(a.y, b.y), z: fsub(a.z, b.z) }
}

pub open spec fn vcross(a: Vector3, b: Vector3) -> Vector3 {
    Vector3 {
        x: fsub(fmul(a.y, b.z), fmul(a.z, b.y)),
        y: fsub(fmul(a.z, b.x), fmul(a.x, b.z)),
        z: fsub(fmul(a.x, b.y), fmul(a.y, b.x)),
    }
}

pub open spec fn is_zero_vec(v: Vector3) -> bool {
    v.x == 0 && v.y == 0 && v.z == 0
}

/// One coordinate product scaled down by `SCALE`, kept wide so a dot product
/// can sum its terms exactly before clamping once.
fn mul_scaled_wide(a: i64, b: i64) -> (r: i128)
    ensures
        r == tdiv(a * b, SCALE as int),
        abs_int(r as int) <= 0x4000_0000_0000_0000_0000_0000_0000int,
{
    let neg: bool = (a < 0) != (b < 0);
    let am = abs64(a);
    let bm = abs64(b);
    assert(am * bm <= 0x8000_0000_0000_0000u128 * 0x8000_0000_0000_0000u128) by (nonlinear_arith)
        requires
            am <= 0x8000_0000_0000_0000u128,
            bm <= 0x8000_0000_0000_0000u128,
    ;
    let p: u128 = am * bm;
    let q: u128 = p / 65536;
    proof {
        lemma_vec_mul_abs_sign(a as int, b as int);
    }
    if neg {
        -(q as i128)
    } else {
        q as i128
    }
}

proof fn lemma_vec_mul_abs_sign(a: int, b: int)
    by (nonlinear_arith)
    ensures
        abs_int(a * b) == abs_int(a) * abs_int(b),
        (a * b < 0) <==> ((a < 0) != (b < 0) && a != 0 && b != 0),
{
}

/// The square of a value is its squared magnitude and is nonnegative.
proof fn lemma_square_abs(a: int)
    by (nonlinear_arith)
    ensures
        a * a == abs_int(a) * abs_int(a),
        a * a >= 0,
        a != 0 ==> a * a >= 1,
{
}

impl Vector3 {
    pub fn zero() -> (r: Vector3)
        ensures
            r == (Vector3 { x: 0i64, y: 0i64, z: 0i64 }),
    {
        Vector3 { x: 0, y: 0, z: 0 }
    }

    pub fn dot(&self, other: &Vector3) -> (r: i64)
        ensures
            r == vdot(*self, *other),
    {
        let q1 = mul_scaled_wide(self.x, other.x);
        let q2 = mul_scaled_wide(self.y, other.y);
        let q3 = mul_scaled_wide(self.z, other.z);
        let s: i128 = q1 + q2 + q3;
        if s > i64::MAX as i128 {
            i64::MAX
        } else if s < i64::MIN as i128 {
            i64::MIN
        } else {
            s as i64
        }
    }

    /// Euclidean norm; the result clamps to the largest representable value
    /// for coordinates too large to square within range.
    pub fn length(&self) -> (r: i64)
        ensures
            r == vlen(*self),
            r >= 0,
            !is_zero_vec(*self) ==> r >= 1,
    {
        let xm = abs64(self.x);
        let ym = abs64(self.y);
        let zm = abs64(self.z);
        assert(xm * xm <= 0x8000_0000_0000_0000u128 * 0x8000_0000_0000_0000u128
            && ym * ym <= 0x8000_0000_0000_0000u128 * 0x8000_0000_0000_0000u128
            && zm * zm <= 0x8000_0000_0000_0000u128 * 0x8000_0000_0000_0000u128)
            by (nonlinear_arith)
            requires
                xm <= 0x8000_0000_0000_0000u128,
                ym <= 0x8000_0000_0000_0000u128,
                zm <= 0x8000_0000_0000_0000u128,
        ;
        let n: u128 = xm * xm + ym * ym + zm * zm;
        proof {
            lemma_square_abs(self.x as int);
            lemma_square_abs(self.y as int);
            lemma_square_abs(self.z as int);
            assert(abs_int(self.x as int) * abs_int(self.x as int) == xm * xm);
            assert(abs_int(self.y as int) * abs_int(self.y as int) == ym * ym);
            assert(abs_int(self.z as int) * abs_int(self.z as int) == zm * zm);
        }
        let s = isqrt_u128(n);
        proof {
            if !is_zero_vec(*self) {
                assert(n >= 1);
                assert(s >= 1);
            }
        }
        if s > i64::MAX as u128 {
            i64::MAX
        } else {
            s as i64
        }
    }

    /// Scale each coordinate by the inverse length. The caller rules out the
    /// zero vector, on which no direction is defined.
    pub fn normalize(self) -> (r: Vector3)
        requires
            !is_zero_vec(self),
        ensures
            r == vnormalize(self),
    {
        let len = self.length();
        Vector3 {
            x: fx_div(self.x, len),
            y: fx_div(self.y, len),
            z: fx_div(self.z, len),
        }
    }

    pub fn scale(self, k: i64) -> (r: Vector3)
        ensures
            r == vscale(self, k),
    {
        Vector3 { x: fx_mul(self.x, k), y: fx_mul(self.y, k), z: fx_mul(self.z, k) }
    }

    pub fn neg(self) -> (r: Vector3)
        ensures
            r == vneg(self),
    {
        Vector3 { x: fx_sub(0, self.x), y: fx_sub(0, self.y), z: fx_sub(0, self.z) }
    }

    pub fn add(self, other: Vector3) -> (r: Vector3)
        ensures
            r == vadd(self, other),
    {
        Vector3 {
            x: fx_add(self.x, other.x),
            y: fx_add(self.y, other.y),
            z: fx_add(self.z, other.z),
        }
    }

    pub fn sub(self, other: Vector3) -> (r: Vector3)
        ensures
            r == vsub(self, other),
    {
        Vector3 {
            x: fx_sub(self.x, other.x),
            y: fx_sub(self.y, other.y),
            z: fx_sub(self.z, other.z),
        }
    }

    pub fn cross(&self, other: &Vector3) -> (r: Vector3)
        ensures
            r == vcross(*self, *other),
    {
        Vector3 {
            x: fx_sub(fx_mul(self.y, other.z), fx_mul(self.z, other.y)),
            y: fx_sub(fx_mul(self.z, other.x), fx_mul(self.x, other.z)),
            z: fx_sub(fx_mul(self.x, other.y), fx_mul(self.y, other.x)),
        }
    }

    pub fn is_zero(&self) -> (r: bool)
        ensures
            r == is_zero_vec(*self),
    {
        self.x == 0 && self.y == 0 && self.z == 0
    }
}

} // verus!
