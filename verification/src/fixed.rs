//! Saturating signed fixed-point arithmetic: an `i64` carries a real quantity
//! scaled by `SCALE` (16 fractional bits). Results that leave the representable
//! range clamp to the nearest extreme, the fixed-point counterpart of an
//! overflowing magnitude; division and multiplication round toward zero.
use vstd::prelude::*;

verus! {

/// One whole unit: the fixed-point representation of 1.
pub const SCALE: i64 = 65536;

/// The circle constant scaled by `SCALE` (rounded to the nearest step).
pub const PI_FX: i64 = 205887;

/// Four times the circle constant scaled by `SCALE`, the sphere solid-angle
/// divisor of an inverse-square light falloff.
pub const FOUR_PI_FX: i64 = 823550;

/// Clamp a mathematical integer into the `i64` range.
pub open spec fn sat64(x: int) -> int {
    if x > i64::MAX {
        i64::MAX as int
    } else if x < i64::MIN {
        i64::MIN as int
    } else {
        x
    }
}

pub open spec fn abs_int(x: int) -> int {
    if x < 0 {
        -x
    } else {
        x
    }
}

/// Division rounding toward zero (the spec-level `/` rounds toward
/// negative infinity on mixed signs).
pub open spec fn tdiv(a: int, b: int) -> int {
    if (a < 0) != (b < 0) {
        -(abs_int(a) / abs_int(b))
    } else {
        abs_int(a) / abs_int(b)
    }
}

/// Saturating fixed-point addition.
pub open spec fn fadd(a: i64, b: i64) -> i64 {
    sat64(a + b) as i64
}

/// Saturating fixed-point subtraction.
pub open spec fn fsub(a: i64, b: i64) -> i64 {
    sat64(a - b) as i64
}

/// Saturating fixed-point multiplication, rounding toward zero.
pub open spec fn fmul(a: i64, b: i64) -> i64 {
    sat64(tdiv(a * b, SCALE as int)) as i64
}

/// Saturating fixed-point division, rounding toward zero; unspecified for b == 0.
pub open spec fn fdiv(a: i64, b: i64) -> i64 {
    sat64(tdiv(a * SCALE, b as int)) as i64
}

/// Integer square root: the largest r with r * r <= n (0 for negative n).
pub open spec fn isqrt(n: int) -> int
    decreases n,
{
    if n < 1 {
        0
    } else {
        let r = isqrt(n - 1);
        if (r + 1) * (r + 1) <= n {
            r + 1
        } else {
            r
        }
    }
}

/// Fixed-point square root of a nonnegative value.
pub open spec fn fsqrt(a: i64) -> i64 {
    sat64(isqrt(a * SCALE)) as i64
}

pub proof fn lemma_isqrt_bounds(n: int)
    requires
        n >= 0,
    ensures
        isqrt(n) >= 0,
        isqrt(n) * isqrt(n) <= n,
        n < (isqrt(n) + 1) * (isqrt(n) + 1),
    decreases n,
{
    if n == 0 {
    } else {
        lemma_isqrt_bounds(n - 1);
        let r = isqrt(n - 1);
        if (r + 1) * (r + 1) <= n {
            assert((r + 2) * (r + 2) > (r + 1) * (r + 1)) by (nonlinear_arith)
                requires
                    r >= 0,
            ;
        } else {
            assert(n <= (n - 1) + 1);
        }
    }
}

pub proof fn lemma_isqrt_unique(n: int, r: int)
    requires
        n >= 0,
        r >= 0,
        r * r <= n,
        n < (r + 1) * (r + 1),
    ensures
        r == isqrt(n),
{
    lemma_isqrt_bounds(n);
    let s = isqrt(n);
    assert(r <= s || s <= r);
    if r < s {
        assert((r + 1) * (r + 1) <= s * s) by (nonlinear_arith)
            requires
                0 <= r,
                r < s,
        ;
        assert(false);
    }
    if s < r {
        assert((s + 1) * (s + 1) <= r * r) by (nonlinear_arith)
            requires
                0 <= s,
                s < r,
        ;
        assert(false);
    }
}

/// Saturating absolute value.
pub open spec fn fabs(a: i64) -> i64 {
    sat64(abs_int(a as int)) as i64
}

/// Absolute value, clamping the one unrepresentable magnitude.
pub fn fx_abs(a: i64) -> (r: i64)
    ensures
        r == fabs(a),
{
    if a == i64::MIN {
        i64::MAX
    } else if a < 0 {
        -a
    } else {
        a
    }
}

/// Magnitude of a signed 64-bit value, widened so that i64::MIN is exact.
pub fn abs64(a: i64) -> (r: u128)
    ensures
        r == abs_int(a as int),
        r <= 0x8000_0000_0000_0000u128,
{
    if a < 0 {
        (-(a as i128)) as u128
    } else {
        a as u128
    }
}

/// Reapply a sign to a magnitude and clamp into the i64 range.
fn clamp_signed(neg: bool, q: u128) -> (r: i64)
    ensures
        r == sat64(if neg { -(q as int) } else { q as int }) as i64,
{
    if neg {
        if q >= 0x8000_0000_0000_0000u128 {
            i64::MIN
        } else {
            -(q as i64)
        }
    } else {
        if q > i64::MAX as u128 {
            i64::MAX
        } else {
            q as i64
        }
    }
}

proof fn lemma_mul_abs_sign(a: int, b: int)
    by (nonlinear_arith)
    ensures
        abs_int(a * b) == abs_int(a) * abs_int(b),
        (a * b < 0) <==> ((a < 0) != (b < 0) && a != 0 && b != 0),
{
}

/// Fixed-point addition, clamping at the representable extremes.
pub fn fx_add(a: i64, b: i64) -> (r: i64)
    ensures
        r == fadd(a, b),
{
    let s: i128 = a as i128 + b as i128;
    if s > i64::MAX as i128 {
        i64::MAX
    } else if s < i64::MIN as i128 {
        i64::MIN
    } else {
        s as i64
    }
}

/// Fixed-point subtraction, clamping at the representable extremes.
pub fn fx_sub(a: i64, b: i64) -> (r: i64)
    ensures
        r == fsub(a, b),
{
    let s: i128 = a as i128 - b as i128;
    if s > i64::MAX as i128 {
        i64::MAX
    } else if s < i64::MIN as i128 {
        i64::MIN
    } else {
        s as i64
    }
}

/// Fixed-point multiplication, clamping at the representable extremes.
pub fn fx_mul(a: i64, b: i64) -> (r: i64)
    ensures
        r == fmul(a, b),
{
    let neg: bool = (a < 0) != (b < 0);
    let am = abs64(a);
    let bm = abs64(b);
    assert(am * bm <= 0x8000_0000_0000_0000u128 * 0x8000_0000_0000_0000u128) by (nonlinear_arith)
        requires
            am <= 0x8000_0000_0000_0000u128,
            bm <= 0x8000_0000_0000_0000u128,
    ;
    let p: u128 = am * bm;
    let q: u128 = p / 65536;
    proof {
        lemma_mul_abs_sign(a as int, b as int);
    }
    clamp_signed(neg, q)
}

/// Fixed-point division, clamping at the representable extremes.
pub fn fx_div(a: i64, b: i64) -> (r: i64)
    requires
        b != 0,
    ensures
        r == fdiv(a, b),
{
    let neg: bool = (a < 0) != (b < 0);
    let am = abs64(a);
    let bm = abs64(b);
    let p: u128 = am * 65536;
    let q: u128 = p / bm;
    proof {
        lemma_mul_abs_sign(a as int, SCALE as int);
    }
    clamp_signed(neg, q)
}

/// Integer square root by bisection.
pub fn isqrt_u128(n: u128) -> (r: u128)
    ensures
        r == isqrt(n as int),
        r * r <= n,
        n < (r + 1) * (r + 1),
{
    let mut lo: u128 = 0;
    let mut hi: u128 = 0x1_0000_0000_0000_0000u128;
    proof {
        assert(n < hi * hi) by (nonlinear_arith)
            requires
                hi == 0x1_0000_0000_0000_0000u128,
                n <= u128::MAX,
        ;
    }
    while lo + 1 < hi
        invariant
            lo < hi,
            hi <= 0x1_0000_0000_0000_0000u128,
            lo * lo <= n,
            n < hi * hi,
        decreases hi - lo,
    {
        let mid: u128 = lo + (hi - lo) / 2;
        assert(mid * mid < u128::MAX) by (nonlinear_arith)
            requires
                mid < 0x1_0000_0000_0000_0000u128,
        ;
        if mid * mid <= n {
            lo = mid;
        } else {
            hi = mid;
        }
    }
    proof {
        lemma_isqrt_unique(n as int, lo as int);
    }
    lo
}

/// Fixed-point square root of a nonnegative value.
pub fn fx_sqrt(a: i64) -> (r: i64)
    requires
        a >= 0,
    ensures
        r == fsqrt(a),
{
    let n: u128 = (a as u128) * 65536;
    let s = isqrt_u128(n);
    proof {
        assert(s < 0x100_0000_0000u128) by (nonlinear_arith)
            requires
                s * s <= n,
                n < 0x1_0000_0000_0000_0000_0000u128,
        ;
    }
    s as i64
}

} // verus!
