//! Linear-light colors over fixed-point channels, and the gamma transform
//! between linear values and 8-bit display bytes. Decoding raises a byte to
//! the display exponent (11/5) by exact integer roots; encoding picks the
//! byte whose decoded value lies nearest the given linear value, so a decoded
//! byte always encodes back to an equally-near byte.
use vstd::prelude::*;

use crate::fixed::{abs_int, fadd, fmul, fx_add, fx_mul, SCALE};

verus! {

/// 255 raised to the 11th power: the normalization of an 11th power of a
/// byte, the display curve's exponent being the ratio 11/5.
pub const BYTE_MAX_POW11: u128 = 296443535898840969287109375;

/// 2 to the 40th: the working scale of the gamma computation, squared once
/// more by the fifth root back to the color scale.
pub const GAMMA_WORK_SCALE: u128 = 1099511627776;

#[derive(Clone, Copy, Debug, PartialEq, Eq, Structural)]
pub struct Color {
    pub red: i64,
    pub green: i64,
    pub blue: i64,
}

/// An 8-bit display pixel.
#[derive(Clone, Copy, Debug, PartialEq, Eq, Structural)]
pub struct Rgba {
    pub red: u8,
    pub green: u8,
    pub blue: u8,
    pub alpha: u8,
}

pub open spec fn cblack() -> Color {
    Color { red: 0i64, green: 0i64, blue: 0i64 }
}

/// Componentwise tint.
pub open spec fn cmul(a: Color, b: Color) -> Color {
    Color { red: fmul(a.red, b.red), green: fmul(a.green, b.green), blue: fmul(a.blue, b.blue) }
}

/// Componentwise accumulation.
pub open spec fn cadd(a: Color, b: Color) -> Color {
    Color { red: fadd(a.red, b.red), green: fadd(a.green, b.green), blue: fadd(a.blue, b.blue) }
}

/// Attenuation by a scalar factor.
pub open spec fn cscale(c: Color, k: i64) -> Color {
    Color { red: fmul(c.red, k), green: fmul(c.green, k), blue: fmul(c.blue, k) }
}

/// Clamp one channel to the unit interval.
pub open spec fn clamp01(x: i64) -> i64 {
    if x < 0 {
        0i64
    } else if x > SCALE {
        SCALE
    } else {
        x
    }
}

pub open spec fn cclamp(c: Color) -> Color {
    Color { red: clamp01(c.red), green: clamp01(c.green), blue: clamp01(c.blue) }
}

/// Fifth power.
pub open spec fn p5(r: int) -> int {
    r * r * r * r * r
}

/// Integer fifth root: the largest r with r^5 <= n (0 for negative n).
pub open spec fn iroot5(n: int) -> int
    decreases n,
{
    if n < 1 {
        0
    } else {
        let r = iroot5(n - 1);
        if p5(r + 1) <= n {
            r + 1
        } else {
            r
        }
    }
}

pub proof fn lemma_iroot5_bounds(n: int)
    requires
        n >= 0,
    ensures
        iroot5(n) >= 0,
        p5(iroot5(n)) <= n,
        n < p5(iroot5(n) + 1),
    decreases n,
{
    if n == 0 {
    } else {
        lemma_iroot5_bounds(n - 1);
        let r = iroot5(n - 1);
        if p5(r + 1) <= n {
            assert(p5(r + 2) > p5(r + 1)) by (nonlinear_arith)
                requires
                    r >= 0,
            ;
        }
    }
}

pub proof fn lemma_iroot5_unique(n: int, r: int)
    requires
        n >= 0,
        r >= 0,
        p5(r) <= n,
        n < p5(r + 1),
    ensures
        r == iroot5(n),
{
    lemma_iroot5_bounds(n);
    let s = iroot5(n);
    if r < s {
        assert(p5(r + 1) <= p5(s)) by (nonlinear_arith)
            requires
                0 <= r,
                r < s,
        ;
        assert(false);
    }
    if s < r {
        assert(p5(s + 1) <= p5(r)) by (nonlinear_arith)
            requires
                0 <= s,
                s < r,
        ;
        assert(false);
    }
}

/// 11th power of a byte.
pub open spec fn pow11(b: int) -> int {
    b * b * b * b * b * b * b * b * b * b * b
}

/// Repeated squaring reaches the same 11th power as the plain product chain.
pub proof fn lemma_pow11_chain(b1: int, b2: int, b4: int, b8: int, b10: int, b11: int)
    requires
        b2 == b1 * b1,
        b4 == b2 * b2,
        b8 == b4 * b4,
        b10 == b8 * b2,
        b11 == b10 * b1,
    ensures
        b11 == pow11(b1),
{
    let q2 = b1 * b1;
    let q3 = q2 * b1;
    let q4 = q3 * b1;
    let q5 = q4 * b1;
    let q6 = q5 * b1;
    let q7 = q6 * b1;
    let q8 = q7 * b1;
    let q9 = q8 * b1;
    let q10 = q9 * b1;
    let q11 = q10 * b1;
    assert(pow11(b1) == q11);
    vstd::arithmetic::mul::lemma_mul_is_associative(q2, b1, b1);
    assert(q4 == b4);
    vstd::arithmetic::mul::lemma_mul_is_associative(q4, b1, b1);
    assert(q6 == q4 * q2);
    vstd::arithmetic::mul::lemma_mul_is_associative(q6, b1, b1);
    assert(q8 == q6 * q2);
    vstd::arithmetic::mul::lemma_mul_is_associative(q4, q2, q2);
    assert(q8 == b8);
    vstd::arithmetic::mul::lemma_mul_is_associative(q8, b1, b1);
    assert(q10 == q8 * q2);
    assert(b11 == q11);
}

/// Linear value of a display byte: (b/255)^(11/5) on the color scale,
/// computed with integer roots that round down.
pub open spec fn gamma_decode_spec(b: u8) -> i64 {
    iroot5(
        ((pow11(b as int) * GAMMA_WORK_SCALE) / (BYTE_MAX_POW11 as int)) * GAMMA_WORK_SCALE,
    ) as i64
}

/// Distance between a byte's decoded value and a linear value.
pub open spec fn gamma_err(b: u8, c: i64) -> int {
    abs_int(gamma_decode_spec(b) - c)
}

/// The smallest byte among 0..n whose decoded value lies nearest c.
pub open spec fn best_byte_upto(c: i64, n: int) -> u8
    decreases n,
{
    if n <= 1 {
        0u8
    } else {
        let p = best_byte_upto(c, n - 1);
        if gamma_err((n - 1) as u8, c) < gamma_err(p, c) {
            (n - 1) as u8
        } else {
            p
        }
    }
}

/// Display byte of a linear value: clamp to the unit interval, then take the
/// nearest decodable byte (ties to the smaller byte).
pub open spec fn gamma_encode_spec(c: i64) -> u8 {
    best_byte_upto(clamp01(c), 256)
}

/// No byte decodes nearer to c than the chosen one.
pub proof fn lemma_best_byte_nearest(c: i64, n: int)
    requires
        1 <= n <= 256,
    ensures
        forall|b: u8| b < n ==> gamma_err(best_byte_upto(c, n), c) <= #[trigger] gamma_err(b, c),
    decreases n,
{
    if n > 1 {
        lemma_best_byte_nearest(c, n - 1);
    }
}

/// Integer fifth root by bisection, for values up to the squared work scale.
fn iroot5_u128(n: u128) -> (r: u128)
    requires
        n <= 0x1_0000_0000_0000_0000_0000u128,
    ensures
        r == iroot5(n as int),
        r <= 0x1_0000u128,
{
    let mut lo: u128 = 0;
    let mut hi: u128 = 0x1_0001u128;
    proof {
        assert(p5(0x1_0001int) > 0x1_0000_0000_0000_0000_0000int) by (nonlinear_arith);
    }
    while lo + 1 < hi
        invariant
            lo < hi,
            hi <= 0x1_0001u128,
            n <= 0x1_0000_0000_0000_0000_0000u128,
            p5(lo as int) <= n,
            (n as int) < p5(hi as int),
        decreases hi - lo,
    {
        let mid: u128 = lo + (hi - lo) / 2;
        assert(mid * mid <= 4294967296u128) by (nonlinear_arith)
            requires
                mid <= 65536u128,
        ;
        let m2 = mid * mid;
        assert(m2 * m2 <= 18446744073709551616u128) by (nonlinear_arith)
            requires
                m2 <= 4294967296u128,
        ;
        let m4 = m2 * m2;
        assert(m4 * mid <= 1208925819614629174706176u128) by (nonlinear_arith)
            requires
                m4 <= 18446744073709551616u128,
                mid <= 65536u128,
        ;
        let m5 = m4 * mid;
        assert(m5 == p5(mid as int)) by (nonlinear_arith)
            requires
                m2 == mid * mid,
                m4 == m2 * m2,
                m5 == m4 * mid,
        ;
        if m5 <= n {
            lo = mid;
        } else {
            hi = mid;
        }
    }
    proof {
        lemma_iroot5_unique(n as int, lo as int);
    }
    lo
}

/// Decode a gamma-encoded display byte to a linear channel value.
pub fn gamma_decode(b: u8) -> (r: i64)
    ensures
        r == gamma_decode_spec(b),
        0 <= r <= SCALE,
{
    let b1: u128 = b as u128;
    assert(b1 * b1 <= 65025u128) by (nonlinear_arith)
        requires
            b1 <= 255u128,
    ;
    let b2 = b1 * b1;
    assert(b2 * b2 <= 4228250625u128) by (nonlinear_arith)
        requires
            b2 <= 65025u128,
    ;
    let b4 = b2 * b2;
    assert(b4 * b4 <= 17878103347812890625u128) by (nonlinear_arith)
        requires
            b4 <= 4228250625u128,
    ;
    let b8 = b4 * b4;
    assert(b8 * b2 <= 1162523670191533212890625u128) by (nonlinear_arith)
        requires
            b8 <= 17878103347812890625u128,
            b2 <= 65025u128,
    ;
    let b10 = b8 * b2;
    assert(b10 * b1 <= 296443535898840969287109375u128) by (nonlinear_arith)
        requires
            b10 <= 1162523670191533212890625u128,
            b1 <= 255u128,
    ;
    let b11 = b10 * b1;
    proof {
        lemma_pow11_chain(b1 as int, b2 as int, b4 as int, b8 as int, b10 as int, b11 as int);
    }
    assert(b11 * 1099511627776 <= 325943114699807725412627251200000000000) by (nonlinear_arith)
        requires
            b11 <= 296443535898840969287109375u128,
    ;
    let t: u128 = (b11 * GAMMA_WORK_SCALE) / BYTE_MAX_POW11;
    proof {
        let xi = (b11 * 1099511627776) as int;
        let d = 296443535898840969287109375int;
        let w = 1099511627776int;
        assert(296443535898840969287109375int * 1099511627776int
            == 325943114699807725412627251200000000000int) by (nonlinear_arith);
        vstd::arithmetic::div_mod::lemma_div_is_ordered(xi, d * w, d);
        vstd::arithmetic::div_mod::lemma_div_multiples_vanish(w, d);
        assert(t <= 1099511627776u128);
    }
    assert(t * 1099511627776 <= 1208925819614629174706176u128) by (nonlinear_arith)
        requires
            t <= 1099511627776u128,
    ;
    let n5: u128 = t * GAMMA_WORK_SCALE;
    let r = iroot5_u128(n5);
    proof {
        assert(p5(0x1_0000int + 1) > 0x1_0000_0000_0000_0000_0000int) by (nonlinear_arith);
        if r > 0x1_0000u128 {
            lemma_iroot5_bounds(n5 as int);
        }
    }
    r as i64
}

/// Encode a linear channel value as the display byte that decodes nearest it.
pub fn gamma_encode(c: i64) -> (r: u8)
    ensures
        r == gamma_encode_spec(c),
{
    let cc: i64 = if c < 0 {
        0
    } else if c > SCALE {
        SCALE
    } else {
        c
    };
    let mut best: u8 = 0;
    let d0 = gamma_decode(0);
    let mut best_err: i64 = if d0 >= cc {
        d0 - cc
    } else {
        cc - d0
    };
    let mut b: u16 = 1;
    while b < 256
        invariant
            1 <= b <= 256,
            cc == clamp01(c),
            best == best_byte_upto(cc, b as int),
            best_err == gamma_err(best, cc),
        decreases 256 - b,
    {
        let d = gamma_decode(b as u8);
        let e: i64 = if d >= cc {
            d - cc
        } else {
            cc - d
        };
        if e < best_err {
            best = b as u8;
            best_err = e;
        }
        b = b + 1;
    }
    best
}

impl Color {
    pub fn black() -> (r: Color)
        ensures
            r == cblack(),
    {
        Color { red: 0, green: 0, blue: 0 }
    }

    /// Componentwise tint.
    pub fn mul(self, rhs: Color) -> (r: Color)
        ensures
            r == cmul(self, rhs),
    {
        Color {
            red: fx_mul(self.red, rhs.red),
            green: fx_mul(self.green, rhs.green),
            blue: fx_mul(self.blue, rhs.blue),
        }
    }

    /// Componentwise accumulation.
    pub fn add(self, rhs: Color) -> (r: Color)
        ensures
            r == cadd(self, rhs),
    {
        Color {
            red: fx_add(self.red, rhs.red),
            green: fx_add(self.green, rhs.green),
            blue: fx_add(self.blue, rhs.blue),
        }
    }

    /// Attenuation by a scalar factor.
    pub fn scale(self, k: i64) -> (r: Color)
        ensures
            r == cscale(self, k),
    {
        Color {
            red: fx_mul(self.red, k),
            green: fx_mul(self.green, k),
            blue: fx_mul(self.blue, k),
        }
    }

    /// Clamp every channel to the unit interval.
    pub fn clamp(&self) -> (r: Color)
        ensures
            r == cclamp(*self),
    {
        Color {
            red: clamp_channel(self.red),
            green: clamp_channel(self.green),
            blue: clamp_channel(self.blue),
        }
    }

    /// Gamma-encode to an opaque display pixel.
    pub fn to_rgba(&self) -> (r: Rgba)
        ensures
            r == to_rgba_spec(*self),
    {
        Rgba {
            red: gamma_encode(self.red),
            green: gamma_encode(self.green),
            blue: gamma_encode(self.blue),
            alpha: 255,
        }
    }

    /// Gamma-decode a display pixel to linear light; the alpha is dropped.
    pub fn from_rgba(rgba: Rgba) -> (r: Color)
        ensures
            r == from_rgba_spec(rgba),
    {
        Color {
            red: gamma_decode(rgba.red),
            green: gamma_decode(rgba.green),
            blue: gamma_decode(rgba.blue),
        }
    }
}

pub open spec fn to_rgba_spec(c: Color) -> Rgba {
    Rgba {
        red: gamma_encode_spec(c.red),
        green: gamma_encode_spec(c.green),
        blue: gamma_encode_spec(c.blue),
        alpha: 255u8,
    }
}

pub open spec fn from_rgba_spec(rgba: Rgba) -> Color {
    Color {
        red: gamma_decode_spec(rgba.red),
        green: gamma_decode_spec(rgba.green),
        blue: gamma_decode_spec(rgba.blue),
    }
}

fn clamp_channel(x: i64) -> (r: i64)
    ensures
        r == clamp01(x),
{
    if x < 0 {
        0
    } else if x > SCALE {
        SCALE
    } else {
        x
    }
}

} // verus!
