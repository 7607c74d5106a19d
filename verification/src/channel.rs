//! Color channel values in 8-bit and 16-bit precision.
//!
//! A channel is one *component* of a pixel: an intensity along a color or
//! opacity axis.  It is stored as an unsigned integer, but multiplication and
//! division treat the values as though they range between 0 and 1.

use crate::gamma::{srgb_decode, srgb_decode_spec, srgb_encode, srgb_encode_spec};
use vstd::prelude::*;

verus! {

/// Fixed-point product of two 8-bit channel values under the 0..1 semantic.
///
/// Each operand's 8 bits are replicated into 4 more low bits to fill a 12-bit
/// value before a widened multiply and right shift, approximating
/// `a * b / 255` with integer arithmetic only.
pub open spec fn mul8(a: int, b: int) -> int {
    ((a * 16 + a / 16) * (b * 16 + b / 16)) / 0x10000
}

/// Fixed-point quotient of two 8-bit channel values under the 0..1 semantic.
///
/// Saturates at the maximum intensity when the divisor is smaller than the
/// dividend, and yields zero when the divisor is zero.
pub open spec fn div8(a: int, b: int) -> int {
    if b > 0 {
        if a * 256 / b < 255 {
            a * 256 / b
        } else {
            255
        }
    } else {
        0
    }
}

/// Fixed-point product of two 16-bit channel values under the 0..1 semantic,
/// by the same bit-replication scheme as [`mul8`].
pub open spec fn mul16(a: int, b: int) -> int {
    ((a * 256 + a / 256) * (b * 256 + b / 256)) / 0x1_0000_0000
}

/// Fixed-point quotient of two 16-bit channel values under the 0..1 semantic.
pub open spec fn div16(a: int, b: int) -> int {
    if b > 0 {
        if a * 0x10000 / b < 65535 {
            a * 0x10000 / b
        } else {
            65535
        }
    } else {
        0
    }
}

/// Scaling of a signed difference `v` by an opacity `a`, approximating
/// `v * a / 255` with an add-and-shift in place of the division by 255.
pub open spec fn scale_i32_spec(a: int, v: int) -> int {
    let c = v * a;
    (c + 1 + c / 256) / 256
}

/// Linear interpolation `dest + alpha * (top - dest)` over 8-bit channel
/// intensities, with the division by 255 taken by the add-and-shift of
/// [`scale_i32_spec`].
pub open spec fn lerp_spec(top: int, dest: int, alpha: int) -> int {
    dest + scale_i32_spec(alpha, top - dest)
}

/// Linear interpolation `dest + alpha * (top - dest)` over 16-bit channel
/// intensities, the division by 65535 rounded to the nearest integer (half
/// away from zero).
pub open spec fn lerp16_spec(top: int, dest: int, alpha: int) -> int {
    let p = alpha * (top - dest);
    let s = if p >= 0 {
        (2 * p + 65535) / 131070
    } else {
        -((2 * (-p) + 65535) / 131070)
    };
    dest + s
}

/// One component of a pixel format.
///
/// For example, an RGB pixel has *red*, *green* and *blue* channels.  The
/// defined channels are [`Ch8`] and [`Ch16`]; each treats its full integer
/// range as the closed interval from zero to one.
pub trait Channel: Sized + Copy {
    /// The channel intensity as a mathematical integer.
    spec fn intensity(self) -> int;

    /// The greatest representable intensity (*one*).
    spec fn max_spec() -> int;

    /// What [`Channel::mul`] returns, as a function of the intensities.
    spec fn mul_spec(a: int, b: int) -> int;

    /// What [`Channel::div`] returns, as a function of the intensities.
    spec fn div_spec(a: int, b: int) -> int;

    /// Minimum intensity (*zero*).
    fn min_value() -> (r: Self)
        ensures
            r.intensity() == 0,
    ;

    /// Maximum intensity (*one*).
    fn max_value() -> (r: Self)
        ensures
            r.intensity() == Self::max_spec(),
    ;

    /// Multiply two channel values under the 0..1 semantic.
    fn mul(self, rhs: Self) -> (r: Self)
        ensures
            r.intensity() == Self::mul_spec(self.intensity(), rhs.intensity()),
    ;

    /// Divide two channel values under the 0..1 semantic.
    fn div(self, rhs: Self) -> (r: Self)
        ensures
            r.intensity() == Self::div_spec(self.intensity(), rhs.intensity()),
    ;

    /// Linear interpolation with a third *alpha* channel value.
    fn lerp_alpha(self, dest: Self, alpha: Self) -> (r: Self)
        ensures
            0 <= r.intensity() <= Self::max_spec(),
    ;

    /// Encode a linear intensity with the sRGB transfer curve.
    fn encode_gamma(self) -> (r: Self)
        ensures
            r.intensity() == srgb_encode_spec(self.intensity(), Self::max_spec()),
    ;

    /// Decode an sRGB-encoded value into linear intensity.
    fn decode_gamma(self) -> (r: Self)
        ensures
            r.intensity() == srgb_decode_spec(self.intensity(), Self::max_spec()),
    ;
}

/// 8-bit color [`Channel`].
///
/// The channel is represented by a `u8`, but multiplication and division
/// treat the values as though they range between 0 and 1.
#[derive(Clone, Copy, Debug, PartialEq, Eq, Structural)]
pub struct Ch8 {
    value: u8,
}

/// 16-bit color [`Channel`].
///
/// The channel is represented by a `u16`, but multiplication and division
/// treat the values as though they range between 0 and 1.
#[derive(Clone, Copy, Debug, PartialEq, Eq, Structural)]
pub struct Ch16 {
    value: u16,
}

/// Bit-replication of an 8-bit value into 12 bits equals `16*x + x/16`.
proof fn lemma_replicate8()
    ensures
        forall|x: u32| x < 256 ==> #[trigger] ((x << 4u32) | (x >> 4u32)) == 16 * x + x / 16
            && (x << 4u32) | (x >> 4u32) <= 4095,
{
    assert(forall|x: u32| x < 256 ==> #[trigger] ((x << 4u32) | (x >> 4u32)) == 16 * x + x / 16
        && (x << 4u32) | (x >> 4u32) <= 4095) by (bit_vector);
}

/// Bit-replication of a 16-bit value into 24 bits equals `256*x + x/256`.
proof fn lemma_replicate16()
    ensures
        forall|x: u64| x < 0x10000 ==> #[trigger] ((x << 8u64) | (x >> 8u64)) == 256 * x + x / 256
            && (x << 8u64) | (x >> 8u64) <= 0xFFFFFF,
{
    assert(forall|x: u64| x < 0x10000 ==> #[trigger] ((x << 8u64) | (x >> 8u64)) == 256 * x + x
        / 256 && (x << 8u64) | (x >> 8u64) <= 0xFFFFFF) by (bit_vector);
}

impl Ch8 {
    /// Create a new 8-bit channel value.
    pub fn new(value: u8) -> (r: Self)
        ensures
            r.intensity() == value as int,
    {
        Ch8 { value }
    }

    /// The raw 8-bit value.
    pub fn value(self) -> (r: u8)
        ensures
            r as int == self.intensity(),
    {
        self.value
    }
}

impl Ch16 {
    /// Create a new 16-bit channel value.
    pub fn new(value: u16) -> (r: Self)
        ensures
            r.intensity() == value as int,
    {
        Ch16 { value }
    }

    /// The raw 16-bit value.
    pub fn value(self) -> (r: u16)
        ensures
            r as int == self.intensity(),
    {
        self.value
    }
}

impl Channel for Ch8 {
    closed spec fn intensity(self) -> int {
        self.value as int
    }

    open spec fn max_spec() -> int {
        255
    }

    open spec fn mul_spec(a: int, b: int) -> int {
        mul8(a, b)
    }

    open spec fn div_spec(a: int, b: int) -> int {
        div8(a, b)
    }

    fn min_value() -> (r: Self) {
        Ch8 { value: 0 }
    }

    fn max_value() -> (r: Self) {
        Ch8 { value: 255 }
    }

    fn mul(self, rhs: Self) -> (r: Self) {
        proof {
            lemma_replicate8();
        }
        let l: u32 = self.value as u32;
        let l: u32 = (l << 4u32) | (l >> 4u32);
        let r: u32 = rhs.value as u32;
        let r: u32 = (r << 4u32) | (r >> 4u32);
        proof {
            assert(l * r <= 4095 * 4095) by (nonlinear_arith)
                requires
                    l <= 4095 && r <= 4095,
            ;
            assert(forall|x: u32| #![auto] x >> 16u32 == x / 0x10000) by (bit_vector);
            assert(mul8(self.value as int, rhs.value as int) < 256) by (nonlinear_arith)
                requires
                    0 <= self.value < 256 && 0 <= rhs.value < 256,
            ;
        }
        let value: u8 = ((l * r) >> 16u32) as u8;
        Ch8 { value }
    }

    fn div(self, rhs: Self) -> (r: Self) {
        if rhs.value > 0 {
            let ss: u32 = (self.value as u32) << 8u32;
            let rr: u32 = rhs.value as u32;
            proof {
                assert(forall|x: u32| x < 256 ==> #[trigger] (x << 8u32) == x * 256)
                    by (bit_vector);
            }
            let q: u32 = ss / rr;
            let value: u8 = if q < 255 {
                q as u8
            } else {
                255
            };
            Ch8 { value }
        } else {
            Ch8 { value: 0 }
        }
    }

    fn lerp_alpha(self, dest: Self, alpha: Self) -> (r: Self)
        ensures
            r.intensity() == lerp_spec(self.intensity(), dest.intensity(), alpha.intensity()),
    {
        let top: i32 = self.value as i32;
        let bot: i32 = dest.value as i32;
        proof {
            lemma_scale_bounds(alpha.value as int, top - bot);
        }
        let s: i32 = scale_i32(alpha.value, top - bot);
        let r: i32 = bot + s;
        Ch8 { value: r as u8 }
    }

    fn encode_gamma(self) -> (r: Self) {
        Ch8 { value: srgb_encode(self.value as u16, 255) as u8 }
    }

    fn decode_gamma(self) -> (r: Self) {
        Ch8 { value: srgb_decode(self.value as u16, 255) as u8 }
    }
}

impl Channel for Ch16 {
    closed spec fn intensity(self) -> int {
        self.value as int
    }

    open spec fn max_spec() -> int {
        65535
    }

    open spec fn mul_spec(a: int, b: int) -> int {
        mul16(a, b)
    }

    open spec fn div_spec(a: int, b: int) -> int {
        div16(a, b)
    }

    fn min_value() -> (r: Self) {
        Ch16 { value: 0 }
    }

    fn max_value() -> (r: Self) {
        Ch16 { value: 65535 }
    }

    fn mul(self, rhs: Self) -> (r: Self) {
        proof {
            lemma_replicate16();
        }
        let l: u64 = self.value as u64;
        let l: u64 = (l << 8u64) | (l >> 8u64);
        let r: u64 = rhs.value as u64;
        let r: u64 = (r << 8u64) | (r >> 8u64);
        proof {
            assert(l * r <= 0xFFFFFF * 0xFFFFFF) by (nonlinear_arith)
                requires
                    l <= 0xFFFFFF && r <= 0xFFFFFF,
            ;
            assert(forall|x: u64| #![auto] x >> 32u64 == x / 0x1_0000_0000) by (bit_vector);
            assert(mul16(self.value as int, rhs.value as int) < 0x10000) by (nonlinear_arith)
                requires
                    0 <= self.value < 0x10000 && 0 <= rhs.value < 0x10000,
            ;
        }
        let value: u16 = ((l * r) >> 32u64) as u16;
        Ch16 { value }
    }

    fn div(self, rhs: Self) -> (r: Self) {
        if rhs.value > 0 {
            let ss: u64 = (self.value as u64) << 16u64;
            let rr: u64 = rhs.value as u64;
            proof {
                assert(forall|x: u64| x < 0x10000 ==> #[trigger] (x << 16u64) == x * 0x10000)
                    by (bit_vector);
            }
            let q: u64 = ss / rr;
            let value: u16 = if q < 65535 {
                q as u16
            } else {
                65535
            };
            Ch16 { value }
        } else {
            Ch16 { value: 0 }
        }
    }

    fn lerp_alpha(self, dest: Self, alpha: Self) -> (r: Self)
        ensures
            r.intensity() == lerp16_spec(self.intensity(), dest.intensity(), alpha.intensity()),
    {
        let top: i64 = self.value as i64;
        let bot: i64 = dest.value as i64;
        let a: i64 = alpha.value as i64;
        let d: i64 = top - bot;
        proof {
            assert(-0x1_0000_0000 < a * d < 0x1_0000_0000) by (nonlinear_arith)
                requires
                    0 <= a <= 65535 && -65535 <= d <= 65535,
            ;
        }
        let p: i64 = a * d;
        let s: i64 = if p >= 0 {
            (2 * p + 65535) / 131070
        } else {
            -((2 * (-p) + 65535) / 131070)
        };
        proof {
            lemma_lerp16_step_bounds(a as int, d as int, s as int);
        }
        let r: i64 = bot + s;
        Ch16 { value: r as u16 }
    }

    fn encode_gamma(self) -> (r: Self) {
        Ch16 { value: srgb_encode(self.value, 65535) }
    }

    fn decode_gamma(self) -> (r: Self) {
        Ch16 { value: srgb_decode(self.value, 65535) }
    }
}

/// The scaled difference keeps the sign of `v` and never exceeds it in
/// magnitude, so interpolation stays between its two endpoints.
proof fn lemma_scale_bounds(a: int, v: int)
    requires
        0 <= a <= 255,
        -65535 <= v <= 65535,
    ensures
        v >= 0 ==> 0 <= scale_i32_spec(a, v) <= v,
        v < 0 ==> v <= scale_i32_spec(a, v) <= 0,
{
    let c = v * a;
    if v >= 0 {
        assert(0 <= c <= v * 255) by (nonlinear_arith)
            requires
                0 <= a <= 255 && v >= 0 && c == v * a,
        ;
        assert(c + 1 + c / 256 <= 256 * v + 1) by {
            assert(c / 256 <= v) by (nonlinear_arith)
                requires
                    0 <= c <= v * 255 && v >= 0,
            ;
        }
        assert((c + 1 + c / 256) / 256 <= v) by (nonlinear_arith)
            requires
                0 <= c + 1 + c / 256 <= 256 * v + 1 && v >= 0,
        ;
        assert((c + 1 + c / 256) / 256 >= 0) by (nonlinear_arith)
            requires
                c >= 0,
        ;
    } else {
        assert(v * 255 <= c <= 0) by (nonlinear_arith)
            requires
                0 <= a <= 255 && v < 0 && c == v * a,
        ;
        assert(c / 256 >= v) by (nonlinear_arith)
            requires
                v * 255 <= c <= 0 && v < 0,
        ;
        assert(c + 1 + c / 256 >= 256 * v) by (nonlinear_arith)
            requires
                v * 255 <= c && c / 256 >= v && v < 0,
        ;
        assert((c + 1 + c / 256) / 256 >= v) by (nonlinear_arith)
            requires
                256 * v <= c + 1 + c / 256 && v < 0,
        ;
        assert((c + 1 + c / 256) / 256 <= 0) by (nonlinear_arith)
            requires
                c + 1 + c / 256 <= 1,
        ;
    }
}

/// The rounded scaled difference keeps the sign of the difference, never
/// exceeds it in magnitude, and sits within half a unit of the exact ratio.
proof fn lemma_lerp16_step_bounds(a: int, d: int, s: int)
    requires
        0 <= a <= 65535,
        -65535 <= d <= 65535,
        s == (if a * d >= 0 {
            (2 * (a * d) + 65535) / 131070
        } else {
            -((2 * (-(a * d)) + 65535) / 131070)
        }),
    ensures
        d >= 0 ==> 0 <= s <= d,
        d < 0 ==> d <= s <= 0,
        a * d - 32768 <= 65535 * s <= a * d + 32768,
{
    let p = a * d;
    if d >= 0 {
        assert(0 <= p <= 65535 * d) by (nonlinear_arith)
            requires
                0 <= a <= 65535 && d >= 0 && p == a * d,
        ;
        assert(0 <= s <= d && p - 32768 <= 65535 * s <= p + 32768) by (nonlinear_arith)
            requires
                0 <= p <= 65535 * d && s == (2 * p + 65535) / 131070,
        ;
    } else if a == 0 {
        assert(p == 0) by (nonlinear_arith)
            requires
                a == 0 && p == a * d,
        ;
        assert(s == 0);
    } else {
        assert(p < 0 && -p <= 65535 * (-d)) by (nonlinear_arith)
            requires
                1 <= a <= 65535 && d < 0 && p == a * d,
        ;
        let q = -p;
        let t = (2 * q + 65535) / 131070;
        assert(0 <= t <= -d && q - 32768 <= 65535 * t <= q + 32768) by (nonlinear_arith)
            requires
                0 < q <= 65535 * (-d) && t == (2 * q + 65535) / 131070,
        ;
        assert(s == -t);
    }
}

/// The 16-bit interpolation sits within half a unit of the continuous
/// formula `dest + alpha * (top - dest) / 65535`: scaled by 65535, the
/// result differs from the exact product by at most 32768.
pub proof fn law_lerp16_accuracy(top: int, dest: int, alpha: int)
    requires
        0 <= top <= 65535,
        0 <= dest <= 65535,
        0 <= alpha <= 65535,
    ensures
        alpha * (top - dest) - 32768 <= 65535 * (lerp16_spec(top, dest, alpha) - dest) <= alpha * (
        top - dest) + 32768,
        lerp16_spec(top, dest, alpha) == dest + (if alpha * (top - dest) >= 0 {
            (2 * (alpha * (top - dest)) + 65535) / 131070
        } else {
            -((2 * (-(alpha * (top - dest))) + 65535) / 131070)
        }),
{
    let d = top - dest;
    let s = lerp16_spec(top, dest, alpha) - dest;
    lemma_lerp16_step_bounds(alpha, d, s);
}

/// Scale a signed difference by an 8-bit opacity, for alpha blending.
///
/// The add-and-shift is a cheap alternative to dividing the widened product
/// by 255.
pub fn scale_i32(a: u8, v: i32) -> (r: i32)
    requires
        -65535 <= v <= 65535,
    ensures
        r == scale_i32_spec(a as int, v as int),
{
    proof {
        assert(-0x1000000 < v * a < 0x1000000) by (nonlinear_arith)
            requires
                -65535 <= v <= 65535 && 0 <= a <= 255,
        ;
    }
    let c: i32 = v * (a as i32);
    let s1: i32 = if c >= 0 {
        c / 256
    } else {
        -((255 - c) / 256)
    };
    proof {
        if c < 0 {
            assert(s1 == c as int / 256) by (nonlinear_arith)
                requires
                    c < 0 && -0x1000000 < c && s1 == -((255 - c) / 256),
            ;
        }
    }
    proof {
        assert(-0x1000000 < c / 256 < 0x1000000) by (nonlinear_arith)
            requires
                -0x1000000 < c < 0x1000000,
        ;
    }
    let t: i32 = c + 1 + s1;
    let r: i32 = if t >= 0 {
        t / 256
    } else {
        -((255 - t) / 256)
    };
    proof {
        if t < 0 {
            assert(r == t as int / 256) by (nonlinear_arith)
                requires
                    t < 0 && -0x2000001 < t && r == -((255 - t) / 256),
            ;
        }
    }
    r
}

/// Multiplication under the 0..1 semantic is commutative.
///
/// Swapping the two operands of [`Channel::mul`] never changes the result,
/// in either precision.
pub proof fn law_mul_commutative(a: int, b: int)
    ensures
        mul8(a, b) == mul8(b, a),
        mul16(a, b) == mul16(b, a),
{
}

/// Multiplying an 8-bit channel by the maximum intensity returns the channel
/// unchanged, for zero and for every value of at least 16.
///
/// Smaller nonzero values lose one unit to fixed-point truncation.
pub proof fn law_mul8_max_identity(a: int)
    requires
        0 <= a <= 255,
        a == 0 || a >= 16,
    ensures
        mul8(a, 255) == a,
{
    let x = a as u32;
    assert(((16 * x + x / 16) * 4095) / 0x10000 == x) by (bit_vector)
        requires
            x == 0 || (16 <= x && x < 256),
    ;
}

/// Multiplying a 16-bit channel by the maximum intensity returns the channel
/// unchanged, for zero and for every value of at least 256.
///
/// Smaller nonzero values lose one unit to fixed-point truncation.
#[verifier::rlimit(100)]
pub proof fn law_mul16_max_identity(a: int)
    requires
        0 <= a <= 65535,
        a == 0 || a >= 256,
    ensures
        mul16(a, 65535) == a,
{
    let x = a as u64;
    assert(((256 * x + x / 256) * 0xFFFFFF) / 0x1_0000_0000 == x) by (bit_vector)
        requires
            x == 0 || (256 <= x && x < 0x10000),
    ;
}

/// Multiplying an 8-bit channel by the maximum intensity and dividing by it
/// again returns the channel within one unit.
pub proof fn law_mul8_div_roundtrip(a: int)
    requires
        0 <= a <= 255,
    ensures
        a - 1 <= div8(mul8(a, 255), 255) <= a,
{
    let x = a as u32;
    assert(x - 1 <= (if (((16 * x + x / 16) * 4095) / 0x10000) * 256 / 255 < 255 {
        (((16 * x + x / 16) * 4095) / 0x10000) * 256 / 255
    } else {
        255
    }) <= x) by (bit_vector)
        requires
            x < 256,
    ;
}

/// Multiplying a 16-bit channel by the maximum intensity and dividing by it
/// again returns the channel within one unit.
pub proof fn law_mul16_div_roundtrip(a: int)
    requires
        0 <= a <= 65535,
    ensures
        a - 1 <= div16(mul16(a, 65535), 65535) <= a,
{
    let m = mul16(a, 65535);
    if a == 0 || a >= 256 {
        law_mul16_max_identity(a);
    } else {
        let x = a as u64;
        assert(((256 * x + x / 256) * 0xFFFFFF) / 0x1_0000_0000 == x - 1) by (bit_vector)
            requires
                1 <= x && x < 256,
        ;
    }
    assert(0 <= m <= a);
    if m < 65535 {
        assert(m * 0x10000 / 65535 == m) by (nonlinear_arith)
            requires
                0 <= m < 65535,
        ;
    } else {
        assert(m * 0x10000 / 65535 >= 65535) by (nonlinear_arith)
            requires
                m == 65535,
        ;
    }
}


/// Dividing any channel value by the minimum intensity yields the minimum:
/// a zero divisor is never an error.
pub proof fn law_div_by_zero(a: int)
    ensures
        div8(a, 0) == 0,
        div16(a, 0) == 0,
{
}


/// The fixed-point product of two 8-bit channels lies within one unit of
/// the exact ratio product `a * b / 255`.
#[verifier::rlimit(100)]
pub proof fn law_mul8_accuracy(a: int, b: int)
    requires
        0 <= a <= 255,
        0 <= b <= 255,
    ensures
        a * b - 255 <= 255 * mul8(a, b) <= a * b + 255,
{
    let x = a as u32;
    let y = b as u32;
    assert(x * y <= 255 * (((16 * x + x / 16) * (16 * y + y / 16)) / 0x10000) + 255 && 255 * (((16
        * x + x / 16) * (16 * y + y / 16)) / 0x10000) <= x * y + 255) by (bit_vector)
        requires
            x < 256 && y < 256,
    ;
}

} // verus!


