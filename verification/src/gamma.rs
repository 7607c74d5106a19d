//! Gamma transfer functions.
//!
//! Two interchangeable curves relate stored channel values to linear light
//! intensity: the identity (linear gamma), and the standard sRGB piecewise
//! curve.  The sRGB curve is computed here with integer arithmetic only: its
//! fractional powers `5/12` (encoding) and `12/5` (decoding) are taken by
//! exact floor square, cube and fifth roots in a widened fixed-point scale.
//! Encoding and decoding are exact at both boundaries (zero maps to zero and
//! the maximum intensity to itself) and invert each other within a few units
//! of rounding error.

use vstd::arithmetic::div_mod::lemma_div_is_ordered;
use vstd::prelude::*;

verus! {

/// The square of an integer.
pub open spec fn sq(x: int) -> int {
    x * x
}

/// The cube of an integer.
pub open spec fn cb(x: int) -> int {
    x * x * x
}

/// The fifth power of an integer.
pub open spec fn p5(x: int) -> int {
    x * x * x * x * x
}

/// The greatest integer whose square does not exceed `n`.
pub open spec fn sqrt_floor(n: nat) -> nat
    decreases n,
{
    if n == 0 {
        0
    } else {
        let p = sqrt_floor((n - 1) as nat);
        if sq(p as int + 1) <= n {
            (p + 1) as nat
        } else {
            p
        }
    }
}

/// The greatest integer whose cube does not exceed `n`.
pub open spec fn cbrt_floor(n: nat) -> nat
    decreases n,
{
    if n == 0 {
        0
    } else {
        let p = cbrt_floor((n - 1) as nat);
        if cb(p as int + 1) <= n {
            (p + 1) as nat
        } else {
            p
        }
    }
}

/// The greatest integer whose fifth power does not exceed `n`.
pub open spec fn root5_floor(n: nat) -> nat
    decreases n,
{
    if n == 0 {
        0
    } else {
        let p = root5_floor((n - 1) as nat);
        if p5(p as int + 1) <= n {
            (p + 1) as nat
        } else {
            p
        }
    }
}

/// The floor square root is characterized by its two bounding squares.
pub proof fn lemma_sqrt_floor(n: nat)
    ensures
        sq(sqrt_floor(n) as int) <= n < sq(sqrt_floor(n) as int + 1),
    decreases n,
{
    if n == 0 {
        assert(sqrt_floor(0) == 0);
        assert(sq(0) <= 0 < sq(1));
    } else {
        lemma_sqrt_floor((n - 1) as nat);
        let p = sqrt_floor((n - 1) as nat);
        if sq(p as int + 1) <= n {
            assert(sqrt_floor(n) == p + 1);
            assert(n < sq(p as int + 1) + 1);
            assert(n == sq(p as int + 1));
            assert(sq(p as int + 1) < sq(p as int + 2)) by (nonlinear_arith)
                requires
                    p >= 0,
            ;
            assert(sq(sqrt_floor(n) as int) <= n < sq(sqrt_floor(n) as int + 1));
        } else {
            assert(sqrt_floor(n) == p);
            assert(sq(sqrt_floor(n) as int) <= n < sq(sqrt_floor(n) as int + 1));
        }
    }
}

/// The floor cube root is characterized by its two bounding cubes.
pub proof fn lemma_cbrt_floor(n: nat)
    ensures
        cb(cbrt_floor(n) as int) <= n < cb(cbrt_floor(n) as int + 1),
    decreases n,
{
    if n == 0 {
        assert(cbrt_floor(0) == 0);
        assert(cb(0) <= 0 < cb(1));
    } else {
        lemma_cbrt_floor((n - 1) as nat);
        let p = cbrt_floor((n - 1) as nat);
        if cb(p as int + 1) <= n {
            assert(cbrt_floor(n) == p + 1);
            assert(n == cb(p as int + 1));
            assert(cb(p as int + 1) < cb(p as int + 2)) by (nonlinear_arith)
                requires
                    p >= 0,
            ;
            assert(cb(cbrt_floor(n) as int) <= n < cb(cbrt_floor(n) as int + 1));
        } else {
            assert(cbrt_floor(n) == p);
            assert(cb(cbrt_floor(n) as int) <= n < cb(cbrt_floor(n) as int + 1));
        }
    }
}

/// The floor fifth root is characterized by its two bounding powers.
pub proof fn lemma_root5_floor(n: nat)
    ensures
        p5(root5_floor(n) as int) <= n < p5(root5_floor(n) as int + 1),
    decreases n,
{
    if n == 0 {
        assert(root5_floor(0) == 0);
        assert(p5(0) <= 0 < p5(1));
    } else {
        lemma_root5_floor((n - 1) as nat);
        let p = root5_floor((n - 1) as nat);
        if p5(p as int + 1) <= n {
            assert(root5_floor(n) == p + 1);
            assert(n == p5(p as int + 1));
            assert(p5(p as int + 1) < p5(p as int + 2)) by (nonlinear_arith)
                requires
                    p >= 0,
            ;
            assert(p5(root5_floor(n) as int) <= n < p5(root5_floor(n) as int + 1));
        } else {
            assert(root5_floor(n) == p);
            assert(p5(root5_floor(n) as int) <= n < p5(root5_floor(n) as int + 1));
        }
    }
}

/// Any integer bracketed the same way as the floor square root equals it.
pub proof fn lemma_sqrt_floor_unique(n: nat, r: nat)
    requires
        sq(r as int) <= n < sq(r as int + 1),
    ensures
        r == sqrt_floor(n),
{
    lemma_sqrt_floor(n);
    let f = sqrt_floor(n);
    if r < f {
        assert(sq(r as int + 1) <= sq(f as int)) by (nonlinear_arith)
            requires
                0 <= r + 1 <= f,
        ;
    }
    if f < r {
        assert(sq(f as int + 1) <= sq(r as int)) by (nonlinear_arith)
            requires
                0 <= f + 1 <= r,
        ;
    }
}

/// Any integer bracketed the same way as the floor cube root equals it.
pub proof fn lemma_cbrt_floor_unique(n: nat, r: nat)
    requires
        cb(r as int) <= n < cb(r as int + 1),
    ensures
        r == cbrt_floor(n),
{
    lemma_cbrt_floor(n);
    let f = cbrt_floor(n);
    if r < f {
        assert(cb(r as int + 1) <= cb(f as int)) by (nonlinear_arith)
            requires
                0 <= r + 1 <= f,
        ;
    }
    if f < r {
        assert(cb(f as int + 1) <= cb(r as int)) by (nonlinear_arith)
            requires
                0 <= f + 1 <= r,
        ;
    }
}

/// Any integer bracketed the same way as the floor fifth root equals it.
pub proof fn lemma_root5_floor_unique(n: nat, r: nat)
    requires
        p5(r as int) <= n < p5(r as int + 1),
    ensures
        r == root5_floor(n),
{
    lemma_root5_floor(n);
    let f = root5_floor(n);
    if r < f {
        assert(p5(r as int + 1) <= p5(f as int)) by (nonlinear_arith)
            requires
                0 <= r + 1 <= f,
        ;
    }
    if f < r {
        assert(p5(f as int + 1) <= p5(r as int)) by (nonlinear_arith)
            requires
                0 <= f + 1 <= r,
        ;
    }
}


/// A product of three factors grows with each factor.
proof fn lemma_cube_mono(x: int, b: int)
    by (nonlinear_arith)
    requires
        0 <= x < b,
    ensures
        x * x * x < b * b * b,
{
}

/// A product of five factors grows with each factor.
proof fn lemma_p5_mono(x: int, b: int)
    by (nonlinear_arith)
    requires
        0 <= x < b,
    ensures
        x * x * x * x * x < b * b * b * b * b,
{
}

/// Floor square root by binary search.
fn isqrt(n: u128) -> (r: u128)
    ensures
        r == sqrt_floor(n as nat),
        sq(r as int) <= n < sq(r as int + 1),
{
    let mut lo: u128 = 0;
    let mut hi: u128 = 1u128 << 64u128;
    proof {
        assert((1u128 << 64u128) == 0x1_0000_0000_0000_0000) by (bit_vector);
        assert(sq(0x1_0000_0000_0000_0000) > n as int) by (nonlinear_arith)
            requires
                n < 0x1_0000_0000_0000_0000_0000_0000_0000_0000,
        ;
    }
    while lo + 1 < hi
        invariant
            0 <= lo < hi <= 0x1_0000_0000_0000_0000,
            sq(lo as int) <= n as int,
            sq(hi as int) > n as int,
        decreases hi - lo,
    {
        let mid: u128 = lo + (hi - lo) / 2;
        proof {
            assert(mid * mid < 0x1_0000_0000_0000_0000_0000_0000_0000_0000) by (nonlinear_arith)
                requires
                    mid < 0x1_0000_0000_0000_0000,
            ;
        }
        if mid * mid <= n {
            lo = mid;
        } else {
            hi = mid;
        }
    }
    proof {
        lemma_sqrt_floor_unique(n as nat, lo as nat);
    }
    lo
}

/// Floor cube root by binary search.
fn icbrt(n: u128) -> (r: u128)
    requires
        n < 0x4000_0000_0000_0000_0000_0000_0000_0000,
    ensures
        r == cbrt_floor(n as nat),
        cb(r as int) <= n < cb(r as int + 1),
{
    let mut lo: u128 = 0;
    let mut hi: u128 = 1u128 << 42u128;
    proof {
        assert((1u128 << 42u128) == 0x400_0000_0000) by (bit_vector);
        assert(cb(0x400_0000_0000) == 0x4000_0000_0000_0000_0000_0000_0000_0000);
    }
    while lo + 1 < hi
        invariant
            0 <= lo < hi <= 0x400_0000_0000,
            cb(lo as int) <= n as int,
            cb(hi as int) > n as int,
        decreases hi - lo,
    {
        let mid: u128 = lo + (hi - lo) / 2;
        proof {
            lemma_cube_mono(mid as int, 0x400_0000_0000);
            assert(cb(0x400_0000_0000) == 0x4000_0000_0000_0000_0000_0000_0000_0000);
            assert(mid * mid < 0x10_0000_0000_0000_0000_0000) by (nonlinear_arith)
                requires
                    mid < 0x400_0000_0000,
            ;
        }
        if mid * mid * mid <= n {
            lo = mid;
        } else {
            hi = mid;
        }
    }
    proof {
        lemma_cbrt_floor_unique(n as nat, lo as nat);
    }
    lo
}

/// Floor fifth root by binary search.
fn iroot5(n: u128) -> (r: u128)
    requires
        n < 0x2000_0000_0000_0000_0000_0000_0000_0000,
    ensures
        r == root5_floor(n as nat),
        p5(r as int) <= n < p5(r as int + 1),
{
    let mut lo: u128 = 0;
    let mut hi: u128 = 1u128 << 25u128;
    proof {
        assert((1u128 << 25u128) == 0x200_0000) by (bit_vector);
        assert(p5(0x200_0000) == 0x2000_0000_0000_0000_0000_0000_0000_0000);
    }
    while lo + 1 < hi
        invariant
            0 <= lo < hi <= 0x200_0000,
            p5(lo as int) <= n as int,
            p5(hi as int) > n as int,
        decreases hi - lo,
    {
        let mid: u128 = lo + (hi - lo) / 2;
        proof {
            lemma_p5_mono(mid as int, 0x200_0000);
            assert(p5(0x200_0000) == 0x2000_0000_0000_0000_0000_0000_0000_0000);
            assert(mid * mid < 0x4_0000_0000_0000 && mid * mid * mid < 0x800_0000_0000_0000_0000
                && mid * mid * mid * mid < 0x10_0000_0000_0000_0000_0000_0000)
                by (nonlinear_arith)
                requires
                    mid < 0x200_0000,
            ;
        }
        if mid * mid * mid * mid * mid <= n {
            lo = mid;
        } else {
            hi = mid;
        }
    }
    proof {
        lemma_root5_floor_unique(n as nat, lo as nat);
    }
    lo
}


/// The sRGB transfer curve from linear intensity to encoded value, over the
/// integer range `0..=m`.
///
/// Below the standard threshold of 0.0031308 the curve is the line `12.92*x`;
/// above it, `1.055 * x^(5/12) - 0.055`, the fractional power taken by floor
/// roots in a fixed-point scale 4096 times finer than the channel.  Both
/// boundaries map to themselves.
pub open spec fn srgb_encode_spec(x: int, m: int) -> int {
    if x <= 0 {
        0
    } else if x >= m {
        m
    } else if 10000000 * x <= 31308 * m {
        (646 * x + 25) / 50
    } else {
        let w = m * 4096;
        let t = cbrt_floor((x * x * x * x * x * 0x10_0000_0000 / (m * m)) as nat) as int;
        let u = sqrt_floor((t * w) as nat) as int;
        let pw = sqrt_floor((u * w) as nat) as int;
        let p = (pw + 2048) / 4096;
        let y = (422 * p + 200 - 22 * m) / 400;
        if y <= 0 {
            0
        } else if y >= m {
            m
        } else {
            y
        }
    }
}

/// The sRGB transfer curve from encoded value back to linear intensity, over
/// the integer range `0..=m`.
///
/// Below the standard threshold of 0.04045 the curve is the line `x/12.92`;
/// above it, `((x + 0.055) / 1.055)^(12/5)`, the fractional power taken by a
/// floor fifth root in a fixed-point scale 64 times finer than the channel,
/// the result rounded to the nearest channel unit.  Both boundaries map to
/// themselves.
pub open spec fn srgb_decode_spec(x: int, m: int) -> int {
    if x <= 0 {
        0
    } else if x >= m {
        m
    } else if 100000 * x <= 4045 * m {
        (50 * x + 323) / 646
    } else {
        let w = m * 64;
        let q = w * (200 * x + 11 * m) / (211 * m);
        let t = root5_floor((q * q * (w * w * w)) as nat) as int;
        let d = (q * q * t * m + (w * w * w) / 2) / (w * w * w);
        if d >= m {
            m
        } else {
            d
        }
    }
}

/// Encode a linear intensity in `0..=m` with the sRGB transfer curve.
pub fn srgb_encode(x: u16, m: u16) -> (r: u16)
    requires
        1 <= m,
        x <= m,
    ensures
        r as int == srgb_encode_spec(x as int, m as int),
        r <= m,
{
    if x == 0 {
        0
    } else if x >= m {
        m
    } else {
        let xl: u128 = x as u128;
        let ml: u128 = m as u128;
        if 10000000 * xl <= 31308 * ml {
            let y: u128 = (646 * xl + 25) / 50;
            proof {
                assert(y <= ml) by (nonlinear_arith)
                    requires
                        y == (646 * xl + 25) / 50 && 10000000 * xl <= 31308 * ml && 1 <= ml,
                ;
            }
            y as u16
        } else {
            proof {
                assert(xl * xl < 0x1_0000_0000 && xl * xl * xl < 0x1_0000_0000_0000
                    && xl * xl * xl * xl < 0x1_0000_0000_0000_0000
                    && xl * xl * xl * xl * xl < 0x1_0000_0000_0000_0000_0000
                    && xl * xl * xl * xl * xl * 0x10_0000_0000
                    < 0x10_0000_0000_0000_0000_0000_0000_0000) by (nonlinear_arith)
                    requires
                        xl < 0x10000,
                ;
            }
            let w: u128 = ml * 4096;
            let x5: u128 = xl * xl * xl * xl * xl;
            proof {
                assert(0 < ml * ml < 0x1_0000_0000) by (nonlinear_arith)
                    requires
                        1 <= ml < 0x10000,
                ;
            }
            let rad: u128 = x5 * 0x10_0000_0000 / (ml * ml);
            proof {
                lemma_rad_below_cube(xl as int, ml as int);
            }
            let t: u128 = icbrt(rad);
            proof {
                assert(t < w) by {
                    if t >= w {
                        assert(w * w * w <= t * t * t) by (nonlinear_arith)
                            requires
                                0 <= w <= t,
                        ;
                        assert(cb(t as int) <= rad as int);
                        assert(false);
                    }
                }
                assert(t * w < 0x100_0000_0000_0000_0000) by (nonlinear_arith)
                    requires
                        t < w && w <= 0x1000_0000,
                ;
            }
            let u: u128 = isqrt(t * w);
            proof {
                assert(u < w) by {
                    if u >= w {
                        assert(w * w <= u * u) by (nonlinear_arith)
                            requires
                                0 <= w <= u,
                        ;
                        assert(t * w < w * w) by (nonlinear_arith)
                            requires
                                t < w && 1 <= w,
                        ;
                        assert(sq(u as int) <= t * w);
                        assert(false);
                    }
                }
                assert(u * w < 0x100_0000_0000_0000_0000) by (nonlinear_arith)
                    requires
                        u < w && w <= 0x1000_0000,
                ;
            }
            let pw: u128 = isqrt(u * w);
            proof {
                assert(pw < w) by {
                    if pw >= w {
                        assert(w * w <= pw * pw) by (nonlinear_arith)
                            requires
                                0 <= w <= pw,
                        ;
                        assert(u * w < w * w) by (nonlinear_arith)
                            requires
                                u < w && 1 <= w,
                        ;
                        assert(sq(pw as int) <= u * w);
                        assert(false);
                    }
                }
                assert((pw + 2048) / 4096 <= ml) by (nonlinear_arith)
                    requires
                        pw < w && w == ml * 4096,
                ;
            }
            let p: u128 = (pw + 2048) / 4096;
            let num: u128 = 422 * p + 200;
            let sub: u128 = 22 * ml;
            let y: u128 = if num > sub {
                (num - sub) / 400
            } else {
                0
            };
            proof {
                if num <= sub {
                    assert((422 * p + 200 - 22 * ml) / 400 <= 0) by (nonlinear_arith)
                        requires
                            422 * p + 200 <= 22 * ml,
                    ;
                }
            }
            if y >= ml {
                m
            } else {
                y as u16
            }
        }
    }
}

/// The scaled fifth power of the input stays below the cube of the working
/// scale, so the cube root fits the channel range.
proof fn lemma_rad_below_cube(x: int, m: int)
    requires
        1 <= x < m,
        m <= 0x10000,
    ensures
        x * x * x * x * x * 0x10_0000_0000 / (m * m) < (m * 4096) * (m * 4096) * (m * 4096),
{
    assert(x * x * x * x * x < m * m * m * m * m) by (nonlinear_arith)
        requires
            0 <= x < m,
    ;
    assert(x * x * x * x * x * 0x10_0000_0000 <= (m * m * m * m * m - 1) * 0x10_0000_0000)
        by (nonlinear_arith)
        requires
            x * x * x * x * x < m * m * m * m * m,
    ;
    assert(x * x * x * x * x * 0x10_0000_0000 / (m * m) < m * m * m * 0x10_0000_0000)
        by (nonlinear_arith)
        requires
            x * x * x * x * x * 0x10_0000_0000 <= (m * m * m * m * m - 1) * 0x10_0000_0000 && 1
                <= m,
    ;
    assert(m * m * m * 0x10_0000_0000 == (m * 4096) * (m * 4096) * (m * 4096)) by (nonlinear_arith);
}

/// Decode an sRGB-encoded value in `0..=m` to linear intensity.
pub fn srgb_decode(x: u16, m: u16) -> (r: u16)
    requires
        1 <= m,
        x <= m,
    ensures
        r as int == srgb_decode_spec(x as int, m as int),
        r <= m,
{
    if x == 0 {
        0
    } else if x >= m {
        m
    } else {
        let xl: u128 = x as u128;
        let ml: u128 = m as u128;
        if 100000 * xl <= 4045 * ml {
            let y: u128 = (50 * xl + 323) / 646;
            proof {
                assert(y <= ml) by (nonlinear_arith)
                    requires
                        y == (50 * xl + 323) / 646 && xl < ml,
                ;
            }
            y as u16
        } else {
            let w: u128 = ml * 64;
            let nl: u128 = 200 * xl + 11 * ml;
            proof {
                assert(w * nl < 0x100_0000_0000_0000 && w * w < 0x10_0000_0000_0000 && w * w * w
                    < 0x100_0000_0000_0000_0000) by (nonlinear_arith)
                    requires
                        w == ml * 64 && ml < 0x10000 && nl < 0x100_0000,
                ;
            }
            let q: u128 = w * nl / (211 * ml);
            proof {
                assert(q < w) by (nonlinear_arith)
                    requires
                        q == w * nl / (211 * ml) && nl < 211 * ml && 1 <= ml && w == ml * 64,
                ;
                assert(w <= 0x40_0000 && q * q * (w * w * w) < 0x2000_0000_0000_0000_0000_0000_0000_0000)
                    by (nonlinear_arith)
                    requires
                        q < w && w == ml * 64 && ml <= 0x10000,
                ;
            }
            let w3: u128 = w * w * w;
            proof {
                assert(q * q < 0x10_0000_0000_0000 && q * q * w3
                    < 0x2000_0000_0000_0000_0000_0000_0000_0000) by (nonlinear_arith)
                    requires
                        q < w && w <= 0x40_0000 && w3 == w * w * w,
                ;
            }
            let t: u128 = iroot5(q * q * w3);
            proof {
                assert(t <= w) by {
                    if t > w {
                        assert((w + 1) * (w + 1) * (w + 1) * (w + 1) * (w + 1) <= t * t * t * t
                            * t) by (nonlinear_arith)
                            requires
                                0 <= w + 1 <= t,
                        ;
                        assert(q * q * (w * w * w) < (w + 1) * (w + 1) * (w + 1) * (w + 1) * (w
                            + 1)) by (nonlinear_arith)
                            requires
                                q < w,
                        ;
                        assert(p5(t as int) <= q * q * (w * w * w));
                        assert(false);
                    }
                }
                assert(q * q * t < 0x4000_0000_0000_0000_0000 && q * q * t * ml
                    < 0x1_0000_0000_0000_0000_0000_0000 && 0 < w * w * w) by (nonlinear_arith)
                    requires
                        q < w && t <= w && 1 <= w <= 0x40_0000 && 1 <= ml <= 0x10000,
                ;
            }
            let d: u128 = (q * q * t * ml + w3 / 2) / w3;
            if d >= ml {
                m
            } else {
                d as u16
            }
        }
    }
}

/// Both gamma curves fix the two boundary intensities: zero encodes and
/// decodes to zero, the maximum intensity to itself, and both boundaries
/// are exact fixed points of the encode-decode round trip.
pub proof fn law_gamma_boundaries(m: int)
    requires
        m >= 1,
    ensures
        srgb_encode_spec(0, m) == 0,
        srgb_encode_spec(m, m) == m,
        srgb_decode_spec(0, m) == 0,
        srgb_decode_spec(m, m) == m,
        srgb_decode_spec(srgb_encode_spec(0, m), m) == 0,
        srgb_decode_spec(srgb_encode_spec(m, m), m) == m,
{
}


/// The floor square root never decreases when its argument grows.
pub proof fn lemma_sqrt_floor_mono(n1: nat, n2: nat)
    requires
        n1 <= n2,
    ensures
        sqrt_floor(n1) <= sqrt_floor(n2),
{
    lemma_sqrt_floor(n1);
    lemma_sqrt_floor(n2);
    let r1 = sqrt_floor(n1);
    let r2 = sqrt_floor(n2);
    if r1 > r2 {
        assert(sq(r2 as int + 1) <= sq(r1 as int)) by (nonlinear_arith)
            requires
                0 <= r2 + 1 <= r1,
        ;
    }
}

/// The floor cube root never decreases when its argument grows.
pub proof fn lemma_cbrt_floor_mono(n1: nat, n2: nat)
    requires
        n1 <= n2,
    ensures
        cbrt_floor(n1) <= cbrt_floor(n2),
{
    lemma_cbrt_floor(n1);
    lemma_cbrt_floor(n2);
    let r1 = cbrt_floor(n1);
    let r2 = cbrt_floor(n2);
    if r1 > r2 {
        assert(cb(r2 as int + 1) <= cb(r1 as int)) by (nonlinear_arith)
            requires
                0 <= r2 + 1 <= r1,
        ;
    }
}

/// The floor fifth root never decreases when its argument grows.
pub proof fn lemma_root5_floor_mono(n1: nat, n2: nat)
    requires
        n1 <= n2,
    ensures
        root5_floor(n1) <= root5_floor(n2),
{
    lemma_root5_floor(n1);
    lemma_root5_floor(n2);
    let r1 = root5_floor(n1);
    let r2 = root5_floor(n2);
    if r1 > r2 {
        assert(p5(r2 as int + 1) <= p5(r1 as int)) by (nonlinear_arith)
            requires
                0 <= r2 + 1 <= r1,
        ;
    }
}

/// On its nonlinear segment the sRGB encoding is nondecreasing: every step
/// of the fixed-point power chain preserves order.
pub proof fn law_encode_monotonic_nonlinear_segment(m: int, a: int, b: int)
    requires
        1 <= m <= 65535,
        1 <= a <= b < m,
        10000000 * a > 31308 * m,
    ensures
        srgb_encode_spec(a, m) <= srgb_encode_spec(b, m),
{
    let w = m * 4096;
    let rad_a = a * a * a * a * a * 0x10_0000_0000 / (m * m);
    let rad_b = b * b * b * b * b * 0x10_0000_0000 / (m * m);
    assert(0 < m * m && 0 <= a * a * a * a * a <= b * b * b * b * b) by (nonlinear_arith)
        requires
            1 <= m && 1 <= a <= b,
    ;
    lemma_div_is_ordered(
        a * a * a * a * a * 0x10_0000_0000,
        b * b * b * b * b * 0x10_0000_0000,
        m * m,
    );
    assert(0 <= rad_a <= rad_b) by {
        assert(0 * (m * m) <= a * a * a * a * a * 0x10_0000_0000) by (nonlinear_arith)
            requires
                0 <= a * a * a * a * a,
        ;
        lemma_div_is_ordered(0, a * a * a * a * a * 0x10_0000_0000, m * m);
    }
    let ta = cbrt_floor(rad_a as nat) as int;
    let tb = cbrt_floor(rad_b as nat) as int;
    lemma_cbrt_floor_mono(rad_a as nat, rad_b as nat);
    assert(ta * w <= tb * w) by (nonlinear_arith)
        requires
            0 <= ta <= tb && 0 < w,
    ;
    let ua = sqrt_floor((ta * w) as nat) as int;
    let ub = sqrt_floor((tb * w) as nat) as int;
    lemma_sqrt_floor_mono((ta * w) as nat, (tb * w) as nat);
    assert(ua * w <= ub * w) by (nonlinear_arith)
        requires
            0 <= ua <= ub && 0 < w,
    ;
    let pwa = sqrt_floor((ua * w) as nat) as int;
    let pwb = sqrt_floor((ub * w) as nat) as int;
    lemma_sqrt_floor_mono((ua * w) as nat, (ub * w) as nat);
    lemma_div_is_ordered(pwa + 2048, pwb + 2048, 4096);
    let pa = (pwa + 2048) / 4096;
    let pb = (pwb + 2048) / 4096;
    lemma_div_is_ordered(422 * pa + 200 - 22 * m, 422 * pb + 200 - 22 * m, 400);
}

/// On its nonlinear segment the sRGB decoding is nondecreasing: every step
/// of the fixed-point power chain preserves order.
pub proof fn law_decode_monotonic_nonlinear_segment(m: int, a: int, b: int)
    requires
        1 <= m <= 65535,
        1 <= a <= b < m,
        100000 * a > 4045 * m,
    ensures
        srgb_decode_spec(a, m) <= srgb_decode_spec(b, m),
{
    let w = m * 64;
    let qa = w * (200 * a + 11 * m) / (211 * m);
    let qb = w * (200 * b + 11 * m) / (211 * m);
    assert(0 < 211 * m && 0 <= w * (200 * a + 11 * m) <= w * (200 * b + 11 * m))
        by (nonlinear_arith)
        requires
            1 <= m && 1 <= a <= b && w == m * 64,
    ;
    lemma_div_is_ordered(0, w * (200 * a + 11 * m), 211 * m);
    lemma_div_is_ordered(w * (200 * a + 11 * m), w * (200 * b + 11 * m), 211 * m);
    assert(0 <= qa * qa * (w * w * w) <= qb * qb * (w * w * w)) by (nonlinear_arith)
        requires
            0 <= qa <= qb && 1 <= m && w == m * 64,
    ;
    let ta = root5_floor((qa * qa * (w * w * w)) as nat) as int;
    let tb = root5_floor((qb * qb * (w * w * w)) as nat) as int;
    lemma_root5_floor_mono((qa * qa * (w * w * w)) as nat, (qb * qb * (w * w * w)) as nat);
    assert(0 <= qa * qa * ta * m + (w * w * w) / 2 <= qb * qb * tb * m + (w * w * w) / 2
        && 0 < w * w * w) by (nonlinear_arith)
        requires
            0 <= qa <= qb && 0 <= ta <= tb && 1 <= m && w == m * 64,
    ;
    lemma_div_is_ordered(
        qa * qa * ta * m + (w * w * w) / 2,
        qb * qb * tb * m + (w * w * w) / 2,
        w * w * w,
    );
}

/// The 8-bit sRGB encoding is nondecreasing over its whole domain.
///
/// At this precision the linear segment holds only the zero intensity, so
/// the nonlinear-segment law covers every other pair of inputs.
pub proof fn law_encode8_monotonic(a: int, b: int)
    requires
        0 <= a <= b <= 255,
    ensures
        srgb_encode_spec(a, 255) <= srgb_encode_spec(b, 255),
{
    if a == 0 || a == b {
        assert(srgb_encode_spec(0, 255) == 0);
        lemma_encode_spec_nonneg(b, 255);
    } else if b == 255 {
        lemma_encode_spec_bounds(a, 255);
    } else {
        law_encode_monotonic_nonlinear_segment(255, a, b);
    }
}

/// Every encoded value is nonnegative.
proof fn lemma_encode_spec_nonneg(x: int, m: int)
    requires
        1 <= m,
    ensures
        srgb_encode_spec(x, m) >= 0,
{
    if 0 < x && x < m && 10000000 * x <= 31308 * m {
        lemma_div_is_ordered(0, 646 * x + 25, 50);
    }
}

/// Every encoded value stays within the channel range.
proof fn lemma_encode_spec_bounds(x: int, m: int)
    requires
        1 <= m,
        0 <= x <= m,
    ensures
        0 <= srgb_encode_spec(x, m) <= m,
{
    lemma_encode_spec_nonneg(x, m);
    if 0 < x && x < m && 10000000 * x <= 31308 * m {
        assert((646 * x + 25) / 50 <= m) by (nonlinear_arith)
            requires
                10000000 * x <= 31308 * m && 1 <= m,
        ;
    }
}

} // verus!


