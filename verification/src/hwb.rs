//! The hue-whiteness-blackness color model.
//!
//! Hue is an angle stored as a fraction of a full turn over the channel
//! range; whiteness and blackness are amounts of white and black mixed into
//! the pure hue.  Conversion to red-green-blue projects the hue onto one of
//! six sextants of the color wheel; conversion back derives the hue from
//! which channel is largest.  All arithmetic is integer-only and parametric
//! in the channel maximum `m` (255 or 65535).

use crate::channel::{div16, div8, mul16, mul8, Ch16, Ch8, Channel};
use crate::pixel::{chan_at, max_of, ColorModel, Pixel, Precision};
use vstd::prelude::*;

verus! {

/// Rounded division `n / d` (half away from zero), for nonnegative `n`.
pub open spec fn rnd_div(n: int, d: int) -> int {
    (2 * n + d) / (2 * d)
}

/// Channel multiplication at a given channel maximum.
pub open spec fn mul_m(m: int, a: int, b: int) -> int {
    if m == 255 {
        mul8(a, b)
    } else {
        mul16(a, b)
    }
}

/// Channel division at a given channel maximum.
pub open spec fn div_m(m: int, a: int, b: int) -> int {
    if m == 255 {
        div8(a, b)
    } else {
        div16(a, b)
    }
}

/// Whiteness and blackness rescaled proportionally so their sum does not
/// exceed the channel maximum.
///
/// This is a normalization, not a clamp: when the two overlap past full
/// saturation, both shrink by the same ratio.
pub open spec fn wb_norm_spec(m: int, w: int, b: int) -> (int, int) {
    if w + b > m {
        (rnd_div(w * m, w + b), rnd_div(b * m, w + b))
    } else {
        (w, b)
    }
}

/// Hue-whiteness-blackness to red-green-blue, at channel maximum `m`.
///
/// After normalizing whiteness and blackness, `value = m - blackness` and
/// `chroma = value - whiteness`; the hue picks one of six sextants, each
/// giving the three channels from the chroma and the position within the
/// sextant; adding `value - chroma` to every channel restores the brightness
/// offset.
pub open spec fn hwb_to_rgb_spec(m: int, h: int, w: int, b: int) -> (int, int, int) {
    let wb = wb_norm_spec(m, w, b);
    let v = m - wb.1;
    let c = if v > wb.0 {
        v - wb.0
    } else {
        0
    };
    let sector = if h == m {
        0
    } else {
        6 * h / m
    };
    let t = if h == m {
        0
    } else {
        6 * h % m
    };
    let ct = rnd_div(c * t, m);
    let cit = rnd_div(c * (m - t), m);
    let base = if sector == 0 {
        (c, ct, 0)
    } else if sector == 1 {
        (cit, c, 0)
    } else if sector == 2 {
        (0, c, ct)
    } else if sector == 3 {
        (0, cit, c)
    } else if sector == 4 {
        (ct, 0, c)
    } else {
        (c, 0, cit)
    };
    let off = v - c;
    (base.0 + off, base.1 + off, base.2 + off)
}

/// Red-green-blue to hue-whiteness-blackness, at channel maximum `m`.
///
/// `chroma = max - min` and `value = max`; the hue comes from which channel
/// is largest and the relative position of the remaining two, rounded to the
/// channel scale; then `whiteness = (m - chroma/value) * value` and
/// `blackness = m - value`, both in channel arithmetic.  A black pixel
/// (value zero) gets hue zero, whiteness zero and blackness `m`.
pub open spec fn rgb_to_hwb_spec(m: int, r: int, g: int, b: int) -> (int, int, int) {
    let v = if r >= g && r >= b {
        r
    } else if g >= b {
        g
    } else {
        b
    };
    let mn = if r <= g && r <= b {
        r
    } else if g <= b {
        g
    } else {
        b
    };
    let c = v - mn;
    let h = if c == 0 {
        0
    } else {
        let bd: (int, int) = if v == r {
            (0, g - b)
        } else if v == g {
            (2, b - r)
        } else {
            (4, r - g)
        };
        let num = bd.0 * c + bd.1;
        let num2 = if num < 0 {
            num + 6 * c
        } else {
            num
        };
        rnd_div(num2 * m, 6 * c)
    };
    let sat_v = div_m(m, c, v);
    let wht = mul_m(m, m - sat_v, v);
    (h, wht, m - v)
}

/// HWB color model accessors.
///
/// The components are *hue*, *whiteness* and *blackness*, with optional
/// *alpha*.
#[derive(Clone, Copy, Debug, PartialEq, Eq, Structural)]
pub struct HwbModel {}

impl HwbModel {
    /// Get the *hue* component.
    pub fn hue(p: Pixel) -> (r: u16)
        requires
            p.fmt.model == ColorModel::Hwb,
        ensures
            r == p.c0,
    {
        p.c0
    }

    /// Get the *whiteness* component.
    pub fn whiteness(p: Pixel) -> (r: u16)
        requires
            p.fmt.model == ColorModel::Hwb,
        ensures
            r == p.c1,
    {
        p.c1
    }

    /// Get the *blackness* component.
    pub fn blackness(p: Pixel) -> (r: u16)
        requires
            p.fmt.model == ColorModel::Hwb,
        ensures
            r == p.c2,
    {
        p.c2
    }

    /// Get *whiteness* and *blackness* rescaled to the same ratio so their
    /// sum does not pass the channel maximum.
    pub fn whiteness_blackness(p: Pixel) -> (r: (u16, u16))
        requires
            p.wf(),
            p.fmt.model == ColorModel::Hwb,
        ensures
            (r.0 as int, r.1 as int) == wb_norm_spec(
                max_of(p.fmt.precision),
                p.c1 as int,
                p.c2 as int,
            ),
    {
        let m: u16 = match p.fmt.precision {
            Precision::Eight => 255,
            Precision::Sixteen => 65535,
        };
        proof {
            assert(chan_at(p, 1) == p.c1 as int && chan_at(p, 2) == p.c2 as int);
        }
        wb_norm(m, p.c1, p.c2)
    }
}

/// Normalize whiteness and blackness at channel maximum `m`.
pub fn wb_norm(m: u16, w: u16, b: u16) -> (r: (u16, u16))
    requires
        1 <= m,
        w <= m,
        b <= m,
    ensures
        (r.0 as int, r.1 as int) == wb_norm_spec(m as int, w as int, b as int),
        r.0 <= m,
        r.1 <= m,
{
    let sum: u32 = w as u32 + b as u32;
    if sum > m as u32 {
        let wl: u64 = w as u64;
        let bl: u64 = b as u64;
        let ml: u64 = m as u64;
        let sl: u64 = sum as u64;
        proof {
            assert(wl * ml <= 0x1_0000_0000 && bl * ml <= 0x1_0000_0000) by (nonlinear_arith)
                requires
                    wl <= 0x10000 && bl <= 0x10000 && ml <= 0x10000,
            ;
        }
        let w2: u64 = (2 * (wl * ml) + sl) / (2 * sl);
        let b2: u64 = (2 * (bl * ml) + sl) / (2 * sl);
        proof {
            assert(w2 <= ml && b2 <= ml) by (nonlinear_arith)
                requires
                    w2 == (2 * (wl * ml) + sl) / (2 * sl) && b2 == (2 * (bl * ml) + sl) / (2
                        * sl)
                        && wl < sl && bl < sl && 1 <= ml && 1 <= sl,
            ;
        }
        (w2 as u16, b2 as u16)
    } else {
        (w, b)
    }
}

/// Convert hue, whiteness and blackness to red, green and blue, at channel
/// maximum `m`.
pub fn hwb_to_rgb(m: u16, h: u16, w: u16, b: u16) -> (r: (u16, u16, u16))
    requires
        1 <= m,
        h <= m,
        w <= m,
        b <= m,
    ensures
        (r.0 as int, r.1 as int, r.2 as int) == hwb_to_rgb_spec(m as int, h as int, w as int, b as int),
        r.0 <= m,
        r.1 <= m,
        r.2 <= m,
{
    let wb = wb_norm(m, w, b);
    let v: u16 = m - wb.1;
    let c: u16 = if v > wb.0 {
        v - wb.0
    } else {
        0
    };
    let n6: u32 = 6 * (h as u32);
    let sector: u32 = if h == m {
        0
    } else {
        n6 / (m as u32)
    };
    let t: u64 = if h == m {
        0
    } else {
        (n6 % (m as u32)) as u64
    };
    proof {
        if h < m {
            assert(6 * (h as int) / (m as int) <= 5 && 6 * (h as int) % (m as int) < m as int)
                by (nonlinear_arith)
                requires
                    h < m && 1 <= m,
            ;
        }
    }
    let cl: u64 = c as u64;
    let ml: u64 = m as u64;
    proof {
        assert(cl * t <= 0x1_0000_0000 && cl * (ml - t) <= 0x1_0000_0000) by (nonlinear_arith)
            requires
                cl <= 0x10000 && t <= ml && ml <= 0x10000,
        ;
    }
    let ct64: u64 = (2 * (cl * t) + ml) / (2 * ml);
    let cit64: u64 = (2 * (cl * (ml - t)) + ml) / (2 * ml);
    proof {
        assert(ct64 <= cl && cit64 <= cl) by (nonlinear_arith)
            requires
                ct64 == (2 * (cl * t) + ml) / (2 * ml) && cit64 == (2 * (cl * (ml - t)) + ml)
                    / (2 * ml) && t < ml && 1 <= ml && 0 <= cl,
        ;
    }
    let ct: u16 = ct64 as u16;
    let cit: u16 = cit64 as u16;
    let base: (u16, u16, u16) = if sector == 0 {
        (c, ct, 0)
    } else if sector == 1 {
        (cit, c, 0)
    } else if sector == 2 {
        (0, c, ct)
    } else if sector == 3 {
        (0, cit, c)
    } else if sector == 4 {
        (ct, 0, c)
    } else {
        (c, 0, cit)
    };
    let off: u16 = v - c;
    (base.0 + off, base.1 + off, base.2 + off)
}

/// Convert red, green and blue to hue, whiteness and blackness, at channel
/// maximum `m`.
#[verifier::rlimit(60)]
pub fn rgb_to_hwb(m: u16, r: u16, g: u16, b: u16) -> (hwb: (u16, u16, u16))
    requires
        m == 255 || m == 65535,
        r <= m,
        g <= m,
        b <= m,
    ensures
        (hwb.0 as int, hwb.1 as int, hwb.2 as int) == rgb_to_hwb_spec(
            m as int,
            r as int,
            g as int,
            b as int,
        ),
        hwb.0 <= m,
        hwb.1 <= m,
        hwb.2 <= m,
{
    let v: u16 = if r >= g && r >= b {
        r
    } else if g >= b {
        g
    } else {
        b
    };
    let mn: u16 = if r <= g && r <= b {
        r
    } else if g <= b {
        g
    } else {
        b
    };
    let c: u16 = v - mn;
    let h: u16 = if c == 0 {
        0
    } else {
        let cl: i64 = c as i64;
        let ml: i64 = m as i64;
        let (base, diff): (i64, i64) = if v == r {
            (0, g as i64 - b as i64)
        } else if v == g {
            (2, b as i64 - r as i64)
        } else {
            (4, r as i64 - g as i64)
        };
        proof {
            assert(0 <= base * cl <= 0x40000) by (nonlinear_arith)
                requires
                    0 <= base <= 4 && 0 <= cl <= 0x10000,
            ;
        }
        let num: i64 = base * cl + diff;
        let num2: i64 = if num < 0 {
            num + 6 * cl
        } else {
            num
        };
        proof {
            assert(0 <= num2 <= 6 * cl) by (nonlinear_arith)
                requires
                    num2 == (if base * cl + diff < 0 {
                        base * cl + diff + 6 * cl
                    } else {
                        base * cl + diff
                    }) && (base == 0 || base == 2 || base == 4) && -cl <= diff <= cl && 1 <= cl,
            ;
            assert(num2 * ml <= 6 * cl * ml && (2 * (num2 * ml) + 6 * cl) / (12 * cl) <= ml)
                by (nonlinear_arith)
                requires
                    0 <= num2 <= 6 * cl && 1 <= cl <= 0x10000 && 1 <= ml <= 0x10000,
            ;
        }
        proof {
            assert(0 <= num2 * ml <= 0x10_0000_0000) by (nonlinear_arith)
                requires
                    0 <= num2 <= 6 * cl && cl <= 0x10000 && 1 <= ml <= 0x10000,
            ;
        }
        let hh: i64 = (2 * (num2 * ml) + 6 * cl) / (12 * cl);
        hh as u16
    };
    let sat_v: u16 = chan_div(m, c, v);
    let wht: u16 = chan_mul(m, m - sat_v, v);
    (h, wht, m - v)
}

/// Channel multiplication dispatched on the channel maximum.
pub fn chan_mul(m: u16, a: u16, b: u16) -> (r: u16)
    requires
        m == 255 || m == 65535,
        a <= m,
        b <= m,
    ensures
        r as int == mul_m(m as int, a as int, b as int),
        r <= m,
{
    if m == 255 {
        Ch8::new(a as u8).mul(Ch8::new(b as u8)).value() as u16
    } else {
        Ch16::new(a).mul(Ch16::new(b)).value()
    }
}

/// Channel division dispatched on the channel maximum.
pub fn chan_div(m: u16, a: u16, b: u16) -> (r: u16)
    requires
        m == 255 || m == 65535,
        a <= m,
        b <= m,
    ensures
        r as int == div_m(m as int, a as int, b as int),
        r <= m,
{
    if m == 255 {
        Ch8::new(a as u8).div(Ch8::new(b as u8)).value() as u16
    } else {
        Ch16::new(a).div(Ch16::new(b)).value()
    }
}

} // verus!
