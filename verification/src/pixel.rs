//! Pixel formats and format conversion.
//!
//! A pixel format combines a channel precision, a color model, an alpha
//! convention and a gamma convention.  A [`Pixel`] carries its format beside
//! its channel values, and [`Pixel::convert`] turns any pixel into any other
//! format: same-model conversions remap the native channels directly, while
//! cross-model conversions route through a canonical red-green-blue-alpha
//! representation.

use crate::gamma::{srgb_decode, srgb_decode_spec, srgb_encode, srgb_encode_spec};
use crate::hwb::{chan_div, chan_mul, div_m, hwb_to_rgb, hwb_to_rgb_spec, mul_m, rgb_to_hwb, rgb_to_hwb_spec};
use vstd::prelude::*;

verus! {

/// Channel precision of a pixel format: 8 or 16 bits per channel.
#[derive(Clone, Copy, Debug, PartialEq, Eq, Structural)]
pub enum Precision {
    Eight,
    Sixteen,
}

/// Color model of a pixel format.
#[derive(Clone, Copy, Debug, PartialEq, Eq, Structural)]
pub enum ColorModel {
    /// Red, green and blue channels.
    Rgb,
    /// A single luminance channel.
    Gray,
    /// Hue, whiteness and blackness channels.
    Hwb,
    /// A single opacity channel and nothing else.
    Mask,
}

/// Alpha convention: how color channels relate to the opacity channel.
#[derive(Clone, Copy, Debug, PartialEq, Eq, Structural)]
pub enum AlphaMode {
    /// Color channels are stored independent of opacity.
    Straight,
    /// Color channels are stored pre-scaled by opacity.
    Premultiplied,
}

/// Gamma convention: how stored channel values relate to linear intensity.
#[derive(Clone, Copy, Debug, PartialEq, Eq, Structural)]
pub enum GammaMode {
    /// Stored values are linear intensities.
    Linear,
    /// Stored values are encoded with the sRGB transfer curve.
    Srgb,
}

/// A concrete pixel format: precision, color model, alpha convention, gamma
/// convention, and whether an opacity channel is stored.
///
/// A mask stores only an opacity channel, so for the mask model `has_alpha`
/// is always set and the other conventions are fixed.
#[derive(Clone, Copy, Debug, PartialEq, Eq, Structural)]
pub struct Format {
    pub precision: Precision,
    pub model: ColorModel,
    pub alpha: AlphaMode,
    pub gamma: GammaMode,
    pub has_alpha: bool,
}

/// The greatest channel intensity of a precision.
pub open spec fn max_of(p: Precision) -> int {
    match p {
        Precision::Eight => 255,
        Precision::Sixteen => 65535,
    }
}

/// How many color channels (before any opacity channel) a model stores.
pub open spec fn color_count(m: ColorModel) -> int {
    match m {
        ColorModel::Rgb => 3,
        ColorModel::Gray => 1,
        ColorModel::Hwb => 3,
        ColorModel::Mask => 0,
    }
}

/// How many channels a format stores in memory.
pub open spec fn chan_count(f: Format) -> int {
    if f.model == ColorModel::Mask {
        1
    } else if f.has_alpha {
        color_count(f.model) + 1
    } else {
        color_count(f.model)
    }
}

/// Well-formedness of a format.
///
/// Hue is an angle, not an intensity, so hue-whiteness-blackness formats are
/// always linear with straight alpha; a mask is a bare opacity channel.
pub open spec fn fmt_wf(f: Format) -> bool {
    &&& (f.model == ColorModel::Hwb ==> f.gamma == GammaMode::Linear && f.alpha
        == AlphaMode::Straight)
    &&& (f.model == ColorModel::Mask ==> f.gamma == GammaMode::Linear && f.alpha
        == AlphaMode::Straight && f.has_alpha)
}

impl Format {
    /// Assemble a format from its four axes.
    pub fn new(precision: Precision, model: ColorModel, alpha: AlphaMode, gamma: GammaMode, has_alpha: bool) -> (r: Format)
        requires
            fmt_wf(Format { precision, model, alpha, gamma, has_alpha }),
        ensures
            r == (Format { precision, model, alpha, gamma, has_alpha }),
    {
        Format { precision, model, alpha, gamma, has_alpha }
    }

    /// The number of bytes one pixel of this format occupies.
    pub fn pixel_bytes(self) -> (r: u32)
        ensures
            r as int == pixel_bytes_spec(self),
            1 <= r <= 8,
    {
        let per: u32 = match self.precision {
            Precision::Eight => 1,
            Precision::Sixteen => 2,
        };
        let n: u32 = match self.model {
            ColorModel::Mask => 1,
            ColorModel::Gray => if self.has_alpha {
                2
            } else {
                1
            },
            _ => if self.has_alpha {
                4
            } else {
                3
            },
        };
        per * n
    }

    /// 8-bit red-green-blue, linear gamma, no alpha.
    pub fn rgb8() -> (r: Format)
        ensures
            r == rgb8_format(),
    {
        Format {
            precision: Precision::Eight,
            model: ColorModel::Rgb,
            alpha: AlphaMode::Straight,
            gamma: GammaMode::Linear,
            has_alpha: false,
        }
    }

    /// 16-bit red-green-blue, linear gamma, no alpha.
    pub fn rgb16() -> (r: Format)
        ensures
            r == (Format {
                precision: Precision::Sixteen,
                model: ColorModel::Rgb,
                alpha: AlphaMode::Straight,
                gamma: GammaMode::Linear,
                has_alpha: false,
            }),
    {
        Format {
            precision: Precision::Sixteen,
            model: ColorModel::Rgb,
            alpha: AlphaMode::Straight,
            gamma: GammaMode::Linear,
            has_alpha: false,
        }
    }

    /// 8-bit red-green-blue, sRGB gamma, no alpha.
    pub fn srgb8() -> (r: Format)
        ensures
            r == (Format {
                precision: Precision::Eight,
                model: ColorModel::Rgb,
                alpha: AlphaMode::Straight,
                gamma: GammaMode::Srgb,
                has_alpha: false,
            }),
    {
        Format {
            precision: Precision::Eight,
            model: ColorModel::Rgb,
            alpha: AlphaMode::Straight,
            gamma: GammaMode::Srgb,
            has_alpha: false,
        }
    }

    /// 16-bit red-green-blue, sRGB gamma, no alpha.
    pub fn srgb16() -> (r: Format)
        ensures
            r == (Format {
                precision: Precision::Sixteen,
                model: ColorModel::Rgb,
                alpha: AlphaMode::Straight,
                gamma: GammaMode::Srgb,
                has_alpha: false,
            }),
    {
        Format {
            precision: Precision::Sixteen,
            model: ColorModel::Rgb,
            alpha: AlphaMode::Straight,
            gamma: GammaMode::Srgb,
            has_alpha: false,
        }
    }

    /// 8-bit red-green-blue with straight alpha, sRGB gamma.
    pub fn srgba8() -> (r: Format)
        ensures
            r == (Format {
                precision: Precision::Eight,
                model: ColorModel::Rgb,
                alpha: AlphaMode::Straight,
                gamma: GammaMode::Srgb,
                has_alpha: true,
            }),
    {
        Format {
            precision: Precision::Eight,
            model: ColorModel::Rgb,
            alpha: AlphaMode::Straight,
            gamma: GammaMode::Srgb,
            has_alpha: true,
        }
    }

    /// 16-bit red-green-blue with straight alpha, sRGB gamma.
    pub fn srgba16() -> (r: Format)
        ensures
            r == (Format {
                precision: Precision::Sixteen,
                model: ColorModel::Rgb,
                alpha: AlphaMode::Straight,
                gamma: GammaMode::Srgb,
                has_alpha: true,
            }),
    {
        Format {
            precision: Precision::Sixteen,
            model: ColorModel::Rgb,
            alpha: AlphaMode::Straight,
            gamma: GammaMode::Srgb,
            has_alpha: true,
        }
    }

    /// 8-bit red-green-blue with premultiplied alpha, linear gamma.
    pub fn rgba8p() -> (r: Format)
        ensures
            r == (Format {
                precision: Precision::Eight,
                model: ColorModel::Rgb,
                alpha: AlphaMode::Premultiplied,
                gamma: GammaMode::Linear,
                has_alpha: true,
            }),
    {
        Format {
            precision: Precision::Eight,
            model: ColorModel::Rgb,
            alpha: AlphaMode::Premultiplied,
            gamma: GammaMode::Linear,
            has_alpha: true,
        }
    }

    /// 8-bit red-green-blue with straight alpha, linear gamma.
    pub fn rgba8() -> (r: Format)
        ensures
            r == (Format {
                precision: Precision::Eight,
                model: ColorModel::Rgb,
                alpha: AlphaMode::Straight,
                gamma: GammaMode::Linear,
                has_alpha: true,
            }),
    {
        Format {
            precision: Precision::Eight,
            model: ColorModel::Rgb,
            alpha: AlphaMode::Straight,
            gamma: GammaMode::Linear,
            has_alpha: true,
        }
    }

    /// 8-bit grayscale, linear gamma, no alpha.
    pub fn gray8() -> (r: Format)
        ensures
            r == (Format {
                precision: Precision::Eight,
                model: ColorModel::Gray,
                alpha: AlphaMode::Straight,
                gamma: GammaMode::Linear,
                has_alpha: false,
            }),
    {
        Format {
            precision: Precision::Eight,
            model: ColorModel::Gray,
            alpha: AlphaMode::Straight,
            gamma: GammaMode::Linear,
            has_alpha: false,
        }
    }

    /// 16-bit grayscale, linear gamma, no alpha.
    pub fn gray16() -> (r: Format)
        ensures
            r == (Format {
                precision: Precision::Sixteen,
                model: ColorModel::Gray,
                alpha: AlphaMode::Straight,
                gamma: GammaMode::Linear,
                has_alpha: false,
            }),
    {
        Format {
            precision: Precision::Sixteen,
            model: ColorModel::Gray,
            alpha: AlphaMode::Straight,
            gamma: GammaMode::Linear,
            has_alpha: false,
        }
    }

    /// 8-bit grayscale, sRGB gamma, no alpha.
    pub fn sgray8() -> (r: Format)
        ensures
            r == (Format {
                precision: Precision::Eight,
                model: ColorModel::Gray,
                alpha: AlphaMode::Straight,
                gamma: GammaMode::Srgb,
                has_alpha: false,
            }),
    {
        Format {
            precision: Precision::Eight,
            model: ColorModel::Gray,
            alpha: AlphaMode::Straight,
            gamma: GammaMode::Srgb,
            has_alpha: false,
        }
    }

    /// 16-bit grayscale, sRGB gamma, no alpha.
    pub fn sgray16() -> (r: Format)
        ensures
            r == (Format {
                precision: Precision::Sixteen,
                model: ColorModel::Gray,
                alpha: AlphaMode::Straight,
                gamma: GammaMode::Srgb,
                has_alpha: false,
            }),
    {
        Format {
            precision: Precision::Sixteen,
            model: ColorModel::Gray,
            alpha: AlphaMode::Straight,
            gamma: GammaMode::Srgb,
            has_alpha: false,
        }
    }

    /// 8-bit grayscale with straight alpha, sRGB gamma.
    pub fn sgraya8() -> (r: Format)
        ensures
            r == (Format {
                precision: Precision::Eight,
                model: ColorModel::Gray,
                alpha: AlphaMode::Straight,
                gamma: GammaMode::Srgb,
                has_alpha: true,
            }),
    {
        Format {
            precision: Precision::Eight,
            model: ColorModel::Gray,
            alpha: AlphaMode::Straight,
            gamma: GammaMode::Srgb,
            has_alpha: true,
        }
    }

    /// 16-bit grayscale with straight alpha, sRGB gamma.
    pub fn sgraya16() -> (r: Format)
        ensures
            r == (Format {
                precision: Precision::Sixteen,
                model: ColorModel::Gray,
                alpha: AlphaMode::Straight,
                gamma: GammaMode::Srgb,
                has_alpha: true,
            }),
    {
        Format {
            precision: Precision::Sixteen,
            model: ColorModel::Gray,
            alpha: AlphaMode::Straight,
            gamma: GammaMode::Srgb,
            has_alpha: true,
        }
    }

    /// 8-bit opacity mask.
    pub fn mask8() -> (r: Format)
        ensures
            r == (Format {
                precision: Precision::Eight,
                model: ColorModel::Mask,
                alpha: AlphaMode::Straight,
                gamma: GammaMode::Linear,
                has_alpha: true,
            }),
    {
        Format {
            precision: Precision::Eight,
            model: ColorModel::Mask,
            alpha: AlphaMode::Straight,
            gamma: GammaMode::Linear,
            has_alpha: true,
        }
    }

    /// 16-bit opacity mask.
    pub fn mask16() -> (r: Format)
        ensures
            r == (Format {
                precision: Precision::Sixteen,
                model: ColorModel::Mask,
                alpha: AlphaMode::Straight,
                gamma: GammaMode::Linear,
                has_alpha: true,
            }),
    {
        Format {
            precision: Precision::Sixteen,
            model: ColorModel::Mask,
            alpha: AlphaMode::Straight,
            gamma: GammaMode::Linear,
            has_alpha: true,
        }
    }

    /// 8-bit hue-whiteness-blackness, no alpha.
    pub fn hwb8() -> (r: Format)
        ensures
            r == (Format {
                precision: Precision::Eight,
                model: ColorModel::Hwb,
                alpha: AlphaMode::Straight,
                gamma: GammaMode::Linear,
                has_alpha: false,
            }),
    {
        Format {
            precision: Precision::Eight,
            model: ColorModel::Hwb,
            alpha: AlphaMode::Straight,
            gamma: GammaMode::Linear,
            has_alpha: false,
        }
    }

    /// 16-bit hue-whiteness-blackness, no alpha.
    pub fn hwb16() -> (r: Format)
        ensures
            r == (Format {
                precision: Precision::Sixteen,
                model: ColorModel::Hwb,
                alpha: AlphaMode::Straight,
                gamma: GammaMode::Linear,
                has_alpha: false,
            }),
    {
        Format {
            precision: Precision::Sixteen,
            model: ColorModel::Hwb,
            alpha: AlphaMode::Straight,
            gamma: GammaMode::Linear,
            has_alpha: false,
        }
    }
}

/// The canonical 8-bit linear RGB format value.
pub open spec fn rgb8_format() -> Format {
    Format {
        precision: Precision::Eight,
        model: ColorModel::Rgb,
        alpha: AlphaMode::Straight,
        gamma: GammaMode::Linear,
        has_alpha: false,
    }
}

/// The number of bytes one pixel of a format occupies in a raw buffer.
pub open spec fn pixel_bytes_spec(f: Format) -> int {
    let per: int = match f.precision {
        Precision::Eight => 1,
        Precision::Sixteen => 2,
    };
    per * chan_count(f)
}

/// One pixel value: a format tag and up to four channel intensities.
///
/// Channels are stored in the model's native order: red-green-blue or
/// hue-whiteness-blackness in the first three, luminance in the first, an
/// opacity channel (when present) directly after the color channels, and a
/// mask's opacity alone in the first.  Channels beyond the format's count are
/// zero, so pixel equality is plain field equality.
#[derive(Clone, Copy, Debug, PartialEq, Eq, Structural)]
pub struct Pixel {
    pub fmt: Format,
    pub c0: u16,
    pub c1: u16,
    pub c2: u16,
    pub c3: u16,
}

/// The channel of a pixel at a given index.
pub open spec fn chan_at(p: Pixel, i: int) -> int {
    if i == 0 {
        p.c0 as int
    } else if i == 1 {
        p.c1 as int
    } else if i == 2 {
        p.c2 as int
    } else {
        p.c3 as int
    }
}

/// Well-formedness of a pixel: a well-formed format, every stored channel
/// within the precision's range, and every unused channel zero.
pub open spec fn pix_wf(p: Pixel) -> bool {
    &&& fmt_wf(p.fmt)
    &&& forall|i: int| 0 <= i < 4 ==> 0 <= #[trigger] chan_at(p, i) <= max_of(p.fmt.precision)
    &&& forall|i: int| chan_count(p.fmt) <= i < 4 ==> #[trigger] chan_at(p, i) == 0
}

/// The opacity of a pixel: its alpha channel when one is stored, else fully
/// opaque.
pub open spec fn alpha_of(p: Pixel) -> int {
    if p.fmt.model == ColorModel::Mask {
        p.c0 as int
    } else if p.fmt.has_alpha {
        chan_at(p, color_count(p.fmt.model))
    } else {
        max_of(p.fmt.precision)
    }
}

impl Pixel {
    /// Well-formedness, as a method for contracts.
    pub open spec fn wf(self) -> bool {
        pix_wf(self)
    }

    /// Assemble a pixel from a format and channel values in native order.
    ///
    /// Channels beyond the format's channel count must be zero.
    pub fn new(fmt: Format, c0: u16, c1: u16, c2: u16, c3: u16) -> (r: Pixel)
        requires
            fmt_wf(fmt),
            c0 <= max_of(fmt.precision),
            c1 <= max_of(fmt.precision),
            c2 <= max_of(fmt.precision),
            c3 <= max_of(fmt.precision),
            chan_count(fmt) <= 0 ==> c0 == 0,
            chan_count(fmt) <= 1 ==> c1 == 0,
            chan_count(fmt) <= 2 ==> c2 == 0,
            chan_count(fmt) <= 3 ==> c3 == 0,
        ensures
            r == (Pixel { fmt, c0, c1, c2, c3 }),
            r.wf(),
    {
        let p = Pixel { fmt, c0, c1, c2, c3 };
        proof {
            assert(forall|i: int| 0 <= i < 4 ==> 0 <= #[trigger] chan_at(p, i) <= max_of(
                p.fmt.precision,
            ));
            assert(forall|i: int|
                chan_count(p.fmt) <= i < 4 ==> #[trigger] chan_at(p, i) == 0);
        }
        p
    }

    /// The pixel with every channel zero, in a given format.
    pub fn default_for(fmt: Format) -> (r: Pixel)
        requires
            fmt_wf(fmt),
        ensures
            r == default_pixel(fmt),
            r.wf(),
            r.fmt == fmt,
    {
        Pixel::new(fmt, 0, 0, 0, 0)
    }

    /// An 8-bit linear RGB pixel.
    pub fn rgb8(red: u8, green: u8, blue: u8) -> (r: Pixel)
        ensures
            r.fmt == rgb8_format(),
            r.c0 == red && r.c1 == green && r.c2 == blue && r.c3 == 0,
            r.wf(),
    {
        Pixel::new(Format::rgb8(), red as u16, green as u16, blue as u16, 0)
    }

    /// An 8-bit sRGB pixel.
    pub fn srgb8(red: u8, green: u8, blue: u8) -> (r: Pixel)
        ensures
            r.fmt == (Format {
                precision: Precision::Eight,
                model: ColorModel::Rgb,
                alpha: AlphaMode::Straight,
                gamma: GammaMode::Srgb,
                has_alpha: false,
            }),
            r.c0 == red && r.c1 == green && r.c2 == blue && r.c3 == 0,
            r.wf(),
    {
        Pixel::new(Format::srgb8(), red as u16, green as u16, blue as u16, 0)
    }

    /// An 8-bit linear grayscale pixel.
    pub fn gray8(lum: u8) -> (r: Pixel)
        ensures
            r.fmt == (Format {
                precision: Precision::Eight,
                model: ColorModel::Gray,
                alpha: AlphaMode::Straight,
                gamma: GammaMode::Linear,
                has_alpha: false,
            }),
            r.c0 == lum && r.c1 == 0 && r.c2 == 0 && r.c3 == 0,
            r.wf(),
    {
        Pixel::new(Format::gray8(), lum as u16, 0, 0, 0)
    }

    /// An 8-bit sRGB grayscale pixel.
    pub fn sgray8(lum: u8) -> (r: Pixel)
        ensures
            r.fmt == (Format {
                precision: Precision::Eight,
                model: ColorModel::Gray,
                alpha: AlphaMode::Straight,
                gamma: GammaMode::Srgb,
                has_alpha: false,
            }),
            r.c0 == lum && r.c1 == 0 && r.c2 == 0 && r.c3 == 0,
            r.wf(),
    {
        Pixel::new(Format::sgray8(), lum as u16, 0, 0, 0)
    }

    /// A 16-bit sRGB grayscale pixel.
    pub fn sgray16(lum: u16) -> (r: Pixel)
        ensures
            r.fmt == (Format {
                precision: Precision::Sixteen,
                model: ColorModel::Gray,
                alpha: AlphaMode::Straight,
                gamma: GammaMode::Srgb,
                has_alpha: false,
            }),
            r.c0 == lum && r.c1 == 0 && r.c2 == 0 && r.c3 == 0,
            r.wf(),
    {
        Pixel::new(Format::sgray16(), lum, 0, 0, 0)
    }

    /// A 16-bit sRGB grayscale pixel with straight alpha.
    pub fn sgraya16(lum: u16, alpha: u16) -> (r: Pixel)
        ensures
            r.fmt == (Format {
                precision: Precision::Sixteen,
                model: ColorModel::Gray,
                alpha: AlphaMode::Straight,
                gamma: GammaMode::Srgb,
                has_alpha: true,
            }),
            r.c0 == lum && r.c1 == alpha && r.c2 == 0 && r.c3 == 0,
            r.wf(),
    {
        Pixel::new(Format::sgraya16(), lum, alpha, 0, 0)
    }

    /// An 8-bit opacity mask pixel.
    pub fn mask8(alpha: u8) -> (r: Pixel)
        ensures
            r.fmt == (Format {
                precision: Precision::Eight,
                model: ColorModel::Mask,
                alpha: AlphaMode::Straight,
                gamma: GammaMode::Linear,
                has_alpha: true,
            }),
            r.c0 == alpha && r.c1 == 0 && r.c2 == 0 && r.c3 == 0,
            r.wf(),
    {
        Pixel::new(Format::mask8(), alpha as u16, 0, 0, 0)
    }

    /// A 16-bit opacity mask pixel.
    pub fn mask16(alpha: u16) -> (r: Pixel)
        ensures
            r.fmt == (Format {
                precision: Precision::Sixteen,
                model: ColorModel::Mask,
                alpha: AlphaMode::Straight,
                gamma: GammaMode::Linear,
                has_alpha: true,
            }),
            r.c0 == alpha && r.c1 == 0 && r.c2 == 0 && r.c3 == 0,
            r.wf(),
    {
        Pixel::new(Format::mask16(), alpha, 0, 0, 0)
    }

    /// An 8-bit hue-whiteness-blackness pixel.
    pub fn hwb8(hue: u8, whiteness: u8, blackness: u8) -> (r: Pixel)
        ensures
            r.fmt == (Format {
                precision: Precision::Eight,
                model: ColorModel::Hwb,
                alpha: AlphaMode::Straight,
                gamma: GammaMode::Linear,
                has_alpha: false,
            }),
            r.c0 == hue && r.c1 == whiteness && r.c2 == blackness && r.c3 == 0,
            r.wf(),
    {
        Pixel::new(Format::hwb8(), hue as u16, whiteness as u16, blackness as u16, 0)
    }

    /// A 16-bit hue-whiteness-blackness pixel.
    pub fn hwb16(hue: u16, whiteness: u16, blackness: u16) -> (r: Pixel)
        ensures
            r.fmt == (Format {
                precision: Precision::Sixteen,
                model: ColorModel::Hwb,
                alpha: AlphaMode::Straight,
                gamma: GammaMode::Linear,
                has_alpha: false,
            }),
            r.c0 == hue && r.c1 == whiteness && r.c2 == blackness && r.c3 == 0,
            r.wf(),
    {
        Pixel::new(Format::hwb16(), hue, whiteness, blackness, 0)
    }

    /// An 8-bit linear RGB pixel with straight alpha.
    pub fn rgba8(red: u8, green: u8, blue: u8, alpha: u8) -> (r: Pixel)
        ensures
            r.fmt == (Format {
                precision: Precision::Eight,
                model: ColorModel::Rgb,
                alpha: AlphaMode::Straight,
                gamma: GammaMode::Linear,
                has_alpha: true,
            }),
            r.c0 == red && r.c1 == green && r.c2 == blue && r.c3 == alpha,
            r.wf(),
    {
        Pixel::new(Format::rgba8(), red as u16, green as u16, blue as u16, alpha as u16)
    }
}

/// The all-zero pixel of a format.
pub open spec fn default_pixel(fmt: Format) -> Pixel {
    Pixel { fmt, c0: 0, c1: 0, c2: 0, c3: 0 }
}


/// Rescaling of a channel intensity between two precisions: widening
/// replicates the byte, narrowing keeps the most significant byte.
pub open spec fn rescale_spec(x: int, sm: int, dm: int) -> int {
    if sm == dm {
        x
    } else if sm == 255 {
        x * 257
    } else {
        x / 256
    }
}

/// Luminance of a linear red-green-blue triple, by the standard
/// high-definition coefficients in parts per ten thousand, rounded.
pub open spec fn luma_spec(r: int, g: int, b: int) -> int {
    (2126 * r + 7152 * g + 722 * b + 5000) / 10000
}

/// Whether a conversion must divide the stored opacity back out of the color
/// channels: the source is premultiplied and the target is not.
pub open spec fn unpremultiplies(s: Format, d: Format) -> bool {
    s.has_alpha && s.alpha == AlphaMode::Premultiplied && !(d.has_alpha && d.alpha
        == AlphaMode::Premultiplied)
}

/// Whether a conversion must scale the color channels by opacity: the target
/// is premultiplied and the source is not.
pub open spec fn premultiplies(s: Format, d: Format) -> bool {
    d.has_alpha && d.alpha == AlphaMode::Premultiplied && !(s.has_alpha && s.alpha
        == AlphaMode::Premultiplied)
}

/// A source color channel with the source's alpha and gamma conventions
/// removed as far as the target needs: divided by opacity when
/// [`unpremultiplies`], decoded to linear when `dec`.
pub open spec fn src_color_spec(p: Pixel, i: int, unpre: bool, dec: bool) -> int {
    let sm = max_of(p.fmt.precision);
    let c = chan_at(p, i);
    let c1 = if unpre {
        div_m(sm, c, alpha_of(p))
    } else {
        c
    };
    if dec {
        srgb_decode_spec(c1, sm)
    } else {
        c1
    }
}


/// The target model's color channels, linear or gamma-encoded as the source
/// stored them, at the target precision, before any re-encoding for the
/// target's own conventions.
///
/// When the models agree the native channels are remapped directly;
/// otherwise the source's channels become canonical red-green-blue, are
/// rescaled to the target precision, and the target model's channels are
/// derived from them.
pub open spec fn native_spec(p: Pixel, f: Format) -> (int, int, int) {
    let sm = max_of(p.fmt.precision);
    let dm = max_of(f.precision);
    let unpre = unpremultiplies(p.fmt, f);
    let dec = p.fmt.gamma == GammaMode::Srgb && f.gamma == GammaMode::Linear;
    if p.fmt.model == f.model {
        (
            rescale_spec(src_color_spec(p, 0, unpre, dec), sm, dm),
            rescale_spec(src_color_spec(p, 1, unpre, dec), sm, dm),
            rescale_spec(src_color_spec(p, 2, unpre, dec), sm, dm),
        )
    } else {
        let rgb: (int, int, int) = match p.fmt.model {
            ColorModel::Rgb => (
                src_color_spec(p, 0, unpre, dec),
                src_color_spec(p, 1, unpre, dec),
                src_color_spec(p, 2, unpre, dec),
            ),
            ColorModel::Gray => {
                let l = src_color_spec(p, 0, unpre, dec);
                (l, l, l)
            },
            ColorModel::Hwb => hwb_to_rgb_spec(sm, p.c0 as int, p.c1 as int, p.c2 as int),
            ColorModel::Mask => (alpha_of(p), alpha_of(p), alpha_of(p)),
        };
        let r2 = rescale_spec(rgb.0, sm, dm);
        let g2 = rescale_spec(rgb.1, sm, dm);
        let b2 = rescale_spec(rgb.2, sm, dm);
        match f.model {
            ColorModel::Rgb => (r2, g2, b2),
            ColorModel::Gray => (luma_spec(r2, g2, b2), 0, 0),
            ColorModel::Hwb => rgb_to_hwb_spec(dm, r2, g2, b2),
            ColorModel::Mask => (0, 0, 0),
        }
    }
}

/// What [`Pixel::convert`] returns: the converted pixel in the target
/// format.
///
/// A pixel already in the target format is returned unchanged.  Otherwise
/// the gamma curve is re-applied only where the two gamma conventions
/// differ, and opacity is divided out or multiplied in only where the two
/// alpha conventions differ.  When the models agree the native channels are
/// remapped directly; otherwise the source's channels become canonical
/// red-green-blue-alpha, are rescaled to the target precision, and the
/// target model's channels are derived from them.
pub open spec fn convert_spec(p: Pixel, f: Format) -> Pixel {
    if p.fmt == f {
        p
    } else {
        let sm = max_of(p.fmt.precision);
        let dm = max_of(f.precision);
        let unpre = unpremultiplies(p.fmt, f);
        let repre = premultiplies(p.fmt, f);
        let dec = p.fmt.gamma == GammaMode::Srgb && f.gamma == GammaMode::Linear;
        let enc = p.fmt.gamma == GammaMode::Linear && f.gamma == GammaMode::Srgb;
        let a_d = rescale_spec(alpha_of(p), sm, dm);
        let native = native_spec(p, f);
        let e0 = if enc {
            srgb_encode_spec(native.0, dm)
        } else {
            native.0
        };
        let e1 = if enc {
            srgb_encode_spec(native.1, dm)
        } else {
            native.1
        };
        let e2 = if enc {
            srgb_encode_spec(native.2, dm)
        } else {
            native.2
        };
        let s0 = if repre {
            mul_m(dm, e0, a_d)
        } else {
            e0
        };
        let s1 = if repre {
            mul_m(dm, e1, a_d)
        } else {
            e1
        };
        let s2 = if repre {
            mul_m(dm, e2, a_d)
        } else {
            e2
        };
        match f.model {
            ColorModel::Mask => Pixel { fmt: f, c0: a_d as u16, c1: 0, c2: 0, c3: 0 },
            ColorModel::Gray => Pixel {
                fmt: f,
                c0: s0 as u16,
                c1: if f.has_alpha {
                    a_d as u16
                } else {
                    0
                },
                c2: 0,
                c3: 0,
            },
            _ => Pixel {
                fmt: f,
                c0: s0 as u16,
                c1: s1 as u16,
                c2: s2 as u16,
                c3: if f.has_alpha {
                    a_d as u16
                } else {
                    0
                },
            },
        }
    }
}

/// The greatest channel intensity of a precision, as a value.
pub fn max_val(p: Precision) -> (r: u16)
    ensures
        r as int == max_of(p),
        r == 255 || r == 65535,
{
    match p {
        Precision::Eight => 255,
        Precision::Sixteen => 65535,
    }
}

/// Read a channel of a pixel by index.
pub fn chan_get(p: Pixel, i: u32) -> (r: u16)
    ensures
        r as int == chan_at(p, i as int),
{
    if i == 0 {
        p.c0
    } else if i == 1 {
        p.c1
    } else if i == 2 {
        p.c2
    } else {
        p.c3
    }
}

/// The opacity of a pixel: its alpha channel when stored, else the maximum.
pub fn alpha_val(p: Pixel) -> (r: u16)
    requires
        p.wf(),
    ensures
        r as int == alpha_of(p),
        r as int <= max_of(p.fmt.precision),
{
    proof {
        assert(chan_at(p, 0) == p.c0 as int && chan_at(p, 1) == p.c1 as int && chan_at(p, 2)
            == p.c2 as int && chan_at(p, 3) == p.c3 as int);
    }
    if matches!(p.fmt.model, ColorModel::Mask) {
        p.c0
    } else if p.fmt.has_alpha {
        let i: u32 = match p.fmt.model {
            ColorModel::Rgb => 3,
            ColorModel::Gray => 1,
            ColorModel::Hwb => 3,
            ColorModel::Mask => 0,
        };
        chan_get(p, i)
    } else {
        max_val(p.fmt.precision)
    }
}

/// Rescale a channel intensity from one precision to another.
pub fn rescale_chan(x: u16, s: Precision, d: Precision) -> (r: u16)
    requires
        x as int <= max_of(s),
    ensures
        r as int == rescale_spec(x as int, max_of(s), max_of(d)),
        r as int <= max_of(d),
{
    match (s, d) {
        (Precision::Eight, Precision::Sixteen) => x * 257,
        (Precision::Sixteen, Precision::Eight) => x / 256,
        _ => x,
    }
}

/// A source color channel with alpha and gamma conventions removed as far as
/// the target needs.
fn src_color(p: Pixel, i: u32, unpre: bool, dec: bool) -> (r: u16)
    requires
        p.wf(),
        i < 4,
    ensures
        r as int == src_color_spec(p, i as int, unpre, dec),
        r as int <= max_of(p.fmt.precision),
{
    let m = max_val(p.fmt.precision);
    let c = chan_get(p, i);
    proof {
        assert(0 <= chan_at(p, i as int) <= max_of(p.fmt.precision));
    }
    let c1 = if unpre {
        chan_div(m, c, alpha_val(p))
    } else {
        c
    };
    if dec {
        srgb_decode(c1, m)
    } else {
        c1
    }
}

/// Rounded luminance of a linear red-green-blue triple.
pub fn luma(r: u16, g: u16, b: u16, m: u16) -> (l: u16)
    requires
        r <= m,
        g <= m,
        b <= m,
    ensures
        l as int == luma_spec(r as int, g as int, b as int),
        l <= m,
{
    let wide: u32 = 2126 * (r as u32) + 7152 * (g as u32) + 722 * (b as u32) + 5000;
    (wide / 10000) as u16
}


/// Compute the target model's channels of [`native_spec`].
#[verifier::rlimit(100)]
fn native_channels(p: Pixel, to: Format) -> (r: (u16, u16, u16))
    requires
        p.wf(),
        fmt_wf(to),
    ensures
        (r.0 as int, r.1 as int, r.2 as int) == native_spec(p, to),
        r.0 as int <= max_of(to.precision),
        r.1 as int <= max_of(to.precision),
        r.2 as int <= max_of(to.precision),
{
    let sp = p.fmt.precision;
    let dp = to.precision;
    let sm = max_val(sp);
    let dm = max_val(dp);
    let unpre = p.fmt.has_alpha && matches!(p.fmt.alpha, AlphaMode::Premultiplied) && !(
    to.has_alpha && matches!(to.alpha, AlphaMode::Premultiplied));
    let dec = matches!(p.fmt.gamma, GammaMode::Srgb) && matches!(to.gamma, GammaMode::Linear);
    if p.fmt.model == to.model {
        (
            rescale_chan(src_color(p, 0, unpre, dec), sp, dp),
            rescale_chan(src_color(p, 1, unpre, dec), sp, dp),
            rescale_chan(src_color(p, 2, unpre, dec), sp, dp),
        )
    } else {
        let rgb: (u16, u16, u16) = match p.fmt.model {
            ColorModel::Rgb => (
                src_color(p, 0, unpre, dec),
                src_color(p, 1, unpre, dec),
                src_color(p, 2, unpre, dec),
            ),
            ColorModel::Gray => {
                let l = src_color(p, 0, unpre, dec);
                (l, l, l)
            },
            ColorModel::Hwb => {
                proof {
                    assert(chan_at(p, 0) == p.c0 as int && chan_at(p, 1) == p.c1 as int
                        && chan_at(p, 2) == p.c2 as int);
                }
                hwb_to_rgb(sm, p.c0, p.c1, p.c2)
            },
            ColorModel::Mask => {
                let a = alpha_val(p);
                (a, a, a)
            },
        };
        let r2 = rescale_chan(rgb.0, sp, dp);
        let g2 = rescale_chan(rgb.1, sp, dp);
        let b2 = rescale_chan(rgb.2, sp, dp);
        match to.model {
            ColorModel::Rgb => (r2, g2, b2),
            ColorModel::Gray => (luma(r2, g2, b2, dm), 0, 0),
            ColorModel::Hwb => rgb_to_hwb(dm, r2, g2, b2),
            ColorModel::Mask => (0, 0, 0),
        }
    }
}

impl Pixel {
    /// Convert this pixel into another format.
    ///
    /// Conversion is total: every numeric edge case (zero opacity, zero
    /// value) has a defined result, and a pixel already in the target format
    /// comes back unchanged.
    #[verifier::rlimit(100)]
    pub fn convert(self, to: Format) -> (r: Pixel)
        requires
            self.wf(),
            fmt_wf(to),
        ensures
            r == convert_spec(self, to),
            r.wf(),
            r.fmt == (if self.fmt == to {
                self.fmt
            } else {
                to
            }),
    {
        if self.fmt == to {
            return self;
        }
        let sp = self.fmt.precision;
        let dp = to.precision;
        let sm = max_val(sp);
        let dm = max_val(dp);
        let unpre = self.fmt.has_alpha && matches!(self.fmt.alpha, AlphaMode::Premultiplied)
            && !(to.has_alpha && matches!(to.alpha, AlphaMode::Premultiplied));
        let repre = to.has_alpha && matches!(to.alpha, AlphaMode::Premultiplied)
            && !(self.fmt.has_alpha && matches!(self.fmt.alpha, AlphaMode::Premultiplied));
        let dec = matches!(self.fmt.gamma, GammaMode::Srgb) && matches!(to.gamma, GammaMode::Linear);
        let enc = matches!(self.fmt.gamma, GammaMode::Linear) && matches!(to.gamma, GammaMode::Srgb);
        let a_s = alpha_val(self);
        let a_d = rescale_chan(a_s, sp, dp);
        let native: (u16, u16, u16) = native_channels(self, to);
        let e0 = if enc {
            srgb_encode(native.0, dm)
        } else {
            native.0
        };
        let e1 = if enc {
            srgb_encode(native.1, dm)
        } else {
            native.1
        };
        let e2 = if enc {
            srgb_encode(native.2, dm)
        } else {
            native.2
        };
        let s0 = if repre {
            chan_mul(dm, e0, a_d)
        } else {
            e0
        };
        let s1 = if repre {
            chan_mul(dm, e1, a_d)
        } else {
            e1
        };
        let s2 = if repre {
            chan_mul(dm, e2, a_d)
        } else {
            e2
        };
        match to.model {
            ColorModel::Mask => Pixel::new(to, a_d, 0, 0, 0),
            ColorModel::Gray => Pixel::new(
                to,
                s0,
                if to.has_alpha {
                    a_d
                } else {
                    0
                },
                0,
                0,
            ),
            _ => Pixel::new(
                to,
                s0,
                s1,
                s2,
                if to.has_alpha {
                    a_d
                } else {
                    0
                },
            ),
        }
    }
}


/// Converting an RGB pixel with an opacity channel to hue-whiteness-
/// blackness of the same precision and back carries the opacity through
/// both conversions unchanged.
///
/// Hue, whiteness and blackness are derived from the color channels alone,
/// so the round trip can disturb only those; the opacity is copied exactly.
pub proof fn law_hwb_roundtrip_preserves_alpha(p: Pixel)
    requires
        p.wf(),
        p.fmt.model == ColorModel::Rgb,
        p.fmt.has_alpha,
        p.fmt.alpha == AlphaMode::Straight,
        p.fmt.gamma == GammaMode::Linear,
    ensures
        ({
            let hwba = Format {
                precision: p.fmt.precision,
                model: ColorModel::Hwb,
                alpha: AlphaMode::Straight,
                gamma: GammaMode::Linear,
                has_alpha: true,
            };
            convert_spec(convert_spec(p, hwba), p.fmt).c3 == p.c3
        }),
{
    let hwba = Format {
        precision: p.fmt.precision,
        model: ColorModel::Hwb,
        alpha: AlphaMode::Straight,
        gamma: GammaMode::Linear,
        has_alpha: true,
    };
    let q = convert_spec(p, hwba);
    assert(chan_at(p, 3) == p.c3 as int);
    assert(alpha_of(p) == p.c3 as int);
    assert(q.c3 == p.c3);
    assert(alpha_of(q) == q.c3 as int);
    assert(convert_spec(q, p.fmt).c3 == p.c3);
}

} // verus!


