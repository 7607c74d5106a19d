//! Color model conversion and gamma transfer.

use pix::gamma::{srgb_decode, srgb_encode};
use pix::hwb::{chan_div, chan_mul};
use pix::{AlphaMode, Ch8, Channel, ColorModel, Format, GammaMode, HwbModel, Pixel, Precision};

#[test]
fn hwb_to_rgb() {
    assert_eq!(
        Pixel::rgb8(127, 127, 127),
        Pixel::hwb8(0, 128, 128).convert(Format::rgb8())
    );
    assert_eq!(
        Pixel::rgb8(127, 127, 127),
        Pixel::hwb8(0, 255, 255).convert(Format::rgb8())
    );
    assert_eq!(
        Pixel::rgb8(85, 85, 85),
        Pixel::hwb8(0, 128, 255).convert(Format::rgb8())
    );
    assert_eq!(
        Pixel::rgb8(255, 0, 0),
        Pixel::hwb8(0, 0, 0).convert(Format::rgb8())
    );
    assert_eq!(
        Pixel::rgb8(0, 127, 0),
        Pixel::hwb16(21845, 0, 32768).convert(Format::rgb8())
    );
}

#[test]
fn rgb_to_hwb() {
    assert_eq!(
        Pixel::hwb8(0, 0, 0),
        Pixel::rgb8(255, 0, 0).convert(Format::hwb8())
    );
    assert_eq!(
        Pixel::hwb8(0, 64, 0),
        Pixel::rgb8(255, 64, 64).convert(Format::hwb8())
    );
    assert_eq!(
        Pixel::hwb16(21845, 8224, 0),
        Pixel::rgb8(32, 255, 32).convert(Format::hwb16())
    );
}

#[test]
fn hwb_roundtrip_within_tolerance() {
    // converting RGB to HWB and back reproduces the starting pixel within a few
    // units of rounding error
    for r in (0..=255u16).step_by(17) {
        for g in (0..=255u16).step_by(17) {
            for b in (0..=255u16).step_by(17) {
                let p = Pixel::rgb8(r as u8, g as u8, b as u8);
                let back = p.convert(Format::hwb8()).convert(Format::rgb8());
                let dr = (back.c0 as i32 - r as i32).abs();
                let dg = (back.c1 as i32 - g as i32).abs();
                let db = (back.c2 as i32 - b as i32).abs();
                assert!(dr <= 3 && dg <= 3 && db <= 3, "({},{},{}) -> {:?}", r, g, b, back);
            }
        }
    }
}

#[test]
fn hwb_black_pixel_is_defined() {
    // zero value: hue and whiteness collapse to zero, blackness to full
    assert_eq!(
        Pixel::hwb8(0, 0, 255),
        Pixel::rgb8(0, 0, 0).convert(Format::hwb8())
    );
}

#[test]
fn hwb_accessors() {
    let p = Pixel::hwb8(10, 20, 30);
    assert_eq!(HwbModel::hue(p), 10);
    assert_eq!(HwbModel::whiteness(p), 20);
    assert_eq!(HwbModel::blackness(p), 30);
    // overlapping whiteness and blackness rescale proportionally
    let q = Pixel::hwb8(0, 128, 128);
    assert_eq!(HwbModel::whiteness_blackness(q), (128, 128));
    let o = Pixel::hwb8(0, 255, 255);
    assert_eq!(HwbModel::whiteness_blackness(o), (128, 128));
}

#[test]
fn gamma_boundaries() {
    assert_eq!(srgb_encode(0, 255), 0);
    assert_eq!(srgb_encode(255, 255), 255);
    assert_eq!(srgb_decode(0, 255), 0);
    assert_eq!(srgb_decode(255, 255), 255);
    assert_eq!(srgb_encode(0, 65535), 0);
    assert_eq!(srgb_encode(65535, 65535), 65535);
    assert_eq!(srgb_decode(0, 65535), 0);
    assert_eq!(srgb_decode(65535, 65535), 65535);
}

#[test]
fn gamma_known_values() {
    // mid-gray: linear 55 of 255 encodes near one half
    assert_eq!(srgb_encode(55, 255), 128);
    assert_eq!(srgb_decode(128, 255), 55);
    assert_eq!(srgb_decode(32768, 65535), 14028);
    assert_eq!(srgb_encode(14027, 65535), 32768);
    // the curve lifts dark values strongly
    assert_eq!(srgb_encode(1, 255), 12);
    assert_eq!(srgb_decode(1, 255), 0);
}

#[test]
fn gamma_roundtrip_8bit() {
    for x in 0..=255u16 {
        let rt = srgb_decode(srgb_encode(x, 255), 255);
        assert!((rt as i32 - x as i32).abs() <= 2, "x={} rt={}", x, rt);
    }
}

#[test]
fn gamma_roundtrip_16bit() {
    for x in 0..=65535u16 {
        let rt = srgb_decode(srgb_encode(x, 65535), 65535);
        assert!((rt as i32 - x as i32).abs() <= 2, "x={} rt={}", x, rt);
    }
}

#[test]
fn gamma_monotonic() {
    // both curves are nondecreasing over their whole domain, in both
    // precisions
    for m in [255u16, 65535] {
        let mut prev_e = 0u16;
        let mut prev_d = 0u16;
        for x in 0..=m {
            let e = srgb_encode(x, m);
            let d = srgb_decode(x, m);
            assert!(e >= prev_e, "encode dips at x={} m={}", x, m);
            assert!(d >= prev_d, "decode dips at x={} m={}", x, m);
            prev_e = e;
            prev_d = d;
        }
    }
}

#[test]
fn gamma_channel_methods() {
    assert_eq!(Ch8::new(128), Ch8::new(55).encode_gamma());
    assert_eq!(Ch8::new(55), Ch8::new(128).decode_gamma());
    assert_eq!(Ch8::new(0), Ch8::new(0).encode_gamma());
    assert_eq!(Ch8::new(255), Ch8::new(255).decode_gamma());
}

#[test]
fn convert_same_format_is_identity() {
    let p = Pixel::srgb8(12, 200, 99);
    assert_eq!(p, p.convert(Format::srgb8()));
    let m = Pixel::mask16(0x1234);
    assert_eq!(m, m.convert(Format::mask16()));
}

#[test]
fn convert_widens_and_narrows_precision() {
    // widening replicates the byte; narrowing keeps the high byte
    let p = Pixel::srgb8(0x12, 0x00, 0xFF).convert(Format::srgb16());
    assert_eq!(p, Pixel::new(Format::srgb16(), 0x1212, 0x0000, 0xFFFF, 0));
    let q = p.convert(Format::srgb8());
    assert_eq!(q, Pixel::srgb8(0x12, 0x00, 0xFF));
}

#[test]
fn convert_gray_to_rgb_replicates() {
    let p = Pixel::gray8(0x42).convert(Format::rgb8());
    assert_eq!(p, Pixel::rgb8(0x42, 0x42, 0x42));
}

#[test]
fn convert_rgb_to_gray_takes_luma() {
    // high-definition luma coefficients, in gamma space when both share it
    let p = Pixel::srgb8(255, 0, 0).convert(Format::sgray8());
    assert_eq!(p, Pixel::sgray8(54));
    let w = Pixel::srgb8(255, 255, 255).convert(Format::sgray8());
    assert_eq!(w, Pixel::sgray8(255));
}

#[test]
fn convert_mask_replicates_opacity() {
    let p = Pixel::mask8(100).convert(Format::rgb8());
    assert_eq!(p, Pixel::rgb8(100, 100, 100));
    let m = Pixel::rgba8(1, 2, 3, 77).convert(Format::mask8());
    assert_eq!(m, Pixel::mask8(77));
}

#[test]
fn convert_premultiplied_roundtrip() {
    let p = Pixel::rgba8(255, 128, 0, 128);
    let pre = p.convert(Format::rgba8p());
    assert_eq!(
        pre,
        Pixel::new(Format::rgba8p(), 128, 64, 0, 128)
    );
    let back = pre.convert(Format::rgba8());
    assert_eq!(back, Pixel::rgba8(255, 128, 0, 128));
}

#[test]
fn convert_premultiplied_zero_alpha_is_defined() {
    // dividing by zero opacity yields zero color, not an error
    let pre = Pixel::new(Format::rgba8p(), 0, 0, 0, 0);
    let back = pre.convert(Format::rgba8());
    assert_eq!(back, Pixel::rgba8(0, 0, 0, 0));
}

#[test]
fn convert_gamma_decode_encode() {
    // sRGB to linear applies the transfer curve; linear to sRGB reverses it
    let lin = Pixel::srgb8(128, 128, 128).convert(Format::rgb8());
    assert_eq!(lin, Pixel::rgb8(55, 55, 55));
    let enc = lin.convert(Format::srgb8());
    assert_eq!(enc, Pixel::srgb8(128, 128, 128));
}

#[test]
fn channel_helpers_match_channels() {
    assert_eq!(chan_mul(255, 128, 128), 64);
    assert_eq!(chan_div(255, 64, 128), 128);
    assert_eq!(chan_mul(65535, 32768, 32768), 16384);
    assert_eq!(chan_div(65535, 16384, 32768), 32768);
}

#[test]
fn channel_min_max() {
    assert_eq!(Ch8::min_value(), Ch8::new(0));
    assert_eq!(Ch8::max_value(), Ch8::new(255));
}

#[test]
fn hwb_roundtrip_preserves_alpha() {
    let hwba8 = Format::new(
        Precision::Eight,
        ColorModel::Hwb,
        AlphaMode::Straight,
        GammaMode::Linear,
        true,
    );
    for alpha in [0u8, 1, 77, 200, 255] {
        let p = Pixel::rgba8(250, 10, 60, alpha);
        let back = p.convert(hwba8).convert(Format::rgba8());
        assert_eq!(back.c3, alpha as u16);
    }
}
