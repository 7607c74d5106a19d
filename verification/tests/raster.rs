//! Rasters, regions and compositing.

use pix::{Format, Pixel, Raster, RasterBuilder, Region};

#[test]
fn region_size() {
    assert_eq!(std::mem::size_of::<Region>(), 16);
}

#[test]
fn intersect() {
    let r = Region::new(0, 0, 5, 5);
    assert_eq!(r, Region::new(0, 0, 5, 5));
    assert_eq!(r, r.intersection(Region::new(0, 0, 10, 10)));
    assert_eq!(r, r.intersection(Region::new(-5, -5, 10, 10)));
    assert_eq!(
        Region::new(0, 0, 4, 4),
        r.intersection(Region::new(-1, -1, 5, 5))
    );
    assert_eq!(
        Region::new(1, 2, 1, 3),
        r.intersection(Region::new(1, 2, 1, 100))
    );
    assert_eq!(
        Region::new(2, 1, 3, 1),
        r.intersection(Region::new(2, 1, 100, 1))
    );
}

#[test]
fn intersect_commutes_and_disjoint_is_empty() {
    let a = Region::new(-3, 2, 10, 4);
    let b = Region::new(1, -5, 6, 20);
    assert_eq!(a.intersection(b), b.intersection(a));
    let c = Region::new(100, 100, 5, 5);
    let d = a.intersection(c);
    assert_eq!(d.width as i64 * d.height as i64, 0);
}

#[test]
fn with_buffer_rgb8() {
    let b = vec![
        0xAA, 0x00, 0x00, 0x00, 0x11, 0x22, 0x33, 0x44, 0x55, 0x00, 0xBB, 0x00, 0x66, 0x77, 0x88,
        0x99, 0xAA, 0xBB, 0x00, 0x00, 0xCC, 0xCC, 0xDD, 0xEE, 0xFF, 0x00, 0x11,
    ];
    let r = RasterBuilder::new(Format::srgb8()).with_u8_buffer(3, 3, b);
    let v = vec![
        Pixel::srgb8(0xAA, 0x00, 0x00),
        Pixel::srgb8(0x00, 0x11, 0x22),
        Pixel::srgb8(0x33, 0x44, 0x55),
        Pixel::srgb8(0x00, 0xBB, 0x00),
        Pixel::srgb8(0x66, 0x77, 0x88),
        Pixel::srgb8(0x99, 0xAA, 0xBB),
        Pixel::srgb8(0x00, 0x00, 0xCC),
        Pixel::srgb8(0xCC, 0xDD, 0xEE),
        Pixel::srgb8(0xFF, 0x00, 0x11),
    ];
    assert_eq!(r.pixels(), &v);
}

#[test]
fn with_buffer_graya16() {
    let b = vec![
        0x1001, 0x5005, 0x1000, 0x3002, 0x5004, 0x7006, 0x2002, 0x6006, 0x9008, 0xB00A, 0xD00C,
        0xF00E, 0x3003, 0x7007, 0xE00F, 0xC00D, 0xA00B, 0x8009,
    ];
    let r = RasterBuilder::new(Format::sgraya16()).with_u16_buffer(3, 3, b);
    let v = vec![
        Pixel::sgraya16(0x1001, 0x5005),
        Pixel::sgraya16(0x1000, 0x3002),
        Pixel::sgraya16(0x5004, 0x7006),
        Pixel::sgraya16(0x2002, 0x6006),
        Pixel::sgraya16(0x9008, 0xB00A),
        Pixel::sgraya16(0xD00C, 0xF00E),
        Pixel::sgraya16(0x3003, 0x7007),
        Pixel::sgraya16(0xE00F, 0xC00D),
        Pixel::sgraya16(0xA00B, 0x8009),
    ];
    assert_eq!(r.pixels(), &v);
}

#[test]
fn pixel_mut_mask8() {
    let mut r = RasterBuilder::new(Format::mask8()).with_clear(3, 3);
    r.pixel_mut(0, 0, Pixel::mask8(0xFF));
    r.pixel_mut(2, 0, Pixel::mask8(0x12));
    r.pixel_mut(1, 1, Pixel::mask8(0x34));
    r.pixel_mut(0, 2, Pixel::mask8(0x56));
    r.pixel_mut(2, 2, Pixel::mask8(0x78));
    let v = vec![
        Pixel::mask8(0xFF),
        Pixel::mask8(0x00),
        Pixel::mask8(0x12),
        Pixel::mask8(0x00),
        Pixel::mask8(0x34),
        Pixel::mask8(0x00),
        Pixel::mask8(0x56),
        Pixel::mask8(0x00),
        Pixel::mask8(0x78),
    ];
    assert_eq!(r.pixels(), &v);
}

#[test]
fn pixel_mut_mask16() {
    let mut r = RasterBuilder::new(Format::mask16()).with_clear(3, 3);
    r.pixel_mut(2, 0, Pixel::mask16(0x9ABC));
    r.pixel_mut(1, 1, Pixel::mask16(0x5678));
    r.pixel_mut(0, 2, Pixel::mask16(0x1234));
    r.pixel_mut(0, 0, Pixel::mask16(0xFFFF));
    r.pixel_mut(2, 2, Pixel::mask16(0x8080));
    let v = vec![
        Pixel::mask16(0xFFFF),
        Pixel::mask16(0x0000),
        Pixel::mask16(0x9ABC),
        Pixel::mask16(0x0000),
        Pixel::mask16(0x5678),
        Pixel::mask16(0x0000),
        Pixel::mask16(0x1234),
        Pixel::mask16(0x0000),
        Pixel::mask16(0x8080),
    ];
    assert_eq!(r.pixels(), &v);
}

#[test]
fn raster_with_color() {
    let r = RasterBuilder::new(Format::hwb8()).with_color(3, 3, Pixel::hwb8(0x80, 0, 0));
    let v = vec![Pixel::hwb8(0x80, 0, 0); 9];
    assert_eq!(r.pixels(), &v);
}

#[test]
fn compose_color_gray8() {
    let mut r = RasterBuilder::new(Format::sgray8()).with_clear(3, 3);
    r.compose_color(Region::new(0, 0, 1, 1), Pixel::sgray8(0x23));
    r.compose_color(Region::new(10, 10, 1, 1), Pixel::sgray8(0x45));
    r.compose_color(Region::new(1, 1, 10, 10), Pixel::sgray8(0xBB));
    let v = vec![
        Pixel::sgray8(0x23),
        Pixel::sgray8(0),
        Pixel::sgray8(0),
        Pixel::sgray8(0),
        Pixel::sgray8(0xBB),
        Pixel::sgray8(0xBB),
        Pixel::sgray8(0),
        Pixel::sgray8(0xBB),
        Pixel::sgray8(0xBB),
    ];
    assert_eq!(r.pixels(), &v);
}

#[test]
fn compose_color_srgb8() {
    let mut r = RasterBuilder::new(Format::srgb8()).with_clear(3, 3);
    r.compose_color(Region::new(2, -1, 3, 4), Pixel::srgb8(0xCC, 0xAA, 0xBB));
    let v = vec![
        Pixel::srgb8(0, 0, 0),
        Pixel::srgb8(0, 0, 0),
        Pixel::srgb8(0xCC, 0xAA, 0xBB),
        Pixel::srgb8(0, 0, 0),
        Pixel::srgb8(0, 0, 0),
        Pixel::srgb8(0xCC, 0xAA, 0xBB),
        Pixel::srgb8(0, 0, 0),
        Pixel::srgb8(0, 0, 0),
        Pixel::srgb8(0xCC, 0xAA, 0xBB),
    ];
    assert_eq!(r.pixels(), &v);
}

#[test]
fn compose_raster_gray() {
    let mut g0 = RasterBuilder::new(Format::gray8()).with_clear(3, 3);
    let g1 = RasterBuilder::new(Format::gray8()).with_color(3, 3, Pixel::gray8(0x40));
    let g2 = RasterBuilder::new(Format::gray8()).with_color(3, 3, Pixel::gray8(0x60));
    let g3 = RasterBuilder::new(Format::gray8()).with_color(3, 3, Pixel::gray8(0x80));
    g0.compose_raster(Region::new(-1, 2, 3, 3), &g1, Region::all());
    g0.compose_raster(Region::new(2, -1, 3, 3), &g2, Region::all());
    g0.compose_raster(Region::new(-2, -2, 3, 3), &g3, Region::all());
    let v = vec![
        Pixel::gray8(0x80),
        Pixel::gray8(0x00),
        Pixel::gray8(0x60),
        Pixel::gray8(0x00),
        Pixel::gray8(0x00),
        Pixel::gray8(0x60),
        Pixel::gray8(0x40),
        Pixel::gray8(0x40),
        Pixel::gray8(0x00),
    ];
    assert_eq!(g0.pixels(), &v);
}

#[test]
fn compose_raster_rgb() {
    let mut rgb = RasterBuilder::new(Format::srgb8()).with_clear(3, 3);
    let gray = RasterBuilder::new(Format::sgray16()).with_color(3, 3, Pixel::sgray16(0x8000));
    rgb.compose_raster(Region::all(), &gray, Region::new(0, 1, 3, 3));
    let mut v = vec![Pixel::srgb8(0x80, 0x80, 0x80); 6];
    v.extend_from_slice(&vec![Pixel::srgb8(0, 0, 0); 3]);
    assert_eq!(rgb.pixels(), &v);
}

#[test]
fn compose_raster_outside_is_noop() {
    // a destination region entirely outside the raster changes nothing
    let mut r = RasterBuilder::new(Format::gray8()).with_color(3, 3, Pixel::gray8(0x11));
    let src = RasterBuilder::new(Format::gray8()).with_color(3, 3, Pixel::gray8(0xEE));
    r.compose_raster(Region::new(10, 10, 3, 3), &src, Region::all());
    r.compose_raster(Region::new(-10, -10, 3, 3), &src, Region::all());
    let v = vec![Pixel::gray8(0x11); 9];
    assert_eq!(r.pixels(), &v);
}

#[test]
fn compose_raster_negative_origin_copies_overlap() {
    // a 3-by-3 pattern placed at (-1,-1): exactly the bottom-right 2-by-2 of
    // the source lands at the top-left 2-by-2 of the destination
    let pat: Vec<Pixel> = (1..=9u8).map(|v| Pixel::gray8(v)).collect();
    let src = RasterBuilder::new(Format::gray8()).with_pixels(3, 3, pat);
    let mut dst = RasterBuilder::new(Format::gray8()).with_clear(3, 3);
    dst.compose_raster(Region::new(-1, -1, 3, 3), &src, Region::all());
    let v = vec![
        Pixel::gray8(5),
        Pixel::gray8(6),
        Pixel::gray8(0),
        Pixel::gray8(8),
        Pixel::gray8(9),
        Pixel::gray8(0),
        Pixel::gray8(0),
        Pixel::gray8(0),
        Pixel::gray8(0),
    ];
    assert_eq!(dst.pixels(), &v);
}

#[test]
fn with_raster_rgb() {
    let r = RasterBuilder::new(Format::srgb8()).with_clear(50, 50);
    let _ = RasterBuilder::new(Format::srgb16()).with_raster(&r);
    let _ = RasterBuilder::new(Format::srgba8()).with_raster(&r);
    let _ = RasterBuilder::new(Format::srgba16()).with_raster(&r);
    let _ = RasterBuilder::new(Format::sgray8()).with_raster(&r);
    let _ = RasterBuilder::new(Format::sgray16()).with_raster(&r);
    let _ = RasterBuilder::new(Format::sgraya8()).with_raster(&r);
    let _ = RasterBuilder::new(Format::sgraya16()).with_raster(&r);
    let _ = RasterBuilder::new(Format::mask8()).with_raster(&r);
    let _ = RasterBuilder::new(Format::mask16()).with_raster(&r);
}

#[test]
fn with_raster_mask8() {
    let r = RasterBuilder::new(Format::mask8()).with_clear(50, 50);
    let _ = RasterBuilder::new(Format::srgb8()).with_raster(&r);
    let _ = RasterBuilder::new(Format::srgb16()).with_raster(&r);
    let _ = RasterBuilder::new(Format::srgba8()).with_raster(&r);
    let _ = RasterBuilder::new(Format::srgba16()).with_raster(&r);
    let _ = RasterBuilder::new(Format::sgray8()).with_raster(&r);
    let _ = RasterBuilder::new(Format::sgray16()).with_raster(&r);
    let _ = RasterBuilder::new(Format::sgraya8()).with_raster(&r);
    let _ = RasterBuilder::new(Format::sgraya16()).with_raster(&r);
    let _ = RasterBuilder::new(Format::mask8()).with_raster(&r);
    let _ = RasterBuilder::new(Format::mask16()).with_raster(&r);
}

#[test]
fn with_raster_converts() {
    let r = RasterBuilder::new(Format::gray8()).with_color(2, 2, Pixel::gray8(0x42));
    let rgb = RasterBuilder::new(Format::rgb8()).with_raster(&r);
    assert_eq!(rgb.pixel(1, 1), Pixel::rgb8(0x42, 0x42, 0x42));
    assert_eq!(rgb.width(), 2);
    assert_eq!(rgb.height(), 2);
}

#[test]
fn buffer_roundtrip_bytes() {
    // encoding a raster back to bytes reproduces the buffer it came from
    let b: Vec<u8> = (0..27u8).collect();
    let r = RasterBuilder::new(Format::rgb8()).with_u8_buffer(3, 3, b.clone());
    assert_eq!(r.as_u8_slice(), b);
}

#[test]
fn buffer_16bit_bytes_are_little_endian() {
    let r = RasterBuilder::new(Format::mask16()).with_u16_buffer(2, 1, vec![0x1234, 0xABCD]);
    assert_eq!(r.as_u8_slice(), vec![0x34, 0x12, 0xCD, 0xAB]);
}

#[test]
fn try_with_u8_buffer_checks_length() {
    // every mismatched size is rejected, the exact size accepted
    for len in [0usize, 1, 8, 11, 13, 26, 28, 100] {
        let b = vec![0u8; len];
        assert!(
            RasterBuilder::new(Format::rgb8()).try_with_u8_buffer(2, 2, b).is_none(),
            "len={}",
            len
        );
    }
    let good = RasterBuilder::new(Format::rgb8()).try_with_u8_buffer(2, 2, vec![0u8; 12]);
    assert!(good.is_some());
    assert!(RasterBuilder::new(Format::mask16())
        .try_with_u8_buffer(2, 2, vec![0u8; 8])
        .is_none());
}

#[test]
fn clear_resets_pixels() {
    let mut r = RasterBuilder::new(Format::gray8()).with_color(2, 2, Pixel::gray8(9));
    r.clear();
    assert_eq!(r.pixels(), &vec![Pixel::gray8(0); 4]);
}

#[test]
fn rows_walks_top_to_bottom() {
    let pat: Vec<Pixel> = (1..=6u8).map(|v| Pixel::gray8(v)).collect();
    let r = RasterBuilder::new(Format::gray8()).with_pixels(3, 2, pat);
    let mut rows = r.rows();
    let r0 = rows.next().unwrap();
    assert_eq!(r0, &[Pixel::gray8(1), Pixel::gray8(2), Pixel::gray8(3)][..]);
    let r1 = rows.next().unwrap();
    assert_eq!(r1, &[Pixel::gray8(4), Pixel::gray8(5), Pixel::gray8(6)][..]);
    assert!(rows.next().is_none());
}

#[test]
fn region_accessor_of_raster() {
    let r = RasterBuilder::new(Format::gray8()).with_clear(4, 7);
    assert_eq!(r.region(), Region::new(0, 0, 4, 7));
}

#[test]
fn pixels_mut_replaces_buffer() {
    let mut r = RasterBuilder::new(Format::gray8()).with_clear(2, 1);
    r.pixels_mut(vec![Pixel::gray8(3), Pixel::gray8(4)]);
    assert_eq!(r.pixel(0, 0), Pixel::gray8(3));
    assert_eq!(r.pixel(1, 0), Pixel::gray8(4));
}

#[test]
fn rows_mut_edits_one_row() {
    let r = RasterBuilder::new(Format::gray8()).with_clear(3, 2);
    let mut rm = r.rows_mut();
    let row = vec![Pixel::gray8(7), Pixel::gray8(8), Pixel::gray8(9)];
    rm.set_row(1, &row);
    assert_eq!(rm.row(0), vec![Pixel::gray8(0); 3]);
    assert_eq!(rm.row(1), row);
    let back = rm.into_raster();
    assert_eq!(back.pixel(2, 1), Pixel::gray8(9));
}

#[test]
fn pixels_roundtrip_ownership() {
    let p = vec![Pixel::srgb8(255, 0, 255); 16];
    let r = RasterBuilder::new(Format::srgb8()).with_pixels(4, 4, p.clone());
    let back: Vec<Pixel> = r.into_pixels();
    assert_eq!(back, p);
}

#[test]
fn compose_raster_shifted_window_clips() {
    // a negative source origin shifts the destination window right; the part
    // pushed past the destination's edge copies nothing
    let pat: Vec<Pixel> = (1..=9u8).map(|v| Pixel::gray8(v)).collect();
    let src = RasterBuilder::new(Format::gray8()).with_pixels(3, 3, pat);
    let mut dst = RasterBuilder::new(Format::gray8()).with_clear(3, 3);
    dst.compose_raster(Region::new(0, 0, 3, 3), &src, Region::new(-2, 0, 5, 3));
    let v = vec![
        Pixel::gray8(0),
        Pixel::gray8(0),
        Pixel::gray8(1),
        Pixel::gray8(0),
        Pixel::gray8(0),
        Pixel::gray8(4),
        Pixel::gray8(0),
        Pixel::gray8(0),
        Pixel::gray8(7),
    ];
    assert_eq!(dst.pixels(), &v);
}

#[test]
fn try_with_u16_buffer_checks_length() {
    for len in [0usize, 1, 3, 5, 7, 9, 100] {
        let b = vec![0u16; len];
        assert!(
            RasterBuilder::new(Format::mask16()).try_with_u16_buffer(2, 2, b).is_none(),
            "len={}",
            len
        );
    }
    let good = RasterBuilder::new(Format::mask16()).try_with_u16_buffer(2, 2, vec![7u16; 4]);
    assert_eq!(good.unwrap().pixel(1, 1), Pixel::mask16(7));
    // an 8-bit format never accepts a 16-bit buffer
    assert!(RasterBuilder::new(Format::mask8())
        .try_with_u16_buffer(2, 2, vec![0u16; 4])
        .is_none());
}
