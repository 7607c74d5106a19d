//! Raster images and region-based compositing.
//!
//! A raster is a rectangular array of pixels of one fixed format.  Regions
//! are axis-aligned rectangles used to clip every compositing operation;
//! composing one raster onto another clips both sides independently, keeps
//! the two origins aligned, and converts each copied pixel into the
//! destination's format on the fly.

use crate::pixel::{
    chan_at, chan_count, convert_spec, default_pixel, fmt_wf, pixel_bytes_spec, ColorModel, Format,
    Pixel, Precision,
};
use vstd::pervasive::VecAdditionalExecFns;
use vstd::prelude::*;

verus! {

/// Location and dimensions of pixels relative to a [`Raster`].
///
/// The width and height are never negative; a computed negative width
/// collapses to an empty region.
#[derive(Clone, Copy, Debug, PartialEq, Eq, Structural)]
pub struct Region {
    pub x: i32,
    pub y: i32,
    pub width: i32,
    pub height: i32,
}

/// A dimension taken from a difference: negative or oversized values
/// collapse to zero.
pub open spec fn clamp_dim(w: int) -> int {
    if 0 <= w <= 0x7fffffff {
        w
    } else {
        0
    }
}

/// The right edge of a region, saturating at the greatest coordinate.
pub open spec fn right_spec(r: Region) -> int {
    if r.x + r.width > 0x7fffffff {
        0x7fffffff
    } else {
        r.x + r.width
    }
}

/// The bottom edge of a region, saturating at the greatest coordinate.
pub open spec fn bottom_spec(r: Region) -> int {
    if r.y + r.height > 0x7fffffff {
        0x7fffffff
    } else {
        r.y + r.height
    }
}

/// What [`Region::intersection`] returns: the largest rectangle contained
/// in both arguments, with an empty dimension where they do not overlap.
pub open spec fn region_intersect_spec(a: Region, b: Region) -> Region {
    let x0 = if a.x >= b.x {
        a.x as int
    } else {
        b.x as int
    };
    let x1 = if right_spec(a) <= right_spec(b) {
        right_spec(a)
    } else {
        right_spec(b)
    };
    let y0 = if a.y >= b.y {
        a.y as int
    } else {
        b.y as int
    };
    let y1 = if bottom_spec(a) <= bottom_spec(b) {
        bottom_spec(a)
    } else {
        bottom_spec(b)
    };
    Region {
        x: x0 as i32,
        y: y0 as i32,
        width: clamp_dim(x1 - x0) as i32,
        height: clamp_dim(y1 - y0) as i32,
    }
}

/// The area of a region, in pixels.
pub open spec fn area_spec(r: Region) -> int {
    r.width * r.height
}

impl Region {
    /// A region is well formed when its dimensions are nonnegative.
    pub open spec fn wf(self) -> bool {
        self.width >= 0 && self.height >= 0
    }

    /// Create a new region.
    ///
    /// A width or height beyond the greatest coordinate collapses to zero.
    pub fn new(x: i32, y: i32, width: u32, height: u32) -> (r: Region)
        ensures
            r.x == x && r.y == y,
            r.width as int == clamp_dim(width as int),
            r.height as int == clamp_dim(height as int),
            r.wf(),
    {
        let w: i32 = if width <= 0x7fffffff {
            width as i32
        } else {
            0
        };
        let h: i32 = if height <= 0x7fffffff {
            height as i32
        } else {
            0
        };
        Region { x, y, width: w, height: h }
    }

    /// The region that covers any raster whole.
    pub fn all() -> (r: Region)
        ensures
            r == (Region { x: 0, y: 0, width: 0x7fffffff, height: 0x7fffffff }),
            r.wf(),
    {
        Region { x: 0, y: 0, width: 0x7fffffff, height: 0x7fffffff }
    }

    /// The right edge, saturating at the greatest coordinate.
    pub fn right(self) -> (r: i32)
        requires
            self.wf(),
        ensures
            r as int == right_spec(self),
    {
        let s: i64 = self.x as i64 + self.width as i64;
        if s > 0x7fffffff {
            0x7fffffff
        } else {
            s as i32
        }
    }

    /// The bottom edge, saturating at the greatest coordinate.
    pub fn bottom(self) -> (r: i32)
        requires
            self.wf(),
        ensures
            r as int == bottom_spec(self),
    {
        let s: i64 = self.y as i64 + self.height as i64;
        if s > 0x7fffffff {
            0x7fffffff
        } else {
            s as i32
        }
    }

    /// Get the intersection with another region.
    pub fn intersection(self, rhs: Region) -> (r: Region)
        requires
            self.wf(),
            rhs.wf(),
        ensures
            r == region_intersect_spec(self, rhs),
            r.wf(),
    {
        let x0: i32 = if self.x >= rhs.x {
            self.x
        } else {
            rhs.x
        };
        let sr = self.right();
        let rr = rhs.right();
        let x1: i32 = if sr <= rr {
            sr
        } else {
            rr
        };
        let y0: i32 = if self.y >= rhs.y {
            self.y
        } else {
            rhs.y
        };
        let sb = self.bottom();
        let rb = rhs.bottom();
        let y1: i32 = if sb <= rb {
            sb
        } else {
            rb
        };
        let wd: i64 = x1 as i64 - x0 as i64;
        let hd: i64 = y1 as i64 - y0 as i64;
        let w: i32 = if 0 <= wd && wd <= 0x7fffffff {
            wd as i32
        } else {
            0
        };
        let h: i32 = if 0 <= hd && hd <= 0x7fffffff {
            hd as i32
        } else {
            0
        };
        Region { x: x0, y: y0, width: w, height: h }
    }
}

/// Intersecting two regions gives the same rectangle in either order.
pub proof fn law_intersection_commutative(a: Region, b: Region)
    ensures
        region_intersect_spec(a, b) == region_intersect_spec(b, a),
{
}

/// Intersecting two disjoint regions gives a rectangle of zero area.
pub proof fn law_intersection_disjoint(a: Region, b: Region)
    requires
        a.wf(),
        b.wf(),
        right_spec(a) <= b.x || right_spec(b) <= a.x || bottom_spec(a) <= b.y || bottom_spec(b)
            <= a.y,
    ensures
        area_spec(region_intersect_spec(a, b)) == 0,
{
    let r = region_intersect_spec(a, b);
    assert(r.width == 0 || r.height == 0);
}


/// Image arranged as a rectangular array of pixels of one format.
pub struct Raster {
    fmt: Format,
    width: i32,
    height: i32,
    pixels: Vec<Pixel>,
}

/// Builder for [`Raster`] images.
///
/// After creating a `RasterBuilder` for a pixel format, finish building a
/// `Raster` with one of the `with_` methods.
pub struct RasterBuilder {
    fmt: Format,
}

/// The flat index of a pixel coordinate in row-major order.
pub open spec fn idx_spec(w: int, x: int, y: int) -> int {
    y * w + x
}

/// A row-major index stays within the pixel count, and decomposes uniquely
/// into its coordinates.
pub proof fn lemma_idx(w: int, h: int, x: int, y: int)
    requires
        0 <= x < w,
        0 <= y < h,
    ensures
        0 <= idx_spec(w, x, y) < w * h,
        forall|x2: int, y2: int|
            0 <= x2 < w && 0 <= y2 < h && #[trigger] idx_spec(w, x2, y2) == idx_spec(w, x, y)
                ==> x2 == x && y2 == y,
{
    assert(0 <= y * w + x < w * h) by (nonlinear_arith)
        requires
            0 <= x < w && 0 <= y < h,
    ;
    assert forall|x2: int, y2: int|
        0 <= x2 < w && 0 <= y2 < h && #[trigger] idx_spec(w, x2, y2) == idx_spec(w, x, y)
        implies x2 == x && y2 == y by {
        assert(x2 == x && y2 == y) by (nonlinear_arith)
            requires
                0 <= x < w && 0 <= x2 < w && 0 <= y && 0 <= y2 && y2 * w + x2 == y * w + x,
        ;
    }
}

impl Raster {
    /// The pixel format of this raster.
    pub closed spec fn fmt_spec(&self) -> Format {
        self.fmt
    }

    /// The width, as a mathematical integer.
    pub closed spec fn w_spec(&self) -> int {
        self.width as int
    }

    /// The height, as a mathematical integer.
    pub closed spec fn h_spec(&self) -> int {
        self.height as int
    }

    /// The pixel buffer, as a sequence in row-major order.
    pub closed spec fn s(&self) -> Seq<Pixel> {
        self.pixels@
    }

    /// The pixel at a coordinate.
    pub open spec fn pix(&self, x: int, y: int) -> Pixel {
        self.s()[idx_spec(self.w_spec(), x, y)]
    }

    /// Well-formedness: a well-formed format, nonnegative dimensions whose
    /// product fits the coordinate space, exactly one pixel per coordinate,
    /// and every pixel well formed in the raster's own format.
    pub open spec fn wf(&self) -> bool {
        &&& fmt_wf(self.fmt_spec())
        &&& 0 <= self.w_spec()
        &&& 0 <= self.h_spec()
        &&& self.w_spec() * self.h_spec() <= 0x7fffffff
        &&& self.s().len() == self.w_spec() * self.h_spec()
        &&& forall|i: int|
            0 <= i < self.s().len() ==> (#[trigger] self.s()[i]).wf() && self.s()[i].fmt
                == self.fmt_spec()
    }

    /// Get the width.
    pub fn width(&self) -> (r: u32)
        requires
            self.wf(),
        ensures
            r as int == self.w_spec(),
    {
        self.width as u32
    }

    /// Get the height.
    pub fn height(&self) -> (r: u32)
        requires
            self.wf(),
        ensures
            r as int == self.h_spec(),
    {
        self.height as u32
    }

    /// The pixel format.
    pub fn format(&self) -> (r: Format)
        ensures
            r == self.fmt_spec(),
    {
        self.fmt
    }

    /// Get a reference to all pixels, in row-major order.
    pub fn pixels(&self) -> (r: &Vec<Pixel>)
        ensures
            r@ == self.s(),
    {
        &self.pixels
    }

    /// Take the pixel data back out of the raster.
    pub fn into_pixels(self) -> (r: Vec<Pixel>)
        ensures
            r@ == self.s(),
    {
        self.pixels
    }

    /// Replace the whole pixel buffer.
    ///
    /// This is the mutable counterpart of [`Raster::pixels`]: the new buffer
    /// must hold exactly one well-formed pixel of the raster's format per
    /// coordinate.
    pub fn pixels_mut(&mut self, pixels: Vec<Pixel>)
        requires
            old(self).wf(),
            pixels@.len() == old(self).w_spec() * old(self).h_spec(),
            forall|i: int|
                0 <= i < pixels@.len() ==> (#[trigger] pixels@[i]).wf() && pixels@[i].fmt == old(
                    self,
                ).fmt_spec(),
        ensures
            final(self).wf(),
            final(self).fmt_spec() == old(self).fmt_spec(),
            final(self).w_spec() == old(self).w_spec(),
            final(self).h_spec() == old(self).h_spec(),
            final(self).s() == pixels@,
    {
        self.pixels = pixels;
    }

    /// Get one pixel.
    pub fn pixel(&self, x: i32, y: i32) -> (r: Pixel)
        requires
            self.wf(),
            0 <= x < self.w_spec(),
            0 <= y < self.h_spec(),
        ensures
            r == self.pix(x as int, y as int),
            r.wf(),
            r.fmt == self.fmt_spec(),
    {
        proof {
            lemma_idx(self.w_spec(), self.h_spec(), x as int, y as int);
        }
        let i: usize = (y as usize) * (self.width as usize) + (x as usize);
        self.pixels[i]
    }

    /// Set one pixel.
    ///
    /// The pixel must already be in the raster's format.
    pub fn pixel_mut(&mut self, x: i32, y: i32, p: Pixel)
        requires
            old(self).wf(),
            0 <= x < old(self).w_spec(),
            0 <= y < old(self).h_spec(),
            p.wf(),
            p.fmt == old(self).fmt_spec(),
        ensures
            final(self).wf(),
            final(self).fmt_spec() == old(self).fmt_spec(),
            final(self).w_spec() == old(self).w_spec(),
            final(self).h_spec() == old(self).h_spec(),
            final(self).s() == old(self).s().update(
                idx_spec(old(self).w_spec(), x as int, y as int),
                p,
            ),
            final(self).pix(x as int, y as int) == p,
    {
        proof {
            lemma_idx(self.w_spec(), self.h_spec(), x as int, y as int);
        }
        let i: usize = (y as usize) * (self.width as usize) + (x as usize);
        self.pixels.set(i, p);
    }

    /// Clear all pixels to the format's default (all channels zero).
    pub fn clear(&mut self)
        requires
            old(self).wf(),
        ensures
            final(self).wf(),
            final(self).fmt_spec() == old(self).fmt_spec(),
            final(self).w_spec() == old(self).w_spec(),
            final(self).h_spec() == old(self).h_spec(),
            final(self).s().len() == old(self).s().len(),
            forall|i: int|
                0 <= i < final(self).s().len() ==> #[trigger] final(self).s()[i] == default_pixel(
                    old(self).fmt_spec(),
                ),
    {
        let n: usize = self.pixels.len();
        let mut v: Vec<Pixel> = Vec::new();
        let d = Pixel::default_for(self.fmt);
        while v.len() < n
            invariant
                v@.len() <= n,
                d == default_pixel(self.fmt),
                d.wf(),
                forall|i: int| 0 <= i < v@.len() ==> #[trigger] v@[i] == d,
            decreases n - v.len(),
        {
            v.push(d);
        }
        self.pixels = v;
    }

    /// Get the region covering the entire raster.
    pub fn region(&self) -> (r: Region)
        requires
            self.wf(),
        ensures
            r == (Region {
                x: 0,
                y: 0,
                width: self.w_spec() as i32,
                height: self.h_spec() as i32,
            }),
            r.wf(),
    {
        Region { x: 0, y: 0, width: self.width, height: self.height }
    }

    /// Clip a region to this raster's bounds.
    pub fn intersection(&self, reg: Region) -> (r: Region)
        requires
            self.wf(),
            reg.wf(),
        ensures
            r == raster_clip_spec(self.w_spec(), self.h_spec(), reg),
            r.wf(),
    {
        let x0: i32 = if reg.x >= 0 {
            reg.x
        } else {
            0
        };
        let rr = reg.right();
        let x1: i32 = if rr <= self.width {
            rr
        } else {
            self.width
        };
        let w: i32 = if x1 >= x0 {
            x1 - x0
        } else {
            0
        };
        let y0: i32 = if reg.y >= 0 {
            reg.y
        } else {
            0
        };
        let rb = reg.bottom();
        let y1: i32 = if rb <= self.height {
            rb
        } else {
            self.height
        };
        let h: i32 = if y1 >= y0 {
            y1 - y0
        } else {
            0
        };
        Region { x: x0, y: y0, width: w, height: h }
    }
}

/// What [`Raster::intersection`] returns: the region clipped to the bounds
/// of a raster of the given width and height.
pub open spec fn raster_clip_spec(w: int, h: int, reg: Region) -> Region {
    let x0 = if reg.x >= 0 {
        reg.x as int
    } else {
        0
    };
    let x1 = if right_spec(reg) <= w {
        right_spec(reg)
    } else {
        w
    };
    let y0 = if reg.y >= 0 {
        reg.y as int
    } else {
        0
    };
    let y1 = if bottom_spec(reg) <= h {
        bottom_spec(reg)
    } else {
        h
    };
    Region {
        x: x0 as i32,
        y: y0 as i32,
        width: (if x1 >= x0 {
            x1 - x0
        } else {
            0
        }) as i32,
        height: (if y1 >= y0 {
            y1 - y0
        } else {
            0
        }) as i32,
    }
}

impl RasterBuilder {
    /// Create a new raster builder for a pixel format.
    pub fn new(fmt: Format) -> (r: RasterBuilder)
        requires
            fmt_wf(fmt),
        ensures
            r.fmt_spec() == fmt,
            fmt_wf(r.fmt_spec()),
    {
        RasterBuilder { fmt }
    }

    /// The pixel format this builder builds.
    pub closed spec fn fmt_spec(&self) -> Format {
        self.fmt
    }

    /// Build a raster with all pixels set to the format's default value.
    pub fn with_clear(self, width: u32, height: u32) -> (r: Raster)
        requires
            fmt_wf(self.fmt_spec()),
            width <= 0x7fffffff,
            height <= 0x7fffffff,
            width as int * height as int <= 0x7fffffff,
        ensures
            r.wf(),
            r.fmt_spec() == self.fmt_spec(),
            r.w_spec() == width as int,
            r.h_spec() == height as int,
            forall|i: int|
                0 <= i < r.s().len() ==> #[trigger] r.s()[i] == default_pixel(self.fmt_spec()),
    {
        let fmt = self.fmt;
        self.with_color(width, height, Pixel::default_for(fmt))
    }

    /// Build a raster with all pixels set to one color.
    pub fn with_color(self, width: u32, height: u32, clr: Pixel) -> (r: Raster)
        requires
            fmt_wf(self.fmt_spec()),
            width <= 0x7fffffff,
            height <= 0x7fffffff,
            width as int * height as int <= 0x7fffffff,
            clr.wf(),
            clr.fmt == self.fmt_spec(),
        ensures
            r.wf(),
            r.fmt_spec() == self.fmt_spec(),
            r.w_spec() == width as int,
            r.h_spec() == height as int,
            forall|i: int| 0 <= i < r.s().len() ==> #[trigger] r.s()[i] == clr,
    {
        proof {
            assert(width as int <= width as int * height as int || height == 0)
                by (nonlinear_arith);
            assert(height as int <= width as int * height as int || width == 0)
                by (nonlinear_arith);
        }
        let w: i32 = width as i32;
        let h: i32 = height as i32;
        let n: usize = (width as usize) * (height as usize);
        let mut v: Vec<Pixel> = Vec::new();
        while v.len() < n
            invariant
                v@.len() <= n,
                clr.wf(),
                forall|i: int| 0 <= i < v@.len() ==> #[trigger] v@[i] == clr,
            decreases n - v.len(),
        {
            v.push(clr);
        }
        Raster { fmt: self.fmt, width: w, height: h, pixels: v }
    }

    /// Build a raster with owned pixel data.
    ///
    /// The data must hold exactly `width * height` well-formed pixels of the
    /// builder's format, in row-major order.
    pub fn with_pixels(self, width: u32, height: u32, pixels: Vec<Pixel>) -> (r: Raster)
        requires
            fmt_wf(self.fmt_spec()),
            width <= 0x7fffffff,
            height <= 0x7fffffff,
            width as int * height as int <= 0x7fffffff,
            pixels@.len() == width as int * height as int,
            forall|i: int|
                0 <= i < pixels@.len() ==> (#[trigger] pixels@[i]).wf() && pixels@[i].fmt
                    == self.fmt_spec(),
        ensures
            r.wf(),
            r.fmt_spec() == self.fmt_spec(),
            r.w_spec() == width as int,
            r.h_spec() == height as int,
            r.s() == pixels@,
    {
        proof {
            assert(width as int <= width as int * height as int || height == 0)
                by (nonlinear_arith);
            assert(height as int <= width as int * height as int || width == 0)
                by (nonlinear_arith);
            if height == 0 || width == 0 {
                assert(width as int * height as int == 0) by (nonlinear_arith)
                    requires
                        width == 0 || height == 0,
                ;
            }
        }
        Raster { fmt: self.fmt, width: width as i32, height: height as i32, pixels }
    }
}


/// Whether a coordinate lies inside a region.
pub open spec fn in_region(r: Region, x: int, y: int) -> bool {
    r.x <= x < r.x + r.width && r.y <= y < r.y + r.height
}

impl Raster {
    /// Fill a region with one color.
    ///
    /// The region is clipped to the raster's bounds and the color is
    /// converted to the raster's format before storing; pixels outside the
    /// clipped region keep their value.
    pub fn compose_color(&mut self, reg: Region, clr: Pixel)
        requires
            old(self).wf(),
            reg.wf(),
            clr.wf(),
        ensures
            final(self).wf(),
            final(self).fmt_spec() == old(self).fmt_spec(),
            final(self).w_spec() == old(self).w_spec(),
            final(self).h_spec() == old(self).h_spec(),
            forall|x: int, y: int|
                0 <= x < old(self).w_spec() && 0 <= y < old(self).h_spec()
                    ==> #[trigger] final(self).pix(x, y) == (if in_region(
                    raster_clip_spec(old(self).w_spec(), old(self).h_spec(), reg),
                    x,
                    y,
                ) {
                    convert_spec(clr, old(self).fmt_spec())
                } else {
                    old(self).pix(x, y)
                }),
    {
        let ghost w = self.w_spec();
        let ghost h = self.h_spec();
        let ghost fmt = self.fmt_spec();
        let ghost olds = *self;
        let rr = self.intersection(reg);
        let ghost rrs = raster_clip_spec(w, h, reg);
        if rr.width > 0 && rr.height > 0 {
            proof {
                assert(rr.x >= 0 && rr.y >= 0 && rr.x + rr.width <= w && rr.y + rr.height <= h);
            }
            let s = clr.convert(self.format());
            let mut j: i32 = 0;
            while j < rr.height
                invariant
                    self.wf(),
                    self.fmt_spec() == fmt,
                    self.w_spec() == w,
                    self.h_spec() == h,
                    olds.wf() && olds.w_spec() == w && olds.h_spec() == h,
                    rr == rrs,
                    rr.width > 0 && rr.height > 0,
                    rr.x >= 0 && rr.y >= 0 && rr.x + rr.width <= w && rr.y + rr.height <= h,
                    0 <= j <= rr.height,
                    s == convert_spec(clr, fmt) && s.wf() && s.fmt == fmt,
                    forall|x: int, y: int|
                        0 <= x < w && 0 <= y < h ==> #[trigger] self.pix(x, y) == (if in_region(
                            rrs,
                            x,
                            y,
                        ) && y < rr.y + j {
                            s
                        } else {
                            olds.pix(x, y)
                        }),
                decreases rr.height - j,
            {
                let mut i: i32 = 0;
                while i < rr.width
                    invariant
                        self.wf(),
                        self.fmt_spec() == fmt,
                        self.w_spec() == w,
                        self.h_spec() == h,
                        olds.wf() && olds.w_spec() == w && olds.h_spec() == h,
                        rr == rrs,
                        rr.width > 0 && rr.height > 0,
                        rr.x >= 0 && rr.y >= 0 && rr.x + rr.width <= w && rr.y + rr.height <= h,
                        0 <= j < rr.height,
                        0 <= i <= rr.width,
                        s == convert_spec(clr, fmt) && s.wf() && s.fmt == fmt,
                        forall|x: int, y: int|
                            0 <= x < w && 0 <= y < h ==> #[trigger] self.pix(x, y) == (
                            if in_region(rrs, x, y) && (y < rr.y + j || (y == rr.y + j && x
                                < rr.x + i)) {
                                s
                            } else {
                                olds.pix(x, y)
                            }),
                    decreases rr.width - i,
                {
                    let ghost prev = *self;
                    proof {
                        lemma_idx(w, h, rr.x + i as int, rr.y + j as int);
                    }
                    self.pixel_mut(rr.x + i, rr.y + j, s);
                    proof {
                        let xi = rr.x + i as int;
                        let yi = rr.y + j as int;
                        assert forall|x: int, y: int| 0 <= x < w && 0 <= y < h implies #[trigger]
                        self.pix(x, y) == (if in_region(rrs, x, y) && (y < rr.y + j || (y == rr.y
                            + j && x < rr.x + i + 1)) {
                            s
                        } else {
                            olds.pix(x, y)
                        }) by {
                            lemma_idx(w, h, x, y);
                            if idx_spec(w, x, y) == idx_spec(w, xi, yi) {
                                assert(x == xi && y == yi);
                                assert(self.pix(x, y) == s);
                            } else {
                                assert(self.pix(x, y) == prev.pix(x, y));
                            }
                        }
                    }
                    i = i + 1;
                }
                j = j + 1;
            }
        }
    }
}


/// How much of a coordinate lies below zero: the amount clipping discards
/// on the low side.
pub open spec fn shift_neg(v: int) -> int {
    if v < 0 {
        -v
    } else {
        0
    }
}

/// The geometry of one raster-to-raster composition.
pub ghost struct ComposeMap {
    /// Destination origin.
    pub dx: int,
    pub dy: int,
    /// Source origin.
    pub sx: int,
    pub sy: int,
    /// Common width and height.
    pub w: int,
    pub h: int,
}

/// The smaller of two values.
pub open spec fn min_int(a: int, b: int) -> int {
    if a <= b {
        a
    } else {
        b
    }
}

/// What [`Raster::compose_raster`] copies and where.
///
/// The destination and source regions are clipped to their rasters
/// independently and the common width and height is the smaller of the two
/// clips in each dimension.  Where one side's clip discarded a
/// negative-origin overhang, the other side's origin shifts by the same
/// amount, so source and destination pixels stay aligned after independent
/// clipping.  Finally the shifted window is clipped once more to both
/// rasters, so that any part pushed past an edge is treated as empty
/// overlap.
pub open spec fn compose_map(
    dw: int,
    dh: int,
    sw: int,
    sh: int,
    to: Region,
    from: Region,
) -> ComposeMap {
    let tx = shift_neg(to.x as int);
    let ty = shift_neg(to.y as int);
    let fx = shift_neg(from.x as int);
    let fy = shift_neg(from.y as int);
    let toc = raster_clip_spec(dw, dh, to);
    let fromc = raster_clip_spec(sw, sh, from);
    let dx = toc.x + fx;
    let dy = toc.y + fy;
    let sx = fromc.x + tx;
    let sy = fromc.y + ty;
    let w0 = min_int(min_int(toc.width as int, fromc.width as int), min_int(dw - dx, sw - sx));
    let h0 = min_int(min_int(toc.height as int, fromc.height as int), min_int(dh - dy, sh - sy));
    ComposeMap {
        dx,
        dy,
        sx,
        sy,
        w: if w0 >= 0 {
            w0
        } else {
            0
        },
        h: if h0 >= 0 {
            h0
        } else {
            0
        },
    }
}

impl Raster {
    /// Compose a region of a source raster into a region of this raster.
    ///
    /// Both regions are clipped to their raster's bounds independently; the
    /// copied rectangle is the smaller of the two clips, shifted to keep
    /// source and destination aligned when a negative origin was clipped
    /// away, then clipped once more so that any part pushed past a raster's
    /// edge copies nothing.  Every copied pixel is converted to this
    /// raster's format.  The operation is total: every pair of regions and
    /// rasters has a defined result.
    pub fn compose_raster(&mut self, to: Region, src: &Raster, from: Region)
        requires
            old(self).wf(),
            src.wf(),
            to.wf(),
            from.wf(),
        ensures
            final(self).wf(),
            final(self).fmt_spec() == old(self).fmt_spec(),
            final(self).w_spec() == old(self).w_spec(),
            final(self).h_spec() == old(self).h_spec(),
            ({
                let m = compose_map(
                    old(self).w_spec(),
                    old(self).h_spec(),
                    src.w_spec(),
                    src.h_spec(),
                    to,
                    from,
                );
                forall|x: int, y: int|
                    0 <= x < old(self).w_spec() && 0 <= y < old(self).h_spec()
                        ==> #[trigger] final(self).pix(x, y) == (if m.dx <= x < m.dx + m.w && m.dy
                        <= y < m.dy + m.h {
                        convert_spec(src.pix(x - m.dx + m.sx, y - m.dy + m.sy), old(self).fmt_spec())
                    } else {
                        old(self).pix(x, y)
                    })
            }),
    {
        let ghost w = self.w_spec();
        let ghost h = self.h_spec();
        let ghost fmt = self.fmt_spec();
        let ghost olds = *self;
        let ghost m = compose_map(w, h, src.w_spec(), src.h_spec(), to, from);
        let tx: i64 = if to.x < 0 {
            -(to.x as i64)
        } else {
            0
        };
        let ty: i64 = if to.y < 0 {
            -(to.y as i64)
        } else {
            0
        };
        let fx: i64 = if from.x < 0 {
            -(from.x as i64)
        } else {
            0
        };
        let fy: i64 = if from.y < 0 {
            -(from.y as i64)
        } else {
            0
        };
        let toc = self.intersection(to);
        let fromc = src.intersection(from);
        let dx64: i64 = toc.x as i64 + fx;
        let dy64: i64 = toc.y as i64 + fy;
        let sx64: i64 = fromc.x as i64 + tx;
        let sy64: i64 = fromc.y as i64 + ty;
        let ww: i64 = self.width as i64;
        let hh: i64 = self.height as i64;
        let sw: i64 = src.width() as i64;
        let sh: i64 = src.height() as i64;
        let mut weff: i64 = if (toc.width as i64) <= (fromc.width as i64) {
            toc.width as i64
        } else {
            fromc.width as i64
        };
        if ww - dx64 < weff {
            weff = ww - dx64;
        }
        if sw - sx64 < weff {
            weff = sw - sx64;
        }
        let mut heff: i64 = if (toc.height as i64) <= (fromc.height as i64) {
            toc.height as i64
        } else {
            fromc.height as i64
        };
        if hh - dy64 < heff {
            heff = hh - dy64;
        }
        if sh - sy64 < heff {
            heff = sh - sy64;
        }
        if weff > 0 && heff > 0 {
            let dx: i32 = dx64 as i32;
            let dy: i32 = dy64 as i32;
            let sx: i32 = sx64 as i32;
            let sy: i32 = sy64 as i32;
            let width: i32 = weff as i32;
            let height: i32 = heff as i32;
            proof {
                assert(m.dx == dx && m.dy == dy && m.sx == sx && m.sy == sy && m.w == width
                    && m.h == height);
                assert(dx >= 0 && dy >= 0 && sx >= 0 && sy >= 0);
            }
            let mut j: i32 = 0;
            while j < height
                invariant
                    self.wf(),
                    self.fmt_spec() == fmt,
                    self.w_spec() == w,
                    self.h_spec() == h,
                    olds.wf() && olds.w_spec() == w && olds.h_spec() == h,
                    src.wf(),
                    m == compose_map(w, h, src.w_spec(), src.h_spec(), to, from),
                    m.dx == dx && m.dy == dy && m.sx == sx && m.sy == sy && m.w == width && m.h
                        == height,
                    0 <= dx && 0 <= dy && 0 <= sx && 0 <= sy,
                    dx + width <= w && dy + height <= h,
                    sx + width <= src.w_spec() && sy + height <= src.h_spec(),
                    width > 0 && height > 0,
                    0 <= j <= height,
                    forall|x: int, y: int|
                        0 <= x < w && 0 <= y < h ==> #[trigger] self.pix(x, y) == (if dx <= x < dx
                            + width && dy <= y < dy + height && y < dy + j {
                            convert_spec(src.pix(x - dx + sx, y - dy + sy), fmt)
                        } else {
                            olds.pix(x, y)
                        }),
                decreases height - j,
            {
                let mut i: i32 = 0;
                while i < width
                    invariant
                        self.wf(),
                        self.fmt_spec() == fmt,
                        self.w_spec() == w,
                        self.h_spec() == h,
                        olds.wf() && olds.w_spec() == w && olds.h_spec() == h,
                        src.wf(),
                        m.dx == dx && m.dy == dy && m.sx == sx && m.sy == sy && m.w == width
                            && m.h == height,
                        0 <= dx && 0 <= dy && 0 <= sx && 0 <= sy,
                        dx + width <= w && dy + height <= h,
                        sx + width <= src.w_spec() && sy + height <= src.h_spec(),
                        width > 0 && height > 0,
                        0 <= j < height,
                        0 <= i <= width,
                        forall|x: int, y: int|
                            0 <= x < w && 0 <= y < h ==> #[trigger] self.pix(x, y) == (if dx <= x
                                < dx + width && dy <= y < dy + height && (y < dy + j || (y == dy
                                + j && x < dx + i)) {
                                convert_spec(src.pix(x - dx + sx, y - dy + sy), fmt)
                            } else {
                                olds.pix(x, y)
                            }),
                    decreases width - i,
                {
                    let sp = src.pixel(sx + i, sy + j);
                    let cp = sp.convert(self.format());
                    let ghost prev = *self;
                    proof {
                        lemma_idx(w, h, dx + i as int, dy + j as int);
                    }
                    self.pixel_mut(dx + i, dy + j, cp);
                    proof {
                        let xi = dx + i as int;
                        let yi = dy + j as int;
                        assert forall|x: int, y: int| 0 <= x < w && 0 <= y < h implies #[trigger]
                        self.pix(x, y) == (if dx <= x < dx + width && dy <= y < dy + height && (y
                            < dy + j || (y == dy + j && x < dx + i + 1)) {
                            convert_spec(src.pix(x - dx + sx, y - dy + sy), fmt)
                        } else {
                            olds.pix(x, y)
                        }) by {
                            lemma_idx(w, h, x, y);
                            if idx_spec(w, x, y) == idx_spec(w, xi, yi) {
                                assert(x == xi && y == yi);
                                assert(self.pix(x, y) == cp);
                                assert(x - dx + sx == sx + i as int && y - dy + sy == sy
                                    + j as int);
                            } else {
                                assert(self.pix(x, y) == prev.pix(x, y));
                            }
                        }
                    }
                    i = i + 1;
                }
                j = j + 1;
            }
        }
    }
}


/// The pixel a raw byte buffer holds at a pixel index, in a given format.
///
/// Channels lie in the model's native order with no padding; a 16-bit
/// channel takes two bytes, least significant first.
pub open spec fn buffer_pixel(fmt: Format, b: Seq<u8>, i: int) -> Pixel {
    let n = chan_count(fmt);
    let base = i * pixel_bytes_spec(fmt);
    let c = |k: int|
        if k >= n {
            0
        } else {
            match fmt.precision {
                Precision::Eight => b[base + k] as int,
                Precision::Sixteen => b[base + 2 * k] + 256 * b[base + 2 * k + 1],
            }
        };
    Pixel { fmt, c0: c(0) as u16, c1: c(1) as u16, c2: c(2) as u16, c3: c(3) as u16 }
}

/// The pixel a raw 16-bit buffer holds at a pixel index, in a given format.
pub open spec fn buffer16_pixel(fmt: Format, b: Seq<u16>, i: int) -> Pixel {
    let n = chan_count(fmt);
    let base = i * n;
    let c = |k: int|
        if k >= n {
            0
        } else {
            b[base + k] as int
        };
    Pixel { fmt, c0: c(0) as u16, c1: c(1) as u16, c2: c(2) as u16, c3: c(3) as u16 }
}

/// The number of channels a format stores, as a value.
pub fn chan_count_val(fmt: Format) -> (r: u32)
    ensures
        r as int == chan_count(fmt),
        1 <= r <= 4,
{
    match fmt.model {
        ColorModel::Mask => 1,
        ColorModel::Gray => if fmt.has_alpha {
            2
        } else {
            1
        },
        _ => if fmt.has_alpha {
            4
        } else {
            3
        },
    }
}

impl RasterBuilder {
    /// Build a raster from a byte buffer, for an 8-bit format.
    ///
    /// The buffer holds the channels of each pixel in row-major order with
    /// no padding; its length must equal exactly
    /// `width * height * pixel_bytes`, and the raster must not be empty.
    pub fn with_u8_buffer(self, width: u32, height: u32, buffer: Vec<u8>) -> (r: Raster)
        requires
            fmt_wf(self.fmt_spec()),
            self.fmt_spec().precision == Precision::Eight,
            width <= 0x7fffffff,
            height <= 0x7fffffff,
            width as int * height as int <= 0x7fffffff,
            width as int * height as int > 0,
            buffer@.len() == width as int * height as int * pixel_bytes_spec(self.fmt_spec()),
        ensures
            r.wf(),
            r.fmt_spec() == self.fmt_spec(),
            r.w_spec() == width as int,
            r.h_spec() == height as int,
            forall|i: int|
                0 <= i < r.s().len() ==> #[trigger] r.s()[i] == buffer_pixel(
                    self.fmt_spec(),
                    buffer@,
                    i,
                ),
    {
        let fmt = self.fmt;
        let n: u32 = chan_count_val(fmt);
        let count: usize = (width as usize) * (height as usize);
        proof {
            assert(pixel_bytes_spec(fmt) == chan_count(fmt));
            lemma_buffer_bounds(count as int, n as int);
        }
        let blen: usize = buffer.len();
        let mut v: Vec<Pixel> = Vec::new();
        let mut i: usize = 0;
        while i < count
            invariant
                fmt == self.fmt_spec(),
                fmt_wf(fmt),
                fmt.precision == Precision::Eight,
                n as int == chan_count(fmt),
                1 <= n <= 4,
                pixel_bytes_spec(fmt) == n as int,
                buffer@.len() == count as int * n as int,
                buffer@.len() <= usize::MAX,
                0 <= i <= count,
                v@.len() == i as int,
                forall|k: int|
                    0 <= k < count ==> #[trigger] (k * (n as int)) + (n as int) <= buffer@.len()
                        && 0 <= k * (n as int),
                forall|k: int|
                    0 <= k < i as int ==> #[trigger] v@[k] == buffer_pixel(fmt, buffer@, k),
            decreases count - i,
        {
            proof {
                assert((i as int) * (n as int) + (n as int) <= buffer@.len() && 0 <= (i as int)
                    * (n as int));
            }
            let base: usize = i * (n as usize);
            let c0: u16 = buffer[base] as u16;
            let c1: u16 = if n >= 2 {
                buffer[base + 1] as u16
            } else {
                0
            };
            let c2: u16 = if n >= 3 {
                buffer[base + 2] as u16
            } else {
                0
            };
            let c3: u16 = if n >= 4 {
                buffer[base + 3] as u16
            } else {
                0
            };
            let p = Pixel::new(fmt, c0, c1, c2, c3);
            proof {
                assert(p == buffer_pixel(fmt, buffer@, i as int));
            }
            v.push(p);
            i = i + 1;
        }
        RasterBuilder { fmt }.with_pixels(width, height, v)
    }

    /// Build a raster from a 16-bit buffer, for a 16-bit format.
    ///
    /// The buffer holds the channels of each pixel in row-major order with
    /// no padding; its length must equal exactly
    /// `width * height * channels`, and the raster must not be empty.
    pub fn with_u16_buffer(self, width: u32, height: u32, buffer: Vec<u16>) -> (r: Raster)
        requires
            fmt_wf(self.fmt_spec()),
            self.fmt_spec().precision == Precision::Sixteen,
            width <= 0x7fffffff,
            height <= 0x7fffffff,
            width as int * height as int <= 0x7fffffff,
            width as int * height as int > 0,
            buffer@.len() == width as int * height as int * chan_count(self.fmt_spec()),
        ensures
            r.wf(),
            r.fmt_spec() == self.fmt_spec(),
            r.w_spec() == width as int,
            r.h_spec() == height as int,
            forall|i: int|
                0 <= i < r.s().len() ==> #[trigger] r.s()[i] == buffer16_pixel(
                    self.fmt_spec(),
                    buffer@,
                    i,
                ),
    {
        let fmt = self.fmt;
        let n: u32 = chan_count_val(fmt);
        let count: usize = (width as usize) * (height as usize);
        proof {
            lemma_buffer_bounds(count as int, n as int);
        }
        let blen: usize = buffer.len();
        let mut v: Vec<Pixel> = Vec::new();
        let mut i: usize = 0;
        while i < count
            invariant
                fmt == self.fmt_spec(),
                fmt_wf(fmt),
                fmt.precision == Precision::Sixteen,
                n as int == chan_count(fmt),
                1 <= n <= 4,
                buffer@.len() == count as int * n as int,
                buffer@.len() <= usize::MAX,
                0 <= i <= count,
                v@.len() == i as int,
                forall|k: int|
                    0 <= k < count ==> #[trigger] (k * (n as int)) + (n as int) <= buffer@.len()
                        && 0 <= k * (n as int),
                forall|k: int|
                    0 <= k < i as int ==> #[trigger] v@[k] == buffer16_pixel(fmt, buffer@, k),
            decreases count - i,
        {
            proof {
                assert((i as int) * (n as int) + (n as int) <= buffer@.len() && 0 <= (i as int)
                    * (n as int));
            }
            let base: usize = i * (n as usize);
            let c0: u16 = buffer[base];
            let c1: u16 = if n >= 2 {
                buffer[base + 1]
            } else {
                0
            };
            let c2: u16 = if n >= 3 {
                buffer[base + 2]
            } else {
                0
            };
            let c3: u16 = if n >= 4 {
                buffer[base + 3]
            } else {
                0
            };
            let p = Pixel::new(fmt, c0, c1, c2, c3);
            proof {
                assert(p == buffer16_pixel(fmt, buffer@, i as int));
            }
            v.push(p);
            i = i + 1;
        }
        RasterBuilder { fmt }.with_pixels(width, height, v)
    }

    /// Build a raster from a byte buffer, checking the buffer length.
    ///
    /// Returns the raster exactly when the format is 8-bit, the dimensions
    /// are in range and nonzero, and the buffer length equals
    /// `width * height * pixel_bytes`; any mismatched length gives `None`.
    pub fn try_with_u8_buffer(self, width: u32, height: u32, buffer: Vec<u8>) -> (r: Option<
        Raster,
    >)
        requires
            fmt_wf(self.fmt_spec()),
        ensures
            r is Some <==> (self.fmt_spec().precision == Precision::Eight && width <= 0x7fffffff
                && height <= 0x7fffffff && width as int * height as int <= 0x7fffffff
                && width as int * height as int > 0 && buffer@.len() == width as int
                * height as int * pixel_bytes_spec(self.fmt_spec())),
            r is Some ==> {
                let rr = r->Some_0;
                &&& rr.wf()
                &&& rr.fmt_spec() == self.fmt_spec()
                &&& rr.w_spec() == width as int
                &&& rr.h_spec() == height as int
                &&& forall|i: int|
                    0 <= i < rr.s().len() ==> #[trigger] rr.s()[i] == buffer_pixel(
                        self.fmt_spec(),
                        buffer@,
                        i,
                    )
            },
    {
        if !matches!(self.fmt.precision, Precision::Eight) {
            return None;
        }
        if width > 0x7fffffff || height > 0x7fffffff {
            return None;
        }
        proof {
            assert((width as int) * (height as int) < 0x1_0000_0000_0000_0000) by (nonlinear_arith)
                requires
                    width <= 0xffff_ffff && height <= 0xffff_ffff,
            ;
        }
        let wh: u64 = (width as u64) * (height as u64);
        if wh > 0x7fffffff || wh == 0 {
            return None;
        }
        let pb: u32 = self.fmt.pixel_bytes();
        proof {
            assert(wh * (pb as int) <= 0x7fffffff * 8) by (nonlinear_arith)
                requires
                    wh <= 0x7fffffff && pb <= 8,
            ;
        }
        let need: u64 = wh * (pb as u64);
        if (buffer.len() as u64) != need {
            return None;
        }
        proof {
            assert(buffer@.len() == width as int * height as int * pixel_bytes_spec(
                self.fmt_spec(),
            )) by (nonlinear_arith)
                requires
                    buffer@.len() == (width as int * height as int) * (pixel_bytes_spec(
                        self.fmt_spec(),
                    )),
            ;
        }
        Some(self.with_u8_buffer(width, height, buffer))
    }

    /// Build a raster from a 16-bit buffer, checking the buffer length.
    ///
    /// Returns the raster exactly when the format is 16-bit, the dimensions
    /// are in range and nonzero, and the buffer length equals
    /// `width * height * channels`; any mismatched length gives `None`.
    pub fn try_with_u16_buffer(self, width: u32, height: u32, buffer: Vec<u16>) -> (r: Option<
        Raster,
    >)
        requires
            fmt_wf(self.fmt_spec()),
        ensures
            r is Some <==> (self.fmt_spec().precision == Precision::Sixteen && width <= 0x7fffffff
                && height <= 0x7fffffff && width as int * height as int <= 0x7fffffff
                && width as int * height as int > 0 && buffer@.len() == width as int
                * height as int * chan_count(self.fmt_spec())),
            r is Some ==> {
                let rr = r->Some_0;
                &&& rr.wf()
                &&& rr.fmt_spec() == self.fmt_spec()
                &&& rr.w_spec() == width as int
                &&& rr.h_spec() == height as int
                &&& forall|i: int|
                    0 <= i < rr.s().len() ==> #[trigger] rr.s()[i] == buffer16_pixel(
                        self.fmt_spec(),
                        buffer@,
                        i,
                    )
            },
    {
        if !matches!(self.fmt.precision, Precision::Sixteen) {
            return None;
        }
        if width > 0x7fffffff || height > 0x7fffffff {
            return None;
        }
        proof {
            assert((width as int) * (height as int) < 0x1_0000_0000_0000_0000) by (nonlinear_arith)
                requires
                    width <= 0xffff_ffff && height <= 0xffff_ffff,
            ;
        }
        let wh: u64 = (width as u64) * (height as u64);
        if wh > 0x7fffffff || wh == 0 {
            return None;
        }
        let n: u32 = chan_count_val(self.fmt);
        proof {
            assert(wh * (n as int) <= 0x7fffffff * 4) by (nonlinear_arith)
                requires
                    wh <= 0x7fffffff && n <= 4,
            ;
        }
        let need: u64 = wh * (n as u64);
        if (buffer.len() as u64) != need {
            return None;
        }
        proof {
            assert(buffer@.len() == width as int * height as int * chan_count(self.fmt_spec()))
                by (nonlinear_arith)
                requires
                    buffer@.len() == (width as int * height as int) * (chan_count(
                        self.fmt_spec(),
                    )),
            ;
        }
        Some(self.with_u16_buffer(width, height, buffer))
    }
}

/// Every pixel's channel block lies inside a buffer of exactly
/// `count * n` entries.
proof fn lemma_buffer_bounds(count: int, n: int)
    requires
        0 < n,
        0 <= count,
    ensures
        forall|k: int| 0 <= k < count ==> #[trigger] (k * n) + n <= count * n && 0 <= k * n,
{
    assert forall|k: int| 0 <= k < count implies #[trigger] (k * n) + n <= count * n && 0 <= k
        * n by {
        assert(k * n + n <= count * n && 0 <= k * n) by (nonlinear_arith)
            requires
                0 <= k < count && 0 < n,
        ;
    }
}

impl Raster {
    /// Get a copy of the pixel data as a flat byte buffer.
    ///
    /// Channels lie row-major with no padding; a 16-bit channel takes two
    /// bytes, least significant first.  Reading the bytes back with the
    /// same format reproduces the pixels exactly.
    pub fn as_u8_slice(&self) -> (r: Vec<u8>)
        requires
            self.wf(),
        ensures
            r@.len() == self.s().len() * pixel_bytes_spec(self.fmt_spec()),
            forall|i: int|
                0 <= i < self.s().len() ==> #[trigger] self.s()[i] == buffer_pixel(
                    self.fmt_spec(),
                    r@,
                    i,
                ),
    {
        let fmt = self.fmt;
        let n: u32 = chan_count_val(fmt);
        let pb: u32 = fmt.pixel_bytes();
        let count: usize = self.pixels.len();
        let mut out: Vec<u8> = Vec::new();
        let mut i: usize = 0;
        while i < count
            invariant
                self.wf(),
                fmt == self.fmt_spec(),
                n as int == chan_count(fmt),
                pb as int == pixel_bytes_spec(fmt),
                1 <= n <= 4,
                count == self.s().len(),
                0 <= i <= count,
                out@.len() == i as int * pb as int,
                forall|k: int|
                    0 <= k < i as int ==> #[trigger] self.s()[k] == buffer_pixel(fmt, out@, k),
            decreases count - i,
        {
            let p = self.pixels[i];
            let ghost out0 = out@;
            let mut k: u32 = 0;
            while k < n
                invariant
                    0 <= k <= n,
                    1 <= n <= 4,
                    p.wf(),
                    p.fmt == fmt,
                    n as int == chan_count(fmt),
                    pb as int == pixel_bytes_spec(fmt),
                    out@.len() == out0.len() + (match fmt.precision {
                        Precision::Eight => k as int,
                        Precision::Sixteen => 2 * k as int,
                    }),
                    out0 =~= out@.subrange(0, out0.len() as int),
                    forall|q: int|
                        0 <= q < k as int ==> (match fmt.precision {
                            Precision::Eight => out@[out0.len() + q] == crate::pixel::chan_at(
                                p,
                                q,
                            ),
                            Precision::Sixteen => out@[out0.len() + 2 * q] + 256 * out@[out0.len()
                                + 2 * q + 1] == crate::pixel::chan_at(p, q),
                        }),
                decreases n - k,
            {
                let c: u16 = crate::pixel::chan_get(p, k);
                match fmt.precision {
                    Precision::Eight => {
                        proof {
                            assert(crate::pixel::chan_at(p, k as int) <= 255);
                        }
                        out.push(c as u8);
                    },
                    Precision::Sixteen => {
                        out.push((c % 256) as u8);
                        out.push((c / 256) as u8);
                    },
                }
                k = k + 1;
            }
            proof {
                lemma_buffer_bounds(count as int, pb as int);
                assert(out0.len() == i as int * pb as int);
                assert(out@.len() == (i as int + 1) * pb as int) by (nonlinear_arith)
                    requires
                        out@.len() == i as int * pb as int + pb as int,
                ;
                assert(chan_at(p, 0) == p.c0 as int && chan_at(p, 1) == p.c1 as int && chan_at(
                    p,
                    2,
                ) == p.c2 as int && chan_at(p, 3) == p.c3 as int);
                assert(forall|q: int|
                    chan_count(fmt) <= q < 4 ==> #[trigger] chan_at(p, q) == 0);
                assert(self.s()[i as int] == buffer_pixel(fmt, out@, i as int));
                assert forall|q: int| 0 <= q < i as int implies #[trigger] self.s()[q]
                    == buffer_pixel(fmt, out@, q) by {
                    assert(q * pb as int + pb as int <= i as int * pb as int && 0 <= q
                        * pb as int) by (nonlinear_arith)
                        requires
                            0 <= q < i as int && 0 < pb,
                    ;
                    assert forall|j: int| 0 <= j < out0.len() implies out@[j] == out0[j] by {
                        assert(out@.subrange(0, out0.len() as int)[j] == out@[j]);
                    }
                    assert(buffer_pixel(fmt, out@, q) == buffer_pixel(fmt, out0, q));
                }
            }
            i = i + 1;
        }
        out
    }
}


impl RasterBuilder {
    /// Build a raster by copying another raster, converting every pixel to
    /// this builder's format.
    pub fn with_raster(self, src: &Raster) -> (r: Raster)
        requires
            fmt_wf(self.fmt_spec()),
            src.wf(),
        ensures
            r.wf(),
            r.fmt_spec() == self.fmt_spec(),
            r.w_spec() == src.w_spec(),
            r.h_spec() == src.h_spec(),
            forall|x: int, y: int|
                0 <= x < src.w_spec() && 0 <= y < src.h_spec() ==> #[trigger] r.pix(x, y)
                    == convert_spec(src.pix(x, y), self.fmt_spec()),
    {
        let ghost fmtg = self.fmt_spec();
        let w = src.width();
        let h = src.height();
        proof {
            assert(src.w_spec() * src.h_spec() <= 0x7fffffff);
        }
        let mut out = self.with_clear(w, h);
        let all = Region::all();
        proof {
            let m = compose_map(
                out.w_spec(),
                out.h_spec(),
                src.w_spec(),
                src.h_spec(),
                all,
                all,
            );
            assert(m.dx == 0 && m.dy == 0 && m.sx == 0 && m.sy == 0 && m.w == out.w_spec()
                && m.h == out.h_spec());
        }
        out.compose_raster(all, src, all);
        out
    }
}

/// Composing with a destination region entirely outside the raster's bounds
/// touches no pixel: the copied window is empty.
pub proof fn law_compose_outside_is_noop(
    dw: int,
    dh: int,
    sw: int,
    sh: int,
    to: Region,
    from: Region,
)
    requires
        to.wf(),
        from.wf(),
        0 <= dw,
        0 <= dh,
        right_spec(to) <= 0 || to.x >= dw || bottom_spec(to) <= 0 || to.y >= dh,
    ensures
        ({
            let m = compose_map(dw, dh, sw, sh, to, from);
            m.w == 0 || m.h == 0
        }),
{
    let m = compose_map(dw, dh, sw, sh, to, from);
    let toc = raster_clip_spec(dw, dh, to);
    assert(toc.width == 0 || toc.height == 0);
    assert(m.w == 0 || m.h == 0);
}

/// A cursor over the rows of a raster, from top to bottom, as pixel slices.
pub struct Rows<'a> {
    raster: &'a Raster,
    y: i32,
}

impl<'a> Rows<'a> {
    /// The raster being walked.
    pub closed spec fn raster_spec(&self) -> &'a Raster {
        self.raster
    }

    /// The next row to yield.
    pub closed spec fn y_spec(&self) -> int {
        self.y as int
    }

    /// Create a new row cursor at the top row.
    pub fn new(raster: &'a Raster) -> (r: Rows<'a>)
        requires
            raster.wf(),
        ensures
            r.raster_spec() == raster,
            r.y_spec() == 0,
    {
        Rows { raster, y: 0 }
    }

    /// The next row, as a slice of its pixels, or nothing below the last
    /// row.
    pub fn next(&mut self) -> (r: Option<&'a [Pixel]>)
        requires
            old(self).raster_spec().wf(),
            0 <= old(self).y_spec(),
        ensures
            final(self).raster_spec() == old(self).raster_spec(),
            old(self).y_spec() < old(self).raster_spec().h_spec() ==> final(self).y_spec() == old(
                self,
            ).y_spec() + 1 && (match r {
                Option::Some(row) => row@ == old(self).raster_spec().s().subrange(
                    old(self).y_spec() * old(self).raster_spec().w_spec(),
                    (old(self).y_spec() + 1) * old(self).raster_spec().w_spec(),
                ),
                Option::None => false,
            }),
            old(self).y_spec() >= old(self).raster_spec().h_spec() ==> (r matches Option::None)
                && final(self).y_spec() == old(self).y_spec(),
    {
        let h: i32 = self.raster.height() as i32;
        if self.y < h {
            let w: usize = self.raster.width() as usize;
            let y: usize = self.y as usize;
            proof {
                assert((self.y_spec() * self.raster_spec().w_spec()) + self.raster_spec().w_spec()
                    <= self.raster_spec().h_spec() * self.raster_spec().w_spec())
                    by (nonlinear_arith)
                    requires
                        0 <= self.y_spec() < self.raster_spec().h_spec() && 0
                            <= self.raster_spec().w_spec(),
                ;
                assert(self.raster_spec().h_spec() * self.raster_spec().w_spec()
                    == self.raster_spec().w_spec() * self.raster_spec().h_spec())
                    by (nonlinear_arith);
                assert((self.y_spec() + 1) * self.raster_spec().w_spec() == self.y_spec()
                    * self.raster_spec().w_spec() + self.raster_spec().w_spec())
                    by (nonlinear_arith);
                assert(0 <= self.y_spec() * self.raster_spec().w_spec()) by (nonlinear_arith)
                    requires
                        0 <= self.y_spec() && 0 <= self.raster_spec().w_spec(),
                ;
            }
            let start: usize = y * w;
            let row = vstd::slice::slice_subrange(self.raster.pixels().as_slice(), start, start + w);
            self.y = self.y + 1;
            Some(row)
        } else {
            None
        }
    }
}

impl Raster {
    /// Get a cursor over the rows of this raster.
    pub fn rows(&self) -> (r: Rows)
        requires
            self.wf(),
        ensures
            r.raster_spec() == self,
            r.y_spec() == 0,
    {
        Rows::new(self)
    }
}


impl Raster {
    /// Overwrite one row of pixels.
    ///
    /// The row must hold exactly one well-formed pixel of the raster's
    /// format per column.
    pub fn set_row(&mut self, y: i32, row: &Vec<Pixel>)
        requires
            old(self).wf(),
            0 <= y < old(self).h_spec(),
            row@.len() == old(self).w_spec(),
            forall|i: int|
                0 <= i < row@.len() ==> (#[trigger] row@[i]).wf() && row@[i].fmt == old(
                    self,
                ).fmt_spec(),
        ensures
            final(self).wf(),
            final(self).fmt_spec() == old(self).fmt_spec(),
            final(self).w_spec() == old(self).w_spec(),
            final(self).h_spec() == old(self).h_spec(),
            forall|x: int, y2: int|
                0 <= x < old(self).w_spec() && 0 <= y2 < old(self).h_spec()
                    ==> #[trigger] final(self).pix(x, y2) == (if y2 == y {
                    row@[x]
                } else {
                    old(self).pix(x, y2)
                }),
    {
        let ghost w = self.w_spec();
        let ghost h = self.h_spec();
        let ghost fmt = self.fmt_spec();
        let ghost olds = *self;
        let width: i32 = self.width as i32;
        let mut i: i32 = 0;
        while i < width
            invariant
                self.wf(),
                self.fmt_spec() == fmt,
                self.w_spec() == w,
                self.h_spec() == h,
                olds.wf() && olds.w_spec() == w && olds.h_spec() == h,
                width as int == w,
                0 <= y < h,
                0 <= i <= width,
                row@.len() == w,
                forall|k: int|
                    0 <= k < row@.len() ==> (#[trigger] row@[k]).wf() && row@[k].fmt == fmt,
                forall|x: int, y2: int|
                    0 <= x < w && 0 <= y2 < h ==> #[trigger] self.pix(x, y2) == (if y2 == y && x
                        < i as int {
                        row@[x]
                    } else {
                        olds.pix(x, y2)
                    }),
            decreases width - i,
        {
            let ghost prev = *self;
            proof {
                lemma_idx(w, h, i as int, y as int);
            }
            let p = row[i as usize];
            self.pixel_mut(i, y, p);
            proof {
                assert forall|x: int, y2: int| 0 <= x < w && 0 <= y2 < h implies #[trigger]
                self.pix(x, y2) == (if y2 == y as int && x < i as int + 1 {
                    row@[x]
                } else {
                    olds.pix(x, y2)
                }) by {
                    lemma_idx(w, h, x, y2);
                    if idx_spec(w, x, y2) == idx_spec(w, i as int, y as int) {
                        assert(x == i as int && y2 == y as int);
                    } else {
                        assert(self.pix(x, y2) == prev.pix(x, y2));
                    }
                }
            }
            i = i + 1;
        }
    }

    /// Turn this raster into a mutable row cursor.
    ///
    /// The raster moves into the cursor; [`RowsMut::into_raster`] gives it
    /// back once the rows are edited.
    pub fn rows_mut(self) -> (r: RowsMut)
        requires
            self.wf(),
        ensures
            r.raster_spec() == self,
            r.raster_spec().wf(),
    {
        RowsMut::new(self)
    }
}

/// A mutable row editor over an owned raster.
///
/// Rows are read out as copies and written back whole; the edited raster is
/// recovered with [`RowsMut::into_raster`].
pub struct RowsMut {
    raster: Raster,
}

impl RowsMut {
    /// The raster being edited.
    pub closed spec fn raster_spec(&self) -> Raster {
        self.raster
    }

    /// Create a new mutable row editor from an owned raster.
    pub fn new(raster: Raster) -> (r: RowsMut)
        requires
            raster.wf(),
        ensures
            r.raster_spec() == raster,
    {
        RowsMut { raster }
    }

    /// Read one row, as a copy of its pixels.
    pub fn row(&self, y: i32) -> (r: Vec<Pixel>)
        requires
            self.raster_spec().wf(),
            0 <= y < self.raster_spec().h_spec(),
        ensures
            r@.len() == self.raster_spec().w_spec(),
            forall|x: int|
                0 <= x < r@.len() ==> #[trigger] r@[x] == self.raster_spec().pix(x, y as int),
    {
        let w: i32 = self.raster.width() as i32;
        let mut v: Vec<Pixel> = Vec::new();
        let mut i: i32 = 0;
        while i < w
            invariant
                self.raster_spec().wf(),
                w as int == self.raster_spec().w_spec(),
                0 <= y < self.raster_spec().h_spec(),
                0 <= i <= w,
                v@.len() == i as int,
                forall|x: int|
                    0 <= x < i as int ==> #[trigger] v@[x] == self.raster_spec().pix(x, y as int),
            decreases w - i,
        {
            v.push(self.raster.pixel(i, y));
            i = i + 1;
        }
        v
    }

    /// Overwrite one row of pixels.
    pub fn set_row(&mut self, y: i32, row: &Vec<Pixel>)
        requires
            old(self).raster_spec().wf(),
            0 <= y < old(self).raster_spec().h_spec(),
            row@.len() == old(self).raster_spec().w_spec(),
            forall|i: int|
                0 <= i < row@.len() ==> (#[trigger] row@[i]).wf() && row@[i].fmt == old(
                    self,
                ).raster_spec().fmt_spec(),
        ensures
            final(self).raster_spec().wf(),
            final(self).raster_spec().fmt_spec() == old(self).raster_spec().fmt_spec(),
            final(self).raster_spec().w_spec() == old(self).raster_spec().w_spec(),
            final(self).raster_spec().h_spec() == old(self).raster_spec().h_spec(),
            forall|x: int, y2: int|
                0 <= x < old(self).raster_spec().w_spec() && 0 <= y2 < old(
                    self,
                ).raster_spec().h_spec() ==> #[trigger] final(self).raster_spec().pix(x, y2) == (
                if y2 == y {
                    row@[x]
                } else {
                    old(self).raster_spec().pix(x, y2)
                }),
    {
        self.raster.set_row(y, row);
    }

    /// Recover the edited raster.
    pub fn into_raster(self) -> (r: Raster)
        ensures
            r == self.raster_spec(),
    {
        self.raster
    }
}

} // verus!






