//! Pixel and raster image library.
//!
//! A raster is a rectangular array of pixels of one fixed format.  A pixel
//! format combines a channel precision (8 or 16 bits), a color model (RGB,
//! gray, HWB or mask), an alpha convention (straight or premultiplied) and a
//! gamma convention (linear or sRGB).  Pixels of any format can be converted
//! to any other format through a canonical RGBA representation, and rasters
//! can be composed onto each other with region clipping and on-the-fly format
//! conversion.

pub mod channel;
pub mod gamma;
pub mod hwb;
pub mod pixel;
pub mod raster;

pub use crate::channel::{Ch16, Ch8, Channel};
pub use crate::hwb::HwbModel;
pub use crate::pixel::{AlphaMode, ColorModel, Format, GammaMode, Pixel, Precision};
pub use crate::raster::{Raster, RasterBuilder, Region, Rows, RowsMut};
