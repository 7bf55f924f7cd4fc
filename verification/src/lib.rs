//! Histogram equalisation and block comparison on raster images.
//!
//! The crate works on [`image::DynamicImage`] values. Everything it computes is
//! stated over a few mathematical readings of such an image, declared in
//! [`raster`]: its dimensions, its pixels by coordinate, and whether it stores
//! colour and alpha for each pixel. Quantities that are fractions by nature
//! (probabilities, mean distances) are kept exact, as [`ratio::Ratio`].

pub mod equalize;
pub mod error;
pub mod histogram;
pub mod raster;
pub mod ratio;
pub mod spatial;

pub use equalize::{normalize_brightness, transform_from_histogram, transform_pixel};
pub use error::ToolboxError;
pub use histogram::{Histogram, Pix};
pub use raster::{image_dims, image_keeps_alpha, image_keeps_colour, image_pixels, image_size};
pub use ratio::{Ratio, Tolerance};
