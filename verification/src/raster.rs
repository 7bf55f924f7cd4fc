//! The image type of the `image` crate, and the few operations on it that the
//! rest of the crate is built from.
//!
//! Of the items in this file only `image_size` is proved: each other contract
//! restates what the `image` crate's own code does.

use vstd::prelude::*;

verus! {

/// `image::DynamicImage`, carried through verified code as an opaque value.
#[verifier::external_type_specification]
#[verifier::external_body]
pub struct ExDynamicImage(image::DynamicImage);

/// Width and height of an image, in pixels, as `dimensions` reports them.
pub uninterp spec fn image_dims(img: image::DynamicImage) -> (nat, nat);

/// The pixels of an image by `(x, y)`, each as `(red, green, blue, alpha)`, as
/// `get_pixel` reports them. Only coordinates inside the image are meaningful.
pub uninterp spec fn image_pixels(img: image::DynamicImage) -> Map<(int, int), (u8, u8, u8, u8)>;

/// Whether an image stores red, green and blue for each pixel (the variants
/// `ImageRgb8`, `ImageRgba8`, `ImageBgr8` and `ImageBgra8`), so that the
/// colour written to a pixel is the colour read back. The other variants
/// store one grey value for each pixel.
pub uninterp spec fn image_keeps_colour(img: image::DynamicImage) -> bool;

/// Whether an image stores an alpha value for each pixel (the variants
/// `ImageLumaA8`, `ImageRgba8` and `ImageBgra8`), so that the alpha written to
/// a pixel is the alpha read back. From the other variants every pixel reads
/// with alpha 255.
pub uninterp spec fn image_keeps_alpha(img: image::DynamicImage) -> bool;

/// The grey value that an image without colour stores for the colour
/// `(r, g, b)`: what `Pixel::to_luma` computes from it.
pub uninterp spec fn grey_of(r: u8, g: u8, b: u8) -> u8;

/// Width of an image in pixels.
pub open spec fn width_of(img: image::DynamicImage) -> nat {
    image_dims(img).0
}

/// Height of an image in pixels.
pub open spec fn height_of(img: image::DynamicImage) -> nat {
    image_dims(img).1
}

/// Whether `(x, y)` addresses a pixel of the image.
pub open spec fn in_bounds(img: image::DynamicImage, x: int, y: int) -> bool {
    0 <= x < width_of(img) && 0 <= y < height_of(img)
}

/// The pixel at `(x, y)`.
pub open spec fn pixel_at(img: image::DynamicImage, x: int, y: int) -> (u8, u8, u8, u8) {
    image_pixels(img)[(x, y)]
}

/// The red, green and blue that read back from a pixel of `img` after the
/// colour `rgb` was written to it: the colour itself, or its grey value
/// three times where the image stores no colour.
pub open spec fn stored_colour(img: image::DynamicImage, rgb: (u8, u8, u8)) -> (u8, u8, u8) {
    if image_keeps_colour(img) {
        rgb
    } else {
        (grey_of(rgb.0, rgb.1, rgb.2), grey_of(rgb.0, rgb.1, rgb.2), grey_of(rgb.0, rgb.1, rgb.2))
    }
}

/// Calls `GenericImageView::dimensions` on a `DynamicImage`, which returns the
/// width and height stored in the underlying buffer.
#[verifier::external_body]
pub(crate) fn dimensions(img: &image::DynamicImage) -> (d: (u32, u32))
    ensures
        d.0 == width_of(*img),
        d.1 == height_of(*img),
{
    image::GenericImageView::dimensions(img)
}

/// Calls `GenericImageView::get_pixel` on a `DynamicImage` and hands back the
/// four channels of the pixel it returns. The call panics outside the image,
/// so the coordinates must lie inside it. A variant that stores no alpha
/// hands out the largest alpha, 255.
#[verifier::external_body]
pub(crate) fn get_pixel(img: &image::DynamicImage, x: u32, y: u32) -> (p: (u8, u8, u8, u8))
    requires
        in_bounds(*img, x as int, y as int),
    ensures
        p == image_pixels(*img)[(x as int, y as int)],
        !image_keeps_alpha(*img) ==> p.3 == 255,
{
    let p = image::GenericImageView::get_pixel(img, x, y);
    (p.data[0], p.data[1], p.data[2], p.data[3])
}

/// Calls `DynamicImage::new_rgba8`, which returns an `ImageRgba8` image of the
/// given width and height over a fresh buffer of four bytes per pixel. The
/// call computes the buffer's length in `usize`, first `4 * w`, then that
/// times `h`, and panics if either product overflows; so `4 * w` must fit in
/// `usize` whatever the height is. It also panics if the length is more than
/// a vector can hold, so `4 * w * h` must not exceed `isize::MAX`.
#[verifier::external_body]
pub(crate) fn new_rgba8(w: u32, h: u32) -> (img: image::DynamicImage)
    requires
        4 * w <= usize::MAX,
        4 * w * h <= isize::MAX,
    ensures
        width_of(img) == w,
        height_of(img) == h,
        image_keeps_colour(img),
        image_keeps_alpha(img),
{
    image::DynamicImage::new_rgba8(w, h)
}

/// Calls `GenericImage::put_pixel` on a `DynamicImage`. The call panics outside
/// the image. It converts the given pixel to the pixel format of the image's
/// variant and overwrites the one pixel addressed; it touches nothing else
/// and leaves the variant as it is. Read back, the pixel has the colour given,
/// or the grey value of that colour three times where the variant stores no
/// colour, and the alpha given, or 255 where the variant stores no alpha.
#[verifier::external_body]
pub(crate) fn put_pixel(img: &mut image::DynamicImage, x: u32, y: u32, p: (u8, u8, u8, u8))
    requires
        in_bounds(*old(img), x as int, y as int),
    ensures
        image_dims(*final(img)) == image_dims(*old(img)),
        image_keeps_colour(*final(img)) == image_keeps_colour(*old(img)),
        image_keeps_alpha(*final(img)) == image_keeps_alpha(*old(img)),
        forall|i: int, j: int|
            in_bounds(*old(img), i, j) && (i != x || j != y) ==> #[trigger] pixel_at(
                *final(img),
                i,
                j,
            ) == pixel_at(*old(img), i, j),
        image_keeps_colour(*old(img)) ==> {
            &&& pixel_at(*final(img), x as int, y as int).0 == p.0
            &&& pixel_at(*final(img), x as int, y as int).1 == p.1
            &&& pixel_at(*final(img), x as int, y as int).2 == p.2
        },
        !image_keeps_colour(*old(img)) ==> {
            &&& pixel_at(*final(img), x as int, y as int).0 == grey_of(p.0, p.1, p.2)
            &&& pixel_at(*final(img), x as int, y as int).1 == grey_of(p.0, p.1, p.2)
            &&& pixel_at(*final(img), x as int, y as int).2 == grey_of(p.0, p.1, p.2)
        },
        image_keeps_alpha(*old(img)) ==> pixel_at(*final(img), x as int, y as int).3 == p.3,
        !image_keeps_alpha(*old(img)) ==> pixel_at(*final(img), x as int, y as int).3 == 255,
{
    image::GenericImage::put_pixel(img, x, y, image::Rgba([p.0, p.1, p.2, p.3]));
}

/// The width and height of an image, in pixels.
pub fn image_size(img: &image::DynamicImage) -> (d: (u32, u32))
    ensures
        d.0 == width_of(*img),
        d.1 == height_of(*img),
{
    dimensions(img)
}

} // verus!
