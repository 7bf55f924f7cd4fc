//! Histogram equalisation: every channel value is replaced by its rank among
//! the values of the image, scaled to the range 0 to 255.

use vstd::prelude::*;
use image::DynamicImage;
use crate::error::ToolboxError;
use crate::histogram::{pixels_with, Histogram, Pix};
use crate::raster::{
    dimensions, get_pixel, height_of, image_keeps_alpha, image_keeps_colour, in_bounds, new_rgba8,
    pixel_at, put_pixel, width_of,
};

verus! {

/// The value that `v` is mapped to on channel `c` under histogram `h`:
/// 255 times the fraction of pixels whose value is at most `v`, rounded down.
pub open spec fn remapped(h: Histogram, c: Pix, v: int) -> int {
    (255 * h.cumulative(c, v)) as int / (h.total() as int)
}

/// The pixel that `p` is mapped to under histogram `h`: each colour channel
/// remapped on its own, alpha kept.
pub open spec fn remapped_pixel(h: Histogram, p: (u8, u8, u8, u8)) -> (u8, u8, u8, u8) {
    (
        remapped(h, Pix::R, p.0 as int) as u8,
        remapped(h, Pix::G, p.1 as int) as u8,
        remapped(h, Pix::B, p.2 as int) as u8,
        p.3,
    )
}

/// The value that `v` is mapped to on channel `c` when `img` is equalised:
/// 255 times the fraction of its pixels whose value is at most `v`, rounded
/// down.
pub open spec fn equalized(img: DynamicImage, c: Pix, v: int) -> int {
    (255 * pixels_with(img, c, 0, v)) as int / ((width_of(img) * height_of(img)) as int)
}

/// The pixel that `p` is mapped to when `img` is equalised.
pub open spec fn equalized_pixel(img: DynamicImage, p: (u8, u8, u8, u8)) -> (u8, u8, u8, u8) {
    (
        equalized(img, Pix::R, p.0 as int) as u8,
        equalized(img, Pix::G, p.1 as int) as u8,
        equalized(img, Pix::B, p.2 as int) as u8,
        p.3,
    )
}

/// A remapped value is again a channel value, and the largest value is mapped
/// to 255.
pub proof fn lemma_remapped_range(h: Histogram, c: Pix, v: int)
    requires
        h.wf(),
        0 <= v <= 255,
    ensures
        0 <= remapped(h, c, v) <= 255,
        remapped(h, c, 255) == 255,
{
    h.lemma_count_at_most_total(c, v);
    h.lemma_counts_sum_to_total(c);
    let t = h.total() as int;
    let s = h.cumulative(c, v) as int;
    assert(0 <= 255 * s / t <= 255) by (nonlinear_arith)
        requires
            0 <= s <= t,
            t > 0,
    ;
    assert(255 * t / t == 255) by (nonlinear_arith)
        requires
            t > 0,
    ;
}

/// Remapping keeps the order of values: a value that is not smaller is mapped
/// to a value that is not smaller.
pub proof fn lemma_remapped_monotone(h: Histogram, c: Pix, a: int, b: int)
    requires
        h.wf(),
        0 <= a <= b <= 255,
    ensures
        remapped(h, c, a) <= remapped(h, c, b),
{
    h.lemma_cumulative_monotone(c, a, b);
    h.lemma_counts_sum_to_total(c);
    let t = h.total() as int;
    let x = h.cumulative(c, a) as int;
    let y = h.cumulative(c, b) as int;
    assert(255 * x / t <= 255 * y / t) by (nonlinear_arith)
        requires
            0 <= x <= y,
            t > 0,
    ;
}

/// Remapping and equalising leave the alpha of a pixel as it is.
pub proof fn lemma_alpha_is_kept(h: Histogram, img: DynamicImage, p: (u8, u8, u8, u8))
    ensures
        remapped_pixel(h, p).3 == p.3,
        equalized_pixel(img, p).3 == p.3,
{
}

/// Under the histogram of an image, remapping is equalising that image.
pub proof fn lemma_remapped_is_equalized(h: Histogram, img: DynamicImage, c: Pix, v: int)
    requires
        h.describes(img),
        0 <= v <= 255,
    ensures
        remapped(h, c, v) == equalized(img, c, v),
{
    h.lemma_cumulative_counts_pixels(img, c, v);
}

/// Maps one channel value through the histogram: 255 times the sum of the
/// probabilities of all values up to and including `original_pixel`, rounded
/// down.
pub fn transform_pixel(original_pixel: u8, color_type: Pix, histogram: &Histogram) -> (new_pixel:
    u8)
    requires
        histogram.wf(),
    ensures
        new_pixel == remapped(*histogram, color_type, original_pixel as int),
{
    let up_to: u32 = original_pixel as u32 + 1;
    let mut distros_sum: u128 = 0;
    let mut i: u32 = 0;
    while i < up_to
        invariant
            histogram.wf(),
            i <= up_to,
            up_to == original_pixel + 1,
            distros_sum == histogram.cumulative(color_type, i - 1),
        decreases up_to - i,
    {
        proof {
            histogram.lemma_count_at_most_total(color_type, i as int);
        }
        let p = histogram.probability_of(color_type, i as u8);
        distros_sum = distros_sum + p.numer;
        i = i + 1;
    }
    let total: u128 = histogram.probability_of(color_type, original_pixel).denom;
    proof {
        histogram.lemma_count_at_most_total(color_type, original_pixel as int);
        lemma_remapped_range(*histogram, color_type, original_pixel as int);
    }
    ((255 * distros_sum) / total) as u8
}

/// Whether an image of the size of `img` with four bytes for each pixel can
/// be made: whether four times the width fits in `usize`, and the length of
/// the whole buffer is one that a vector can have, at most `isize::MAX`.
pub fn rgba_buffer_fits(img: &DynamicImage) -> (fits: bool)
    ensures
        fits == (4 * width_of(*img) <= usize::MAX && 4 * width_of(*img) * height_of(*img)
            <= isize::MAX),
{
    let (w, h): (u32, u32) = dimensions(img);
    assert(4 * w * h <= 4 * 0xffff_ffff * 0xffff_ffff) by (nonlinear_arith)
        requires
            w <= 0xffff_ffff,
            h <= 0xffff_ffff,
    ;
    4 * (w as u128) <= usize::MAX as u128 && 4 * (w as u128) * (h as u128) <= isize::MAX as u128
}

/// Builds a new image of the size of `img`, which stores colour and alpha, in which
/// every pixel of `img` has its three colour channels mapped through `hist`
/// and its alpha channel kept.
///
/// The new image must be one that can be made: see [`rgba_buffer_fits`].
pub fn transform_from_histogram(img: &DynamicImage, hist: &Histogram) -> (new_img: DynamicImage)
    requires
        hist.wf(),
        4 * width_of(*img) <= usize::MAX,
        4 * width_of(*img) * height_of(*img) <= isize::MAX,
    ensures
        width_of(new_img) == width_of(*img),
        height_of(new_img) == height_of(*img),
        image_keeps_colour(new_img) && image_keeps_alpha(new_img),
        forall|x: int, y: int|
            in_bounds(*img, x, y) ==> #[trigger] pixel_at(new_img, x, y) == remapped_pixel(
                *hist,
                pixel_at(*img, x, y),
            ),
{
    let (w, h): (u32, u32) = dimensions(img);
    let mut new_img = new_rgba8(w, h);
    let mut i: u32 = 0;
    while i < w
        invariant
            hist.wf(),
            i <= w,
            w == width_of(*img) && h == height_of(*img),
            w == width_of(new_img) && h == height_of(new_img),
            image_keeps_colour(new_img) && image_keeps_alpha(new_img),
            forall|x: int, y: int|
                0 <= x < i && 0 <= y < h ==> #[trigger] pixel_at(new_img, x, y) == remapped_pixel(
                    *hist,
                    pixel_at(*img, x, y),
                ),
        decreases w - i,
    {
        let mut j: u32 = 0;
        while j < h
            invariant
                hist.wf(),
                i < w,
                j <= h,
                w == width_of(*img) && h == height_of(*img),
                w == width_of(new_img) && h == height_of(new_img),
                image_keeps_colour(new_img) && image_keeps_alpha(new_img),
                forall|x: int, y: int|
                    0 <= x < i && 0 <= y < h ==> #[trigger] pixel_at(new_img, x, y)
                        == remapped_pixel(*hist, pixel_at(*img, x, y)),
                forall|y: int|
                    0 <= y < j ==> #[trigger] pixel_at(new_img, i as int, y) == remapped_pixel(
                        *hist,
                        pixel_at(*img, i as int, y),
                    ),
            decreases h - j,
        {
            let pixel: (u8, u8, u8, u8) = get_pixel(img, i, j);
            let r: u8 = transform_pixel(pixel.0, Pix::R, hist);
            let g: u8 = transform_pixel(pixel.1, Pix::G, hist);
            let b: u8 = transform_pixel(pixel.2, Pix::B, hist);
            put_pixel(&mut new_img, i, j, (r, g, b, pixel.3));
            j = j + 1;
        }
        i = i + 1;
    }
    new_img
}

/// Equalises an image: builds its histogram and maps every pixel through it.
/// The result is a new image of the same size, which stores colour and alpha;
/// every pixel keeps its alpha.
///
/// An image without pixels cannot be equalised.
pub fn normalize_brightness(img: &DynamicImage) -> (res: Result<DynamicImage, ToolboxError>)
    requires
        4 * width_of(*img) * height_of(*img) <= isize::MAX,
    ensures
        res is Err <==> width_of(*img) == 0 || height_of(*img) == 0,
        res matches Err(e) ==> e == ToolboxError::InvalidImage,
        res matches Ok(out) ==> {
            &&& width_of(out) == width_of(*img)
            &&& height_of(out) == height_of(*img)
            &&& image_keeps_colour(out) && image_keeps_alpha(out)
            &&& forall|x: int, y: int|
                in_bounds(*img, x, y) ==> #[trigger] pixel_at(out, x, y) == equalized_pixel(
                    *img,
                    pixel_at(*img, x, y),
                )
        },
{
    match Histogram::new(img) {
        Err(e) => Err(e),
        Ok(histogram) => {
            proof {
                let w = width_of(*img) as int;
                let h = height_of(*img) as int;
                assert(4 * w <= 4 * w * h) by (nonlinear_arith)
                    requires
                        w >= 1,
                        h >= 1,
                ;
            }
            let new_image = transform_from_histogram(img, &histogram);
            proof {
                assert forall|x: int, y: int| in_bounds(*img, x, y) implies #[trigger] pixel_at(
                    new_image,
                    x,
                    y,
                ) == equalized_pixel(*img, pixel_at(*img, x, y)) by {
                    let p = pixel_at(*img, x, y);
                    lemma_remapped_is_equalized(histogram, *img, Pix::R, p.0 as int);
                    lemma_remapped_is_equalized(histogram, *img, Pix::G, p.1 as int);
                    lemma_remapped_is_equalized(histogram, *img, Pix::B, p.2 as int);
                }
            }
            Ok(new_image)
        },
    }
}

} // verus!
