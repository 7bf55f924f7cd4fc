//! Marking lines and rectangles in an image.

use vstd::prelude::*;
use image::DynamicImage;
use crate::error::ToolboxError;
use crate::raster::{
    dimensions, get_pixel, height_of, image_dims, image_keeps_alpha, image_keeps_colour, in_bounds,
    pixel_at, put_pixel, stored_colour, width_of,
};
use crate::spatial::Quanternion;

verus! {

/// The colours to draw with.
#[derive(Debug, Clone, Copy)]
pub enum Color {
    Red,
    Green,
    Blue,
    Orange,
    Purple,
}

impl Color {
    /// The red, green and blue values of the colour.
    pub open spec fn rgb(self) -> (u8, u8, u8) {
        match self {
            Color::Red => (255u8, 0u8, 0u8),
            Color::Green => (0u8, 255u8, 0u8),
            Color::Blue => (51u8, 0u8, 255u8),
            Color::Orange => (255u8, 204u8, 0u8),
            Color::Purple => (255u8, 51u8, 255u8),
        }
    }

    /// The red, green and blue values of the colour.
    pub fn val(&self) -> (v: (u8, u8, u8))
        ensures
            v == self.rgb(),
    {
        match *self {
            Color::Red => (255, 0, 0),
            Color::Green => (0, 255, 0),
            Color::Blue => (51, 0, 255),
            Color::Orange => (255, 204, 0),
            Color::Purple => (255, 51, 255),
        }
    }
}

/// Pixel `p` of image `img` after it was painted with colour `c`: the
/// colour's red, green and blue as the image stores them, and the alpha that
/// `p` had.
pub open spec fn painted(img: DynamicImage, p: (u8, u8, u8, u8), c: Color) -> (u8, u8, u8, u8) {
    let s = stored_colour(img, c.rgb());
    (s.0, s.1, s.2, p.3)
}

/// Whether `after` is `before` with the pixels that `marked` selects painted
/// with colour `c` and every other pixel left as it was.
pub open spec fn drawn(
    before: DynamicImage,
    after: DynamicImage,
    c: Color,
    marked: spec_fn(int, int) -> bool,
) -> bool {
    &&& image_dims(after) == image_dims(before)
    &&& image_keeps_colour(after) == image_keeps_colour(before)
    &&& image_keeps_alpha(after) == image_keeps_alpha(before)
    &&& forall|x: int, y: int|
        in_bounds(before, x, y) ==> #[trigger] pixel_at(after, x, y) == (if marked(x, y) {
            painted(before, pixel_at(before, x, y), c)
        } else {
            pixel_at(before, x, y)
        })
}

/// Paints the pixel at `point` with colour `c`, keeping its alpha.
pub fn paint(img: &mut DynamicImage, c: Color, point: (u32, u32))
    requires
        in_bounds(*old(img), point.0 as int, point.1 as int),
    ensures
        image_dims(*final(img)) == image_dims(*old(img)),
        image_keeps_colour(*final(img)) == image_keeps_colour(*old(img)),
        image_keeps_alpha(*final(img)) == image_keeps_alpha(*old(img)),
        forall|x: int, y: int|
            in_bounds(*old(img), x, y) && (x != point.0 || y != point.1) ==> #[trigger] pixel_at(
                *final(img),
                x,
                y,
            ) == pixel_at(*old(img), x, y),
        pixel_at(*final(img), point.0 as int, point.1 as int) == painted(
            *old(img),
            pixel_at(*old(img), point.0 as int, point.1 as int),
            c,
        ),
{
    let (r, g, b): (u8, u8, u8) = c.val();
    let alpha: u8 = get_pixel(img, point.0, point.1).3;
    put_pixel(img, point.0, point.1, (r, g, b, alpha));
}

/// Whether `(i, j)` lies on the line of `length` pixels that starts at
/// `start` and runs towards larger `y`.
pub open spec fn on_vertical_line(start: (u32, u32), length: int, i: int, j: int) -> bool {
    i == start.0 && start.1 <= j < start.1 + length
}

/// Whether `(i, j)` lies on the line of `length` pixels that starts at
/// `start` and runs towards larger `x`.
pub open spec fn on_horizontal_line(start: (u32, u32), length: int, i: int, j: int) -> bool {
    j == start.1 && start.0 <= i < start.0 + length
}

/// Draws a line of `length` pixels in colour `c` from `start_point` towards
/// larger `y`.
///
/// The line must start inside the image and end before its last row;
/// otherwise nothing is drawn.
pub fn draw_vertical_line(
    img: &mut DynamicImage,
    c: Color,
    start_point: (u32, u32),
    length: u32,
) -> (res: Result<(), ToolboxError>)
    ensures
        res is Err <==> start_point.0 >= width_of(*old(img)) || start_point.1 + length
            >= height_of(*old(img)),
        res matches Err(e) ==> e == ToolboxError::OutOfBounds && *final(img) == *old(img),
        res is Ok ==> drawn(
            *old(img),
            *final(img),
            c,
            |i: int, j: int| on_vertical_line(start_point, length as int, i, j),
        ),
{
    let (x, y): (u32, u32) = start_point;
    let (w, h): (u32, u32) = dimensions(img);
    if x >= w || y as u64 + length as u64 >= h as u64 {
        return Err(ToolboxError::OutOfBounds);
    }
    let mut i: u32 = 0;
    while i < length
        invariant
            i <= length,
            x == start_point.0 && y == start_point.1,
            w == width_of(*old(img)) && h == height_of(*old(img)),
            x < w,
            y + length < h,
            drawn(
                *old(img),
                *img,
                c,
                |a: int, b: int| on_vertical_line(start_point, i as int, a, b),
            ),
        decreases length - i,
    {
        paint(img, c, (x, y + i));
        i = i + 1;
    }
    Ok(())
}

/// Draws a line of `length` pixels in colour `c` from `start_point` towards
/// larger `x`.
///
/// The line must start inside the image and end before its last column;
/// otherwise nothing is drawn.
pub fn draw_horizontal_line(
    img: &mut DynamicImage,
    c: Color,
    start_point: (u32, u32),
    length: u32,
) -> (res: Result<(), ToolboxError>)
    ensures
        res is Err <==> start_point.1 >= height_of(*old(img)) || start_point.0 + length
            >= width_of(*old(img)),
        res matches Err(e) ==> e == ToolboxError::OutOfBounds && *final(img) == *old(img),
        res is Ok ==> drawn(
            *old(img),
            *final(img),
            c,
            |i: int, j: int| on_horizontal_line(start_point, length as int, i, j),
        ),
{
    let (x, y): (u32, u32) = start_point;
    let (w, h): (u32, u32) = dimensions(img);
    if y >= h || x as u64 + length as u64 >= w as u64 {
        return Err(ToolboxError::OutOfBounds);
    }
    let mut i: u32 = 0;
    while i < length
        invariant
            i <= length,
            x == start_point.0 && y == start_point.1,
            w == width_of(*old(img)) && h == height_of(*old(img)),
            y < h,
            x + length < w,
            drawn(
                *old(img),
                *img,
                c,
                |a: int, b: int| on_horizontal_line(start_point, i as int, a, b),
            ),
        decreases length - i,
    {
        paint(img, c, (x + i, y));
        i = i + 1;
    }
    Ok(())
}

/// The row on which the far horizontal side of a rectangle is drawn: the first
/// row past the rectangle, or the last row of the image if that is nearer.
pub open spec fn far_row(img: DynamicImage, x_y: (u32, u32), w_h: (u32, u32)) -> int {
    if x_y.1 + w_h.1 <= height_of(img) - 1 {
        x_y.1 + w_h.1
    } else {
        height_of(img) - 1
    }
}

/// The column on which the far vertical side of a rectangle is drawn: the
/// first column past the rectangle, or the last column of the image if that
/// is nearer.
pub open spec fn far_column(img: DynamicImage, x_y: (u32, u32), w_h: (u32, u32)) -> int {
    if x_y.0 + w_h.0 <= width_of(img) - 1 {
        x_y.0 + w_h.0
    } else {
        width_of(img) - 1
    }
}

/// Whether `(i, j)` lies on one of the two horizontal sides of the rectangle,
/// within the first `len` columns of it.
pub open spec fn on_horizontal_sides(
    img: DynamicImage,
    x_y: (u32, u32),
    w_h: (u32, u32),
    len: int,
    i: int,
    j: int,
) -> bool {
    x_y.0 <= i < x_y.0 + len && (j == x_y.1 || j == far_row(img, x_y, w_h))
}

/// Whether `(i, j)` lies on one of the two vertical sides of the rectangle,
/// within the first `len` rows of it.
pub open spec fn on_vertical_sides(
    img: DynamicImage,
    x_y: (u32, u32),
    w_h: (u32, u32),
    len: int,
    i: int,
    j: int,
) -> bool {
    x_y.1 <= j < x_y.1 + len && (i == x_y.0 || i == far_column(img, x_y, w_h))
}

/// Whether `(i, j)` lies on the outline of the rectangle with first pixel
/// `x_y` and extents `w_h`, as it is drawn into `img`.
pub open spec fn on_outline(
    img: DynamicImage,
    x_y: (u32, u32),
    w_h: (u32, u32),
    i: int,
    j: int,
) -> bool {
    on_horizontal_sides(img, x_y, w_h, w_h.0 as int, i, j) || on_vertical_sides(
        img,
        x_y,
        w_h,
        w_h.1 as int,
        i,
        j,
    )
}

/// Draws the outline of the rectangle with first pixel `x_y` and extents
/// `w_h` in the given colour, and says whether it did: a rectangle that does
/// not lie inside the image is not drawn.
///
/// A rectangle that lies inside the image but has no rows must start above
/// the image's last row if it has columns, and likewise with rows and columns
/// exchanged.
pub fn draw_square(img: &mut DynamicImage, color: Color, x_y: (u32, u32), w_h: (u32, u32)) -> (done:
    bool)
    requires
        w_h.0 > 0 ==> x_y.1 < height_of(*old(img)) || x_y.1 + w_h.1 > height_of(*old(img)),
        w_h.1 > 0 ==> x_y.0 < width_of(*old(img)) || x_y.0 + w_h.0 > width_of(*old(img)),
    ensures
        done == (x_y.0 + w_h.0 <= width_of(*old(img)) && x_y.1 + w_h.1 <= height_of(*old(img))),
        !done ==> *final(img) == *old(img),
        done ==> drawn(
            *old(img),
            *final(img),
            color,
            |i: int, j: int| on_outline(*old(img), x_y, w_h, i, j),
        ),
{
    let (w, h): (u32, u32) = dimensions(img);
    if x_y.0 as u64 + w_h.0 as u64 > w as u64 || x_y.1 as u64 + w_h.1 as u64 > h as u64 {
        return false;
    }
    let start: u32 = x_y.0;
    let end: u32 = x_y.0 + w_h.0;
    let mut i: u32 = start;
    while i < end
        invariant
            start == x_y.0 && end == x_y.0 + w_h.0,
            start <= i <= end,
            w == width_of(*old(img)) && h == height_of(*old(img)),
            end <= w && x_y.1 + w_h.1 <= h,
            w_h.0 > 0 ==> x_y.1 < h,
            drawn(
                *old(img),
                *img,
                color,
                |a: int, b: int| on_horizontal_sides(*old(img), x_y, w_h, i - start, a, b),
            ),
        decreases end - i,
    {
        paint(img, color, (i, x_y.1));
        let bottom: u32 = if x_y.1 + w_h.1 <= h - 1 {
            x_y.1 + w_h.1
        } else {
            h - 1
        };
        paint(img, color, (i, bottom));
        i = i + 1;
    }
    let start: u32 = x_y.1;
    let end: u32 = w_h.1 + x_y.1;
    let mut j: u32 = start;
    while j < end
        invariant
            start == x_y.1 && end == x_y.1 + w_h.1,
            start <= j <= end,
            w == width_of(*old(img)) && h == height_of(*old(img)),
            end <= h && x_y.0 + w_h.0 <= w,
            w_h.1 > 0 ==> x_y.0 < w,
            drawn(
                *old(img),
                *img,
                color,
                |a: int, b: int|
                    on_horizontal_sides(*old(img), x_y, w_h, w_h.0 as int, a, b)
                        || on_vertical_sides(*old(img), x_y, w_h, j - start, a, b),
            ),
        decreases end - j,
    {
        paint(img, color, (x_y.0, j));
        let right: u32 = if x_y.0 + w_h.0 <= w - 1 {
            x_y.0 + w_h.0
        } else {
            w - 1
        };
        paint(img, color, (right, j));
        j = j + 1;
    }
    true
}

/// Draws the outline of window `q` in colour `c`, and says whether it did: a
/// window that does not lie inside the image is not drawn.
pub fn draw_square_q(img: &mut DynamicImage, c: Color, q: Quanternion) -> (done: bool)
    requires
        q.w > 0 ==> q.y_h < height_of(*old(img)) || q.y_h + q.h > height_of(*old(img)),
        q.h > 0 ==> q.x_w < width_of(*old(img)) || q.x_w + q.w > width_of(*old(img)),
    ensures
        done == q.fits(*old(img)),
        !done ==> *final(img) == *old(img),
        done ==> drawn(
            *old(img),
            *final(img),
            c,
            |i: int, j: int| on_outline(*old(img), (q.x_w, q.y_h), (q.w, q.h), i, j),
        ),
{
    draw_square(img, c, (q.x_w, q.y_h), (q.w, q.h))
}

} // verus!
