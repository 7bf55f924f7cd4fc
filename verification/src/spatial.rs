//! Rectangular windows of an image: cutting an image into square tiles,
//! telling tiles that look alike from tiles that do not ([`compare`]), and
//! marking windows in the image ([`draw`]).

use vstd::prelude::*;
use vstd::arithmetic::div_mod::{
    lemma_fundamental_div_mod, lemma_fundamental_div_mod_converse, lemma_mod_bound,
};
use image::DynamicImage;
use crate::error::ToolboxError;
use crate::raster::{dimensions, height_of, width_of};

pub mod compare;
pub mod draw;

pub use compare::{
    block_distance, find_non_equals_mse, im_to_vec, is_equal_mse, mse, mse_vec,
};
pub use draw::{
    draw_horizontal_line, draw_square, draw_square_q, draw_vertical_line, paint, Color,
};

verus! {

/// An axis-aligned window of an image: the corner `(x_w, y_h)` nearest the
/// origin, and the extents `w` and `h` along the two axes.
#[derive(Debug, Clone, Copy, PartialEq, Eq, Hash, Structural)]
pub struct Quanternion {
    /// Column of the window's first pixel.
    pub x_w: u32,
    /// Row of the window's first pixel.
    pub y_h: u32,
    /// Number of columns that the window spans.
    pub w: u32,
    /// Number of rows that the window spans.
    pub h: u32,
}

impl Quanternion {
    /// Whether the window lies inside the image.
    pub open spec fn fits(self, img: DynamicImage) -> bool {
        self.x_w + self.w <= width_of(img) && self.y_h + self.h <= height_of(img)
    }

    /// Number of pixels in the window.
    pub open spec fn area(self) -> nat {
        (self.w * self.h) as nat
    }

    /// The window of extents `len_w` and `len_h` whose first pixel is `point`.
    pub fn new(point: (u32, u32), len_w: u32, len_h: u32) -> (q: Quanternion)
        ensures
            q == (Quanternion { x_w: point.0, y_h: point.1, w: len_w, h: len_h }),
    {
        Quanternion { x_w: point.0, y_h: point.1, w: len_w, h: len_h }
    }

    /// Whether the window lies inside the image.
    pub fn lies_inside(&self, img: &DynamicImage) -> (inside: bool)
        ensures
            inside == self.fits(*img),
    {
        let (w, h): (u32, u32) = dimensions(img);
        self.x_w as u64 + self.w as u64 <= w as u64 && self.y_h as u64 + self.h as u64 <= h as u64
    }

    /// The first column past the window.
    pub fn edge_w(&self) -> (e: u32)
        requires
            self.x_w + self.w <= u32::MAX,
        ensures
            e == self.x_w + self.w,
    {
        self.x_w + self.w
    }

    /// The first row past the window.
    pub fn edge_h(&self) -> (e: u32)
        requires
            self.y_h + self.h <= u32::MAX,
        ensures
            e == self.y_h + self.h,
    {
        self.y_h + self.h
    }
}

/// Whether the window `q` is the square tile of side `s` in column `a` and
/// row `b` of a tiling that starts at the origin.
pub open spec fn is_tile(q: Quanternion, s: nat, a: int, b: int) -> bool {
    q.x_w == a * s && q.y_h == b * s && q.w == s && q.h == s
}

/// Whether `squares` lists the tiles of side `s` that fit whole into an image
/// of `w` by `h` pixels: `w / s` columns of `h / s` tiles each, column by
/// column, each column from the top. Tile number `k` stands in column
/// `k / (h / s)` and row `k % (h / s)`.
pub open spec fn is_tiling(squares: Seq<Quanternion>, w: nat, h: nat, s: nat) -> bool {
    &&& squares.len() == (w / s) * (h / s)
    &&& forall|k: int|
        0 <= k < squares.len() ==> is_tile(
            #[trigger] squares[k],
            s,
            k / ((h / s) as int),
            k % ((h / s) as int),
        )
}

/// In a tiling, the tile in column `a` and row `b` is number `a * (h / s) + b`
/// of the list.
pub proof fn lemma_tile_in_column_and_row(
    squares: Seq<Quanternion>,
    w: nat,
    h: nat,
    s: nat,
    a: int,
    b: int,
)
    requires
        is_tiling(squares, w, h, s),
        0 <= a < w / s,
        0 <= b < h / s,
    ensures
        0 <= a * (h / s) + b < squares.len(),
        is_tile(squares[a * (h / s) + b], s, a, b),
{
    let nx = (w / s) as int;
    let ny = (h / s) as int;
    let k = a * ny + b;
    assert(0 <= a * ny && a * ny + ny <= nx * ny) by (nonlinear_arith)
        requires
            0 <= a < nx,
            0 < ny,
    ;
    lemma_fundamental_div_mod_converse(k, ny, a, b);
}

/// Whether `squares` is the beginning of the tiling of `img` with tiles of
/// side `s`, and each of its tiles lies inside the image.
spec fn tiled(squares: Seq<Quanternion>, img: DynamicImage, s: nat) -> bool {
    let ny = (height_of(img) / s) as int;
    forall|k: int|
        0 <= k < squares.len() ==> {
            &&& is_tile(#[trigger] squares[k], s, k / ny, k % ny)
            &&& squares[k].fits(img)
        }
}

/// Tile number `a` along an axis of length `w` fits whole exactly when `a`
/// is below `w / s`.
proof fn lemma_tile_fits(a: int, s: int, w: int)
    requires
        0 <= a,
        0 < s,
        0 <= w,
    ensures
        a * s + s <= w <==> a < w / s,
{
    lemma_fundamental_div_mod(w, s);
    lemma_mod_bound(w, s);
    let q = w / s;
    let r = w % s;
    assert(a * s + s <= w <==> a < q) by (nonlinear_arith)
        requires
            w == s * q + r,
            0 <= r < s,
            0 <= a,
    ;
}

/// Whether the square of side `len` whose first pixel is `point` lies inside
/// the image.
pub fn is_valid_window(img: &DynamicImage, point: (u32, u32), len: u32) -> (valid: bool)
    ensures
        valid == (point.0 + len <= width_of(*img) && point.1 + len <= height_of(*img)),
{
    let (w, h): (u32, u32) = dimensions(img);
    let (x, y): (u32, u32) = point;
    x as u64 + len as u64 <= w as u64 && y as u64 + len as u64 <= h as u64
}

/// Cuts the image into square tiles of side `square_size`, without overlap,
/// starting at the origin. What is left over along the far edges, too narrow
/// for a whole tile, belongs to no tile.
///
/// The tile must be smaller than the image in both directions. A tile of
/// side zero is not accepted for an image that has pixels.
pub fn img_to_squares(img: &DynamicImage, square_size: usize) -> (res: Result<
    Vec<Quanternion>,
    ToolboxError,
>)
    requires
        square_size > 0 || width_of(*img) == 0 || height_of(*img) == 0,
    ensures
        res is Err <==> width_of(*img) <= square_size || height_of(*img) <= square_size,
        res matches Err(e) ==> e == ToolboxError::InvalidTileSize,
        res matches Ok(squares) ==> {
            &&& is_tiling(squares@, width_of(*img), height_of(*img), square_size as nat)
            &&& forall|k: int| 0 <= k < squares@.len() ==> (#[trigger] squares@[k]).fits(*img)
        },
{
    let (w, h): (u32, u32) = dimensions(img);
    if w as u64 <= square_size as u64 || h as u64 <= square_size as u64 {
        return Err(ToolboxError::InvalidTileSize);
    }
    let s: u32 = square_size as u32;
    let ghost nx: int = (w as int) / (s as int);
    let ghost ny: int = (h as int) / (s as int);
    proof {
        lemma_tile_fits(0, s as int, w as int);
        lemma_tile_fits(0, s as int, h as int);
    }
    let mut squares: Vec<Quanternion> = Vec::new();
    let mut i: u64 = 0;
    let ghost mut a: int = 0;
    while i < w as u64
        invariant
            0 < s < w && s < h,
            s == square_size,
            w == width_of(*img) && h == height_of(*img),
            nx == (w as int) / (s as int) && ny == (h as int) / (s as int),
            nx > 0 && ny > 0,
            0 <= a,
            i == a * s,
            squares@.len() == (if a < nx { a } else { nx }) * ny,
            tiled(squares@, *img, s as nat),
        decreases w + s - i,
    {
        let mut j: u64 = 0;
        let ghost mut b: int = 0;
        let ghost base: int = (if a < nx { a } else { nx }) * ny;
        while j < h as u64
            invariant
                0 < s < w && s < h,
                s == square_size,
                w == width_of(*img) && h == height_of(*img),
                nx == (w as int) / (s as int) && ny == (h as int) / (s as int),
                nx > 0 && ny > 0,
                0 <= a,
                0 <= b,
                i == a * s,
                i < w,
                j == b * s,
                base == (if a < nx { a } else { nx }) * ny,
                squares@.len() == base + (if a < nx { if b < ny { b } else { ny } } else { 0 }),
                tiled(squares@, *img, s as nat),
            decreases h + s - j,
        {
            proof {
                lemma_tile_fits(a, s as int, w as int);
                lemma_tile_fits(b, s as int, h as int);
            }
            if is_valid_window(img, (i as u32, j as u32), s) {
                proof {
                    let k = squares@.len() as int;
                    assert(k == a * ny + b);
                    lemma_fundamental_div_mod_converse(k, ny, a, b);
                }
                squares.push(Quanternion::new((i as u32, j as u32), s, s));
            }
            j = j + s as u64;
            proof {
                assert((b + 1) * s == b * s + s) by (nonlinear_arith);
                b = b + 1;
            }
        }
        proof {
            lemma_tile_fits(b, s as int, h as int);
            assert((a + 1) * ny == a * ny + ny) by (nonlinear_arith);
            assert((a + 1) * s == a * s + s) by (nonlinear_arith);
        }
        i = i + s as u64;
        proof {
            a = a + 1;
        }
    }
    proof {
        lemma_tile_fits(a, s as int, w as int);
        assert(is_tiling(squares@, width_of(*img), height_of(*img), square_size as nat));
    }
    Ok(squares)
}

} // verus!
