//! Per-channel histograms of an image.

use vstd::prelude::*;
use image::DynamicImage;
use crate::error::ToolboxError;
use crate::raster::{dimensions, get_pixel, height_of, pixel_at, width_of};
use crate::ratio::Ratio;

verus! {

/// A colour channel of a pixel.
#[derive(Debug, Copy, Clone)]
pub enum Pix {
    R,
    G,
    B,
}

/// The value that pixel `p` has on channel `c`.
pub open spec fn channel_of(p: (u8, u8, u8, u8), c: Pix) -> u8 {
    match c {
        Pix::R => p.0,
        Pix::G => p.1,
        Pix::B => p.2,
    }
}

/// How many of the first `rows` pixels of column `x` have a value between `lo`
/// and `hi` (both included) on channel `c`.
pub open spec fn in_column(img: DynamicImage, c: Pix, lo: int, hi: int, x: int, rows: nat) -> nat
    decreases rows,
{
    if rows == 0 {
        0
    } else {
        let v = channel_of(pixel_at(img, x, rows - 1), c);
        in_column(img, c, lo, hi, x, (rows - 1) as nat) + if lo <= v <= hi {
            1nat
        } else {
            0nat
        }
    }
}

/// How many pixels in the first `cols` columns of the image have a value
/// between `lo` and `hi` (both included) on channel `c`.
pub open spec fn in_columns(img: DynamicImage, c: Pix, lo: int, hi: int, cols: nat) -> nat
    decreases cols,
{
    if cols == 0 {
        0
    } else {
        in_columns(img, c, lo, hi, (cols - 1) as nat) + in_column(
            img,
            c,
            lo,
            hi,
            cols - 1,
            height_of(img),
        )
    }
}

/// How many pixels of the image have a value between `lo` and `hi` (both
/// included) on channel `c`.
pub open spec fn pixels_with(img: DynamicImage, c: Pix, lo: int, hi: int) -> nat {
    in_columns(img, c, lo, hi, width_of(img))
}

/// A column holds no more matching pixels than it has rows.
pub proof fn lemma_in_column_bound(img: DynamicImage, c: Pix, lo: int, hi: int, x: int, rows: nat)
    ensures
        in_column(img, c, lo, hi, x, rows) <= rows,
    decreases rows,
{
    if rows > 0 {
        lemma_in_column_bound(img, c, lo, hi, x, (rows - 1) as nat);
    }
}

/// The first columns of an image hold no more matching pixels than they
/// have pixels.
pub proof fn lemma_in_columns_bound(img: DynamicImage, c: Pix, lo: int, hi: int, cols: nat)
    ensures
        in_columns(img, c, lo, hi, cols) <= cols * height_of(img),
    decreases cols,
{
    if cols > 0 {
        lemma_in_columns_bound(img, c, lo, hi, (cols - 1) as nat);
        lemma_in_column_bound(img, c, lo, hi, cols - 1, height_of(img));
        assert((cols - 1) * height_of(img) + height_of(img) == cols * height_of(img))
            by (nonlinear_arith);
    }
}

/// A range of values splits into its lower and its upper part.
pub proof fn lemma_in_column_split(
    img: DynamicImage,
    c: Pix,
    lo: int,
    mid: int,
    hi: int,
    x: int,
    rows: nat,
)
    requires
        lo <= mid + 1,
        mid <= hi,
    ensures
        in_column(img, c, lo, hi, x, rows) == in_column(img, c, lo, mid, x, rows) + in_column(
            img,
            c,
            mid + 1,
            hi,
            x,
            rows,
        ),
    decreases rows,
{
    if rows > 0 {
        lemma_in_column_split(img, c, lo, mid, hi, x, (rows - 1) as nat);
    }
}

/// A range of values splits into its lower and its upper part.
pub proof fn lemma_in_columns_split(
    img: DynamicImage,
    c: Pix,
    lo: int,
    mid: int,
    hi: int,
    cols: nat,
)
    requires
        lo <= mid + 1,
        mid <= hi,
    ensures
        in_columns(img, c, lo, hi, cols) == in_columns(img, c, lo, mid, cols) + in_columns(
            img,
            c,
            mid + 1,
            hi,
            cols,
        ),
    decreases cols,
{
    if cols > 0 {
        lemma_in_columns_split(img, c, lo, mid, hi, (cols - 1) as nat);
        lemma_in_column_split(img, c, lo, mid, hi, cols - 1, height_of(img));
    }
}

/// Every pixel has a value between 0 and 255 on every channel.
pub proof fn lemma_in_column_all(img: DynamicImage, c: Pix, x: int, rows: nat)
    ensures
        in_column(img, c, 0, 255, x, rows) == rows,
    decreases rows,
{
    if rows > 0 {
        lemma_in_column_all(img, c, x, (rows - 1) as nat);
    }
}

/// Every pixel has a value between 0 and 255 on every channel.
pub proof fn lemma_in_columns_all(img: DynamicImage, c: Pix, cols: nat)
    ensures
        in_columns(img, c, 0, 255, cols) == cols * height_of(img),
    decreases cols,
{
    if cols > 0 {
        lemma_in_columns_all(img, c, (cols - 1) as nat);
        lemma_in_column_all(img, c, cols - 1, height_of(img));
        assert((cols - 1) * height_of(img) + height_of(img) == cols * height_of(img))
            by (nonlinear_arith);
    } else {
        assert(0 * height_of(img) == 0) by (nonlinear_arith);
    }
}

/// For each colour channel, how many pixels of an image have each of the 256
/// possible values, and how many pixels there are in all.
///
/// The probability of value `v` on channel `c` is `count(c, v) / total()`.
pub struct Histogram {
    r_dist: Vec<u64>,
    g_dist: Vec<u64>,
    b_dist: Vec<u64>,
    total: u64,
}

impl Histogram {
    spec fn dist(&self, c: Pix) -> Seq<u64> {
        match c {
            Pix::R => self.r_dist@,
            Pix::G => self.g_dist@,
            Pix::B => self.b_dist@,
        }
    }

    /// Number of pixels with value `v` on channel `c`.
    pub closed spec fn count(&self, c: Pix, v: int) -> nat {
        if 0 <= v < self.dist(c).len() {
            self.dist(c)[v] as nat
        } else {
            0
        }
    }

    /// Number of pixels counted.
    pub closed spec fn total(&self) -> nat {
        self.total as nat
    }

    /// Number of pixels with a value of at most `v` on channel `c`: the sum of
    /// `count(c, i)` for `i` from 0 to `v`, both included.
    pub open spec fn cumulative(&self, c: Pix, v: int) -> nat
        decreases v + 1,
    {
        if v < 0 {
            0
        } else {
            self.cumulative(c, v - 1) + self.count(c, v)
        }
    }

    /// A histogram is well formed when it counts at least one pixel and, on
    /// each channel, its 256 counts add up to the number of pixels.
    pub closed spec fn wf(&self) -> bool {
        &&& self.r_dist@.len() == 256
        &&& self.g_dist@.len() == 256
        &&& self.b_dist@.len() == 256
        &&& self.total > 0
        &&& forall|c: Pix| #[trigger] self.cumulative(c, 255) == self.total()
    }

    /// Whether this is the histogram of `img`: it counts every pixel of the
    /// image once on each channel.
    pub open spec fn describes(&self, img: DynamicImage) -> bool {
        &&& self.total() == width_of(img) * height_of(img)
        &&& forall|c: Pix, v: int|
            0 <= v <= 255 ==> #[trigger] self.count(c, v) == pixels_with(img, c, v, v)
    }

    /// The counts of a channel never decrease when added up further.
    pub proof fn lemma_cumulative_monotone(&self, c: Pix, a: int, b: int)
        requires
            a <= b,
        ensures
            self.cumulative(c, a) <= self.cumulative(c, b),
        decreases b - a,
    {
        if a < b {
            self.lemma_cumulative_monotone(c, a, b - 1);
        }
    }

    /// In a well-formed histogram the 256 counts of each channel add up to the
    /// number of pixels, which is not zero: the probabilities of a channel sum
    /// to exactly one.
    pub proof fn lemma_counts_sum_to_total(&self, c: Pix)
        requires
            self.wf(),
        ensures
            self.total() > 0,
            self.cumulative(c, 255) == self.total(),
    {
    }

    /// In a well-formed histogram no count and no partial sum of counts
    /// exceeds the number of pixels: every probability lies between 0 and 1.
    pub proof fn lemma_count_at_most_total(&self, c: Pix, v: int)
        requires
            self.wf(),
            0 <= v <= 255,
        ensures
            self.count(c, v) <= self.cumulative(c, v) <= self.total(),
    {
        self.lemma_cumulative_monotone(c, v, 255);
        self.lemma_counts_sum_to_total(c);
    }

    /// In the histogram of an image, the counts of a channel up to `v` add up
    /// to the number of pixels whose value on that channel is at most `v`.
    pub proof fn lemma_cumulative_counts_pixels(&self, img: DynamicImage, c: Pix, v: int)
        requires
            self.describes(img),
            0 <= v <= 255,
        ensures
            self.cumulative(c, v) == pixels_with(img, c, 0, v),
        decreases v,
    {
        if v > 0 {
            self.lemma_cumulative_counts_pixels(img, c, v - 1);
            lemma_in_columns_split(img, c, 0, v - 1, v, width_of(img));
        } else {
            assert(self.cumulative(c, -1) == 0);
        }
    }

    /// The probabilities of value `pix_val` on the red, green and blue
    /// channels, in this order.
    pub fn probability(&self, pix_val: u8) -> (p: (Ratio, Ratio, Ratio))
        requires
            self.wf(),
        ensures
            p.0.numer == self.count(Pix::R, pix_val as int),
            p.1.numer == self.count(Pix::G, pix_val as int),
            p.2.numer == self.count(Pix::B, pix_val as int),
            p.0.denom == self.total() && p.1.denom == self.total() && p.2.denom == self.total(),
            p.0.numer <= p.0.denom && p.1.numer <= p.1.denom && p.2.numer <= p.2.denom,
            p.0.denom > 0,
    {
        (
            self.probability_of(Pix::R, pix_val),
            self.probability_of(Pix::G, pix_val),
            self.probability_of(Pix::B, pix_val),
        )
    }

    /// The probability of value `pix_val` on channel `p`: the fraction of the
    /// pixels that have this value there. It lies between 0 and 1.
    pub fn probability_of(&self, p: Pix, pix_val: u8) -> (r: Ratio)
        requires
            self.wf(),
        ensures
            r.numer == self.count(p, pix_val as int),
            r.denom == self.total(),
            0 <= r.numer <= r.denom <= u64::MAX,
            r.denom > 0,
    {
        proof {
            self.lemma_count_at_most_total(p, pix_val as int);
        }
        let n: u64 = match p {
            Pix::R => self.r_dist[pix_val as usize],
            Pix::G => self.g_dist[pix_val as usize],
            Pix::B => self.b_dist[pix_val as usize],
        };
        Ratio { numer: n as u128, denom: self.total as u128 }
    }

    /// Counts the pixels of `img` by their value on each channel.
    ///
    /// An image without pixels has no histogram.
    pub fn new(img: &DynamicImage) -> (res: Result<Histogram, ToolboxError>)
        ensures
            res is Err <==> width_of(*img) == 0 || height_of(*img) == 0,
            res matches Err(e) ==> e == ToolboxError::InvalidImage,
            res matches Ok(h) ==> h.wf() && h.describes(*img),
    {
        let (width, height): (u32, u32) = dimensions(img);
        if width == 0 || height == 0 {
            return Err(ToolboxError::InvalidImage);
        }
        assert(width * height <= 0xffff_ffff * 0xffff_ffff) by (nonlinear_arith)
            requires
                width <= 0xffff_ffff,
                height <= 0xffff_ffff,
        ;
        assert(width * height > 0) by (nonlinear_arith)
            requires
                width > 0,
                height > 0,
        ;
        let mut r_dist: Vec<u64> = zeros();
        let mut g_dist: Vec<u64> = zeros();
        let mut b_dist: Vec<u64> = zeros();
        let mut i: u32 = 0;
        while i < width
            invariant
                i <= width,
                width == width_of(*img),
                height == height_of(*img),
                width * height <= 0xffff_ffff * 0xffff_ffff,
                tallied(r_dist@, *img, Pix::R, i as nat, 0),
                tallied(g_dist@, *img, Pix::G, i as nat, 0),
                tallied(b_dist@, *img, Pix::B, i as nat, 0),
            decreases width - i,
        {
            let mut j: u32 = 0;
            while j < height
                invariant
                    i < width,
                    j <= height,
                    width == width_of(*img),
                    height == height_of(*img),
                    width * height <= 0xffff_ffff * 0xffff_ffff,
                    tallied(r_dist@, *img, Pix::R, i as nat, j as nat),
                    tallied(g_dist@, *img, Pix::G, i as nat, j as nat),
                    tallied(b_dist@, *img, Pix::B, i as nat, j as nat),
                decreases height - j,
            {
                let p: (u8, u8, u8, u8) = get_pixel(img, i, j);
                proof {
                    lemma_in_columns_bound(*img, Pix::R, p.0 as int, p.0 as int, i as nat);
                    lemma_in_columns_bound(*img, Pix::G, p.1 as int, p.1 as int, i as nat);
                    lemma_in_columns_bound(*img, Pix::B, p.2 as int, p.2 as int, i as nat);
                    lemma_in_column_bound(*img, Pix::R, p.0 as int, p.0 as int, i as int, j as nat);
                    lemma_in_column_bound(*img, Pix::G, p.1 as int, p.1 as int, i as int, j as nat);
                    lemma_in_column_bound(*img, Pix::B, p.2 as int, p.2 as int, i as int, j as nat);
                    assert(i * height + j < width * height) by (nonlinear_arith)
                        requires
                            i < width,
                            j < height,
                    ;
                }
                bump(&mut r_dist, p.0);
                bump(&mut g_dist, p.1);
                bump(&mut b_dist, p.2);
                j = j + 1;
            }
            i = i + 1;
        }
        let total: u64 = (width as u64) * (height as u64);
        let h = Histogram { r_dist, g_dist, b_dist, total };
        proof {
            assert(h.describes(*img));
            assert forall|c: Pix| #[trigger] h.cumulative(c, 255) == h.total() by {
                h.lemma_cumulative_counts_pixels(*img, c, 255);
                lemma_in_columns_all(*img, c, width_of(*img));
            }
        }
        Ok(h)
    }
}

/// Whether `dist` holds, for each value of channel `c`, the number of pixels
/// with that value in the first `cols` columns of the image and in the first
/// `rows` rows of the column after them.
spec fn tallied(dist: Seq<u64>, img: DynamicImage, c: Pix, cols: nat, rows: nat) -> bool {
    &&& dist.len() == 256
    &&& forall|v: int|
        0 <= v < 256 ==> #[trigger] dist[v] == in_columns(img, c, v, v, cols) + in_column(
            img,
            c,
            v,
            v,
            cols as int,
            rows,
        )
}

/// A vector of 256 zero counts.
fn zeros() -> (v: Vec<u64>)
    ensures
        v@.len() == 256,
        forall|i: int| 0 <= i < 256 ==> v@[i] == 0,
{
    let mut v: Vec<u64> = Vec::new();
    let mut k: usize = 0;
    while k < 256
        invariant
            k <= 256,
            v@.len() == k,
            forall|i: int| 0 <= i < k ==> v@[i] == 0,
        decreases 256 - k,
    {
        v.push(0);
        k = k + 1;
    }
    v
}

/// Adds one to the count at `idx`.
fn bump(dist: &mut Vec<u64>, idx: u8)
    requires
        old(dist)@.len() == 256,
        old(dist)@[idx as int] < u64::MAX,
    ensures
        final(dist)@ == old(dist)@.update(idx as int, (old(dist)@[idx as int] + 1) as u64),
{
    let n: u64 = dist[idx as usize];
    dist.set(idx as usize, n + 1);
}

} // verus!
