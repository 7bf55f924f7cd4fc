//! The distance between two windows of an image, and the windows that are
//! unlike a given one.

use vstd::prelude::*;
use vstd::arithmetic::div_mod::lemma_fundamental_div_mod_converse;
use image::DynamicImage;
use crate::error::ToolboxError;
use crate::histogram::{channel_of, Pix};
use crate::raster::{dimensions, get_pixel, pixel_at};
use crate::ratio::{Ratio, Tolerance};
use crate::spatial::Quanternion;

verus! {

/// Sample number `k` of window `q` on channel `c`: the window's pixels are
/// numbered column by column, each column from the top.
pub open spec fn sample_at(img: DynamicImage, q: Quanternion, c: Pix, k: int) -> u32 {
    channel_of(pixel_at(img, q.x_w + k / (q.h as int), q.y_h + k % (q.h as int)), c) as u32
}

/// The values that the pixels of window `q` have on channel `c`, column by
/// column, each column from the top.
pub open spec fn samples(img: DynamicImage, q: Quanternion, c: Pix) -> Seq<u32> {
    Seq::new(q.area(), |k: int| sample_at(img, q, c, k))
}

/// Whether `v` holds the first samples of window `q` on channel `c`.
spec fn sampled(v: Seq<u32>, img: DynamicImage, q: Quanternion, c: Pix) -> bool {
    forall|k: int| 0 <= k < v.len() ==> #[trigger] v[k] == sample_at(img, q, c, k)
}

/// The red, green and blue values of the pixels of window `q`, as three
/// sequences of equal length, column by column, each column from the top.
pub fn im_to_vec(img: &DynamicImage, q: Quanternion) -> (rgb: (Vec<u32>, Vec<u32>, Vec<u32>))
    requires
        q.fits(*img),
    ensures
        rgb.0@ == samples(*img, q, Pix::R),
        rgb.1@ == samples(*img, q, Pix::G),
        rgb.2@ == samples(*img, q, Pix::B),
{
    let (w, h): (u32, u32) = dimensions(img);
    let mut real_reds: Vec<u32> = Vec::new();
    let mut real_greens: Vec<u32> = Vec::new();
    let mut real_blues: Vec<u32> = Vec::new();
    let edge_w: u32 = q.edge_w();
    let edge_h: u32 = q.edge_h();
    let mut i: u32 = q.x_w;
    while i < edge_w
        invariant
            q.fits(*img),
            edge_w == q.x_w + q.w,
            edge_h == q.y_h + q.h,
            q.x_w <= i <= edge_w,
            real_reds@.len() == (i - q.x_w) * q.h,
            real_greens@.len() == real_reds@.len(),
            real_blues@.len() == real_reds@.len(),
            sampled(real_reds@, *img, q, Pix::R),
            sampled(real_greens@, *img, q, Pix::G),
            sampled(real_blues@, *img, q, Pix::B),
        decreases edge_w - i,
    {
        let mut j: u32 = q.y_h;
        while j < edge_h
            invariant
                q.fits(*img),
                edge_w == q.x_w + q.w,
                edge_h == q.y_h + q.h,
                q.x_w <= i < edge_w,
                q.y_h <= j <= edge_h,
                real_reds@.len() == (i - q.x_w) * q.h + (j - q.y_h),
                real_greens@.len() == real_reds@.len(),
                real_blues@.len() == real_reds@.len(),
                sampled(real_reds@, *img, q, Pix::R),
                sampled(real_greens@, *img, q, Pix::G),
                sampled(real_blues@, *img, q, Pix::B),
            decreases edge_h - j,
        {
            let p: (u8, u8, u8, u8) = get_pixel(img, i, j);
            proof {
                let k = real_reds@.len() as int;
                lemma_fundamental_div_mod_converse(k, q.h as int, i - q.x_w, j - q.y_h);
            }
            real_reds.push(p.0 as u32);
            real_greens.push(p.1 as u32);
            real_blues.push(p.2 as u32);
            j = j + 1;
        }
        proof {
            assert((i + 1 - q.x_w) * q.h == (i - q.x_w) * q.h + q.h) by (nonlinear_arith);
        }
        i = i + 1;
    }
    proof {
        assert(real_reds@ =~= samples(*img, q, Pix::R));
        assert(real_greens@ =~= samples(*img, q, Pix::G));
        assert(real_blues@ =~= samples(*img, q, Pix::B));
    }
    (real_reds, real_greens, real_blues)
}

/// The distance between two numbers.
pub open spec fn abs_diff(a: int, b: int) -> nat {
    if a >= b {
        (a - b) as nat
    } else {
        (b - a) as nat
    }
}

/// The sum of the distances between the elements of `a` and the elements of
/// `b` at the same positions.
pub open spec fn sum_abs_diff(a: Seq<u32>, b: Seq<u32>) -> nat
    recommends
        a.len() == b.len(),
    decreases a.len(),
{
    if a.len() == 0 || b.len() == 0 {
        0
    } else {
        sum_abs_diff(a.drop_last(), b.drop_last()) + abs_diff(a.last() as int, b.last() as int)
    }
}

/// The sum of distances is at most the largest distance times the length.
pub proof fn lemma_sum_abs_diff_bound(a: Seq<u32>, b: Seq<u32>, max: nat)
    requires
        a.len() == b.len(),
        forall|i: int| 0 <= i < a.len() ==> a[i] <= max,
        forall|i: int| 0 <= i < b.len() ==> b[i] <= max,
    ensures
        sum_abs_diff(a, b) <= max * a.len(),
    decreases a.len(),
{
    if a.len() > 0 {
        lemma_sum_abs_diff_bound(a.drop_last(), b.drop_last(), max);
        assert(max * (a.len() - 1) + max == max * a.len()) by (nonlinear_arith);
    }
}

/// A sequence is at distance zero from itself.
pub proof fn lemma_sum_abs_diff_self(a: Seq<u32>)
    ensures
        sum_abs_diff(a, a) == 0,
    decreases a.len(),
{
    if a.len() > 0 {
        lemma_sum_abs_diff_self(a.drop_last());
    }
}

/// The distance between an estimate and the true value.
pub fn mse(est_val: u32, true_val: u32) -> (d: u32)
    ensures
        d == abs_diff(est_val as int, true_val as int),
{
    if est_val >= true_val {
        est_val - true_val
    } else {
        true_val - est_val
    }
}

/// The mean distance between the estimates and the true values at the same
/// positions: the sum of the distances over the number of positions. Of no
/// positions the mean is not defined.
///
/// The two sequences must have the same length.
pub fn mse_vec(est_points: &Vec<u32>, true_points: &Vec<u32>) -> (res: Result<Ratio, ToolboxError>)
    ensures
        res is Err <==> est_points@.len() != true_points@.len(),
        res matches Err(e) ==> e == ToolboxError::LengthMismatch,
        res matches Ok(r) ==> {
            &&& r.numer == sum_abs_diff(est_points@, true_points@)
            &&& r.denom == est_points@.len()
        },
{
    if est_points.len() != true_points.len() {
        return Err(ToolboxError::LengthMismatch);
    }
    let size: usize = est_points.len();
    let mut sum: u128 = 0;
    let mut i: usize = 0;
    while i < size
        invariant
            i <= size,
            size == est_points@.len(),
            size == true_points@.len(),
            sum == sum_abs_diff(est_points@.take(i as int), true_points@.take(i as int)),
            sum <= i * 0xffff_ffff,
        decreases size - i,
    {
        proof {
            assert(est_points@.take(i + 1).drop_last() =~= est_points@.take(i as int));
            assert(true_points@.take(i + 1).drop_last() =~= true_points@.take(i as int));
            assert((i + 1) * 0xffff_ffff == i * 0xffff_ffff + 0xffff_ffff) by (nonlinear_arith);
            assert(i * 0xffff_ffff <= 0xffff_ffff_ffff_ffff * 0xffff_ffff) by (nonlinear_arith)
                requires
                    i <= 0xffff_ffff_ffff_ffff,
            ;
        }
        sum = sum + mse(est_points[i], true_points[i]) as u128;
        i = i + 1;
    }
    proof {
        assert(est_points@.take(size as int) =~= est_points@);
        assert(true_points@.take(size as int) =~= true_points@);
    }
    Ok(Ratio { numer: sum, denom: size as u128 })
}

/// The sum, over the three colour channels, of the distances between the
/// samples of window `q2` and the samples of window `q1`.
pub open spec fn total_abs_diff(img: DynamicImage, q1: Quanternion, q2: Quanternion) -> nat {
    sum_abs_diff(samples(img, q2, Pix::R), samples(img, q1, Pix::R)) + sum_abs_diff(
        samples(img, q2, Pix::G),
        samples(img, q1, Pix::G),
    ) + sum_abs_diff(samples(img, q2, Pix::B), samples(img, q1, Pix::B))
}

/// The distance between two windows of equal area: the mean over the three
/// colour channels of the mean distance between their samples.
pub open spec fn distance(img: DynamicImage, q1: Quanternion, q2: Quanternion) -> Ratio {
    Ratio { numer: total_abs_diff(img, q1, q2) as u128, denom: (3 * q1.area()) as u128 }
}

/// Two channel values are at most 255 apart, so the summed distance between
/// two windows of equal area is at most 255 on average.
pub proof fn lemma_total_abs_diff_bound(img: DynamicImage, q1: Quanternion, q2: Quanternion)
    requires
        q1.area() == q2.area(),
    ensures
        total_abs_diff(img, q1, q2) <= 255 * (3 * q1.area()),
        3 * q1.area() <= 3 * (0xffff_ffff * 0xffff_ffff),
{
    lemma_sum_abs_diff_bound(samples(img, q2, Pix::R), samples(img, q1, Pix::R), 255);
    lemma_sum_abs_diff_bound(samples(img, q2, Pix::G), samples(img, q1, Pix::G), 255);
    lemma_sum_abs_diff_bound(samples(img, q2, Pix::B), samples(img, q1, Pix::B), 255);
    assert(q1.w * q1.h <= 0xffff_ffff * 0xffff_ffff) by (nonlinear_arith)
        requires
            q1.w <= 0xffff_ffff,
            q1.h <= 0xffff_ffff,
    ;
}

/// The distance between two windows of the image: the mean distance between
/// their samples, averaged over the three colour channels. Between windows
/// without pixels it is not defined.
///
/// The two windows must have the same number of pixels.
pub fn block_distance(img: &DynamicImage, q1: Quanternion, q2: Quanternion) -> (res: Result<
    Ratio,
    ToolboxError,
>)
    requires
        q1.fits(*img),
        q2.fits(*img),
    ensures
        res is Err <==> q1.area() != q2.area(),
        res matches Err(e) ==> e == ToolboxError::LengthMismatch,
        res matches Ok(r) ==> r == distance(*img, q1, q2),
{
    let rgb_points_q1 = im_to_vec(img, q1);
    let rgb_points_q2 = im_to_vec(img, q2);
    let r_mse = match mse_vec(&rgb_points_q2.0, &rgb_points_q1.0) {
        Ok(r) => r,
        Err(e) => { return Err(e); },
    };
    let g_mse = match mse_vec(&rgb_points_q2.1, &rgb_points_q1.1) {
        Ok(r) => r,
        Err(e) => { return Err(e); },
    };
    let b_mse = match mse_vec(&rgb_points_q2.2, &rgb_points_q1.2) {
        Ok(r) => r,
        Err(e) => { return Err(e); },
    };
    proof {
        lemma_total_abs_diff_bound(*img, q1, q2);
    }
    Ok(Ratio { numer: r_mse.numer + g_mse.numer + b_mse.numer, denom: 3 * r_mse.denom })
}

/// Whether window `q2` is like window `q1`: whether their distance is defined
/// and does not exceed `err_limit`.
///
/// The two windows must have the same number of pixels.
pub fn is_equal_mse(
    img: &DynamicImage,
    q1: Quanternion,
    q2: Quanternion,
    err_limit: Tolerance,
) -> (res: Result<bool, ToolboxError>)
    requires
        q1.fits(*img),
        q2.fits(*img),
    ensures
        res is Err <==> q1.area() != q2.area(),
        res matches Err(e) ==> e == ToolboxError::LengthMismatch,
        res matches Ok(similar) ==> similar == err_limit.admits(distance(*img, q1, q2)),
{
    let delta = match block_distance(img, q1, q2) {
        Ok(r) => r,
        Err(e) => { return Err(e); },
    };
    if delta.denom == 0 || err_limit.denom == 0 {
        return Ok(false);
    }
    proof {
        lemma_total_abs_diff_bound(*img, q1, q2);
        let n = delta.numer as int;
        let d = delta.denom as int;
        let tn = err_limit.numer as int;
        let td = err_limit.denom as int;
        assert(0 <= n * td <= (255 * 3 * (0xffff_ffff * 0xffff_ffff)) * 0xffff_ffff)
            by (nonlinear_arith)
            requires
                0 <= n <= 255 * 3 * (0xffff_ffff * 0xffff_ffff),
                0 <= td <= 0xffff_ffff,
        ;
        assert(-0x8000_0000 * (3 * (0xffff_ffff * 0xffff_ffff)) <= tn * d <= 0x8000_0000 * (3 * (
            0xffff_ffff * 0xffff_ffff))) by (nonlinear_arith)
            requires
                0 <= d <= 3 * (0xffff_ffff * 0xffff_ffff),
                -0x8000_0000 <= tn <= 0x8000_0000,
        ;
    }
    let scaled_distance: i128 = (delta.numer as i128) * (err_limit.denom as i128);
    let scaled_limit: i128 = (err_limit.numer as i128) * (delta.denom as i128);
    Ok(scaled_distance <= scaled_limit)
}

/// The windows among `others` that are not like `source`, in the order in
/// which `others` lists them.
pub open spec fn dissimilar(
    img: DynamicImage,
    source: Quanternion,
    others: Seq<Quanternion>,
    err_limit: Tolerance,
) -> Seq<Quanternion> {
    others.filter(|q: Quanternion| !err_limit.admits(distance(img, source, q)))
}

/// Picks from `others` the windows that are not like `source`: those whose
/// distance from it is not defined or exceeds `err_limit`. Their order is kept.
///
/// If any window has another number of pixels than `source`, none is picked
/// and the mismatch is reported.
pub fn find_non_equals_mse(
    img: &DynamicImage,
    source: Quanternion,
    others: Vec<Quanternion>,
    err_limit: Tolerance,
) -> (res: Result<Vec<Quanternion>, ToolboxError>)
    requires
        source.fits(*img),
        forall|k: int| 0 <= k < others@.len() ==> (#[trigger] others@[k]).fits(*img),
    ensures
        res is Err <==> exists|k: int|
            0 <= k < others@.len() && (#[trigger] others@[k]).area() != source.area(),
        res matches Err(e) ==> e == ToolboxError::LengthMismatch,
        res matches Ok(v) ==> v@ == dissimilar(*img, source, others@, err_limit),
{
    let mut result: Vec<Quanternion> = Vec::new();
    let mut i: usize = 0;
    while i < others.len()
        invariant
            i <= others@.len(),
            source.fits(*img),
            forall|k: int| 0 <= k < others@.len() ==> (#[trigger] others@[k]).fits(*img),
            forall|k: int| 0 <= k < i ==> (#[trigger] others@[k]).area() == source.area(),
            result@ == dissimilar(*img, source, others@.take(i as int), err_limit),
        decreases others@.len() - i,
    {
        let q: Quanternion = others[i];
        proof {
            reveal(Seq::filter);
            assert(others@.take(i + 1).drop_last() =~= others@.take(i as int));
        }
        match is_equal_mse(img, source, q, err_limit) {
            Ok(similar) => {
                if !similar {
                    result.push(q);
                }
            },
            Err(e) => {
                return Err(e);
            },
        }
        i = i + 1;
    }
    proof {
        assert(others@.take(i as int) =~= others@);
    }
    Ok(result)
}

/// A window is at distance zero from itself.
pub proof fn lemma_distance_to_self(img: DynamicImage, q: Quanternion)
    ensures
        distance(img, q, q).numer == 0,
        q.area() > 0 ==> distance(img, q, q).is_int(0),
{
    lemma_sum_abs_diff_self(samples(img, q, Pix::R));
    lemma_sum_abs_diff_self(samples(img, q, Pix::G));
    lemma_sum_abs_diff_self(samples(img, q, Pix::B));
    lemma_total_abs_diff_bound(img, q, q);
}

/// A window with at least one pixel is like itself under every threshold
/// that is a number and not negative.
pub proof fn lemma_self_is_similar(img: DynamicImage, q: Quanternion, err_limit: Tolerance)
    requires
        q.area() > 0,
        err_limit.defined(),
        err_limit.numer >= 0,
    ensures
        err_limit.admits(distance(img, q, q)),
{
    lemma_distance_to_self(img, q);
    lemma_total_abs_diff_bound(img, q, q);
    let d = distance(img, q, q);
    assert(0 * (err_limit.denom as int) <= err_limit.numer * d.denom) by (nonlinear_arith)
        requires
            err_limit.numer >= 0,
            d.denom >= 0,
    ;
}

/// Under a negative threshold no two windows are alike: no distance is
/// below zero.
pub proof fn lemma_negative_tolerance_admits_none(
    img: DynamicImage,
    q1: Quanternion,
    q2: Quanternion,
    err_limit: Tolerance,
)
    requires
        err_limit.numer < 0,
    ensures
        !err_limit.admits(distance(img, q1, q2)),
{
    let d = distance(img, q1, q2);
    if d.defined() && err_limit.defined() {
        assert(d.numer * err_limit.denom >= 0) by (nonlinear_arith)
            requires
                d.numer >= 0,
                err_limit.denom >= 0,
        ;
        assert(err_limit.numer * d.denom < 0) by (nonlinear_arith)
            requires
                err_limit.numer < 0,
                d.denom > 0,
        ;
    }
}

/// Two windows of equal area with at least one pixel are alike under every
/// threshold of 255 or more: no two channel values are further apart.
pub proof fn lemma_wide_tolerance_admits(
    img: DynamicImage,
    q1: Quanternion,
    q2: Quanternion,
    err_limit: Tolerance,
)
    requires
        q1.area() == q2.area(),
        q1.area() > 0,
        err_limit.at_least(255),
    ensures
        err_limit.admits(distance(img, q1, q2)),
{
    lemma_total_abs_diff_bound(img, q1, q2);
    let d = distance(img, q1, q2);
    let n = d.numer as int;
    let m = d.denom as int;
    let tn = err_limit.numer as int;
    let td = err_limit.denom as int;
    assert(n * td <= tn * m) by (nonlinear_arith)
        requires
            0 <= n <= 255 * m,
            tn >= 255 * td,
            td > 0,
            m > 0,
    ;
}

/// Under a threshold of 255 or more, no window with as many pixels as the
/// source, and at least one, is unlike it.
pub proof fn lemma_wide_tolerance_finds_none(
    img: DynamicImage,
    source: Quanternion,
    others: Seq<Quanternion>,
    err_limit: Tolerance,
)
    requires
        source.area() > 0,
        forall|k: int| 0 <= k < others.len() ==> (#[trigger] others[k]).area() == source.area(),
        err_limit.at_least(255),
    ensures
        dissimilar(img, source, others, err_limit) == Seq::<Quanternion>::empty(),
    decreases others.len(),
{
    reveal(Seq::filter);
    if others.len() > 0 {
        lemma_wide_tolerance_finds_none(img, source, others.drop_last(), err_limit);
        lemma_wide_tolerance_admits(img, source, others.last(), err_limit);
    }
    assert(dissimilar(img, source, others, err_limit) =~= Seq::<Quanternion>::empty());
}

} // verus!
