use image::{DynamicImage, GenericImage, GenericImageView, Pixel, Rgba};
use image_toolbox::spatial::{
    block_distance, draw_horizontal_line, draw_square_q, draw_vertical_line,
    find_non_equals_mse, im_to_vec, img_to_squares, is_equal_mse, is_valid_window, mse, mse_vec,
    paint, Color, Quanternion,
};
use image_toolbox::{image_size, Ratio, ToolboxError, Tolerance};

fn equals(img1: &DynamicImage, img2: &DynamicImage) -> bool {
    let (w1, h1) = img1.dimensions();
    let (w2, h2) = img2.dimensions();
    if w1 != w2 || h1 != h2 {
        return false;
    }
    for i in 0..w1 {
        for j in 0..h1 {
            if img1.get_pixel(i, j).data != img2.get_pixel(i, j).data {
                return false;
            }
        }
    }
    true
}

/// An 8x6 image in which every pixel differs from every other.
fn patchwork() -> DynamicImage {
    let mut img = DynamicImage::new_rgba8(8, 6);
    for x in 0..8u32 {
        for y in 0..6u32 {
            img.put_pixel(x, y, Rgba([(10 * x + y) as u8, (x + 10 * y) as u8, (x * y) as u8, 255]));
        }
    }
    img
}

fn block(x: u32, y: u32, w: u32, h: u32) -> Quanternion {
    Quanternion::new((x, y), w, h)
}

fn limit(numer: i32, denom: u32) -> Tolerance {
    Tolerance { numer, denom }
}

#[test]
fn draw_vert_line() {
    let mut img = DynamicImage::new_rgba8(500, 500);
    let line = 499;
    let start = (250, 0);
    draw_vertical_line(&mut img, Color::Red, start, line).unwrap();
    // verify
    let mut test_img = DynamicImage::new_rgba8(500, 500);
    for y in 0..499 {
        test_img.put_pixel(250, y, Rgba([255, 0, 0, 0]));
    }
    assert!(equals(&test_img, &img), "image not equal");
}

#[test]
fn draw_horiz_line() {
    let mut img = DynamicImage::new_rgba8(500, 500);
    let line = 499;
    let start = (0, 250);
    draw_horizontal_line(&mut img, Color::Red, start, line).unwrap();
    // verify
    let mut test_img = DynamicImage::new_rgba8(500, 500);
    for x in 0..499 {
        test_img.put_pixel(x, 250, Rgba([255, 0, 0, 0]));
    }
    assert!(equals(&test_img, &img), "image not equal");
}

#[test]
fn draw_square() {
    let mut img = DynamicImage::new_rgba8(10, 8);
    for x in 0..10 {
        for y in 0..8 {
            img.put_pixel(x, y, Rgba([1, 2, 3, (x + y) as u8]));
        }
    }
    let before = img.clone();
    assert!(image_toolbox::spatial::draw_square(&mut img, Color::Orange, (2, 1), (4, 3)));
    for x in 0..10u32 {
        for y in 0..8u32 {
            let on_rows = (2..6).contains(&x) && (y == 1 || y == 4);
            let on_columns = (1..4).contains(&y) && (x == 2 || x == 6);
            let expected = if on_rows || on_columns {
                [255, 204, 0, (x + y) as u8]
            } else {
                before.get_pixel(x, y).data
            };
            assert_eq!(img.get_pixel(x, y).data, expected, "at ({}, {})", x, y);
        }
    }
}

#[test]
fn draw_square_against_the_far_edges_stays_inside() {
    let mut img = DynamicImage::new_rgba8(5, 5);
    assert!(image_toolbox::spatial::draw_square(&mut img, Color::Green, (1, 1), (4, 4)));
    for x in 0..5u32 {
        for y in 0..5u32 {
            let on_rows = (1..5).contains(&x) && (y == 1 || y == 4);
            let on_columns = (1..5).contains(&y) && (x == 1 || x == 4);
            let expected = if on_rows || on_columns { [0, 255, 0, 0] } else { [0, 0, 0, 0] };
            assert_eq!(img.get_pixel(x, y).data, expected, "at ({}, {})", x, y);
        }
    }
}

#[test]
fn draw_square_outside_the_image_draws_nothing() {
    let mut img = patchwork();
    let before = img.clone();
    assert!(!image_toolbox::spatial::draw_square(&mut img, Color::Blue, (5, 0), (4, 2)));
    assert!(!image_toolbox::spatial::draw_square(&mut img, Color::Blue, (0, 5), (2, 2)));
    assert!(!image_toolbox::spatial::draw_square(&mut img, Color::Blue, (u32::MAX, 0), (2, 2)));
    assert!(!draw_square_q(&mut img, Color::Blue, block(0, 0, 9, 1)));
    assert!(equals(&before, &img));
    assert!(draw_square_q(&mut img, Color::Blue, block(0, 0, 8, 6)));
    assert_eq!(img.get_pixel(0, 0).data, [51, 0, 255, 255]);
    assert_eq!(img.get_pixel(7, 5).data, [51, 0, 255, 255]);
    assert_eq!(img.get_pixel(3, 3).data, before.get_pixel(3, 3).data);
}

#[test]
fn lines_that_do_not_fit_are_refused() {
    let mut img = patchwork();
    let before = img.clone();
    assert_eq!(
        draw_vertical_line(&mut img, Color::Red, (8, 0), 1),
        Err(ToolboxError::OutOfBounds)
    );
    assert_eq!(
        draw_vertical_line(&mut img, Color::Red, (0, 0), 6),
        Err(ToolboxError::OutOfBounds)
    );
    assert_eq!(
        draw_vertical_line(&mut img, Color::Red, (0, 5), u32::MAX),
        Err(ToolboxError::OutOfBounds)
    );
    assert_eq!(
        draw_horizontal_line(&mut img, Color::Red, (0, 6), 1),
        Err(ToolboxError::OutOfBounds)
    );
    assert_eq!(
        draw_horizontal_line(&mut img, Color::Red, (0, 0), 8),
        Err(ToolboxError::OutOfBounds)
    );
    assert!(equals(&before, &img));
    assert_eq!(draw_vertical_line(&mut img, Color::Purple, (3, 1), 4), Ok(()));
    assert_eq!(draw_horizontal_line(&mut img, Color::Green, (1, 5), 6), Ok(()));
    for x in 0..8u32 {
        for y in 0..6u32 {
            let expected = if y == 5 && (1..7).contains(&x) {
                [0, 255, 0, 255]
            } else if x == 3 && (1..5).contains(&y) {
                [255, 51, 255, 255]
            } else {
                before.get_pixel(x, y).data
            };
            assert_eq!(img.get_pixel(x, y).data, expected, "at ({}, {})", x, y);
        }
    }
}

#[test]
fn paint_keeps_alpha_and_neighbours() {
    let mut img = patchwork();
    img.put_pixel(2, 3, Rgba([9, 9, 9, 77]));
    let before = img.clone();
    paint(&mut img, Color::Blue, (2, 3));
    for x in 0..8u32 {
        for y in 0..6u32 {
            let expected =
                if (x, y) == (2, 3) { [51, 0, 255, 77] } else { before.get_pixel(x, y).data };
            assert_eq!(img.get_pixel(x, y).data, expected);
        }
    }
}

#[test]
fn colours_have_their_values() {
    assert_eq!(Color::Red.val(), (255, 0, 0));
    assert_eq!(Color::Green.val(), (0, 255, 0));
    assert_eq!(Color::Blue.val(), (51, 0, 255));
    assert_eq!(Color::Orange.val(), (255, 204, 0));
    assert_eq!(Color::Purple.val(), (255, 51, 255));
}

#[test]
fn windows_report_their_edges() {
    let q = Quanternion::new((3, 4), 5, 6);
    assert_eq!(q, Quanternion { x_w: 3, y_h: 4, w: 5, h: 6 });
    assert_eq!(q.edge_w(), 8);
    assert_eq!(q.edge_h(), 10);
    assert_ne!(q, Quanternion { x_w: 3, y_h: 4, w: 5, h: 7 });
}

#[test]
fn windows_know_whether_they_lie_inside_an_image() {
    let img = DynamicImage::new_rgba8(4, 6);
    assert!(block(0, 0, 4, 6).lies_inside(&img));
    assert!(block(3, 5, 1, 1).lies_inside(&img));
    assert!(block(4, 6, 0, 0).lies_inside(&img));
    assert!(!block(0, 0, 5, 6).lies_inside(&img));
    assert!(!block(0, 1, 4, 6).lies_inside(&img));
    assert!(!block(u32::MAX, 0, 1, 1).lies_inside(&img));
    assert!(!block(0, 1, 1, u32::MAX).lies_inside(&img));
}

#[test]
fn four_by_four_image_has_four_tiles_of_two() {
    let img = DynamicImage::new_rgba8(4, 4);
    let squares = img_to_squares(&img, 2).unwrap();
    assert_eq!(
        squares,
        vec![block(0, 0, 2, 2), block(0, 2, 2, 2), block(2, 0, 2, 2), block(2, 2, 2, 2)]
    );
    for q in squares {
        assert!(q.edge_w() <= 4 && q.edge_h() <= 4);
        assert!(is_valid_window(&img, (q.x_w, q.y_h), 2));
    }
}

#[test]
fn partial_tiles_are_dropped() {
    let img = DynamicImage::new_rgba8(5, 7);
    let squares = img_to_squares(&img, 2).unwrap();
    assert_eq!(
        squares,
        vec![
            block(0, 0, 2, 2),
            block(0, 2, 2, 2),
            block(0, 4, 2, 2),
            block(2, 0, 2, 2),
            block(2, 2, 2, 2),
            block(2, 4, 2, 2),
        ]
    );
    let squares = img_to_squares(&img, 4).unwrap();
    assert_eq!(squares, vec![block(0, 0, 4, 4)]);
    let squares = img_to_squares(&img, 1).unwrap();
    assert_eq!(squares.len(), 35);
    assert_eq!(squares[8], block(1, 1, 1, 1));
}

#[test]
fn tile_as_large_as_the_image_is_refused() {
    let img = DynamicImage::new_rgba8(4, 6);
    assert_eq!(img_to_squares(&img, 4), Err(ToolboxError::InvalidTileSize));
    assert_eq!(img_to_squares(&img, 5), Err(ToolboxError::InvalidTileSize));
    assert_eq!(img_to_squares(&img, 6), Err(ToolboxError::InvalidTileSize));
    assert_eq!(img_to_squares(&img, usize::MAX), Err(ToolboxError::InvalidTileSize));
    assert!(img_to_squares(&img, 3).is_ok());
    let img = DynamicImage::new_rgba8(6, 4);
    assert_eq!(img_to_squares(&img, 4), Err(ToolboxError::InvalidTileSize));
    let img = DynamicImage::new_rgba8(0, 0);
    assert_eq!(img_to_squares(&img, 1), Err(ToolboxError::InvalidTileSize));
}

#[test]
fn window_validity_checks_both_edges() {
    let img = DynamicImage::new_rgba8(4, 6);
    assert!(is_valid_window(&img, (0, 0), 4));
    assert!(is_valid_window(&img, (1, 3), 3));
    assert!(!is_valid_window(&img, (1, 0), 4));
    assert!(!is_valid_window(&img, (0, 3), 4));
    assert!(!is_valid_window(&img, (u32::MAX, 0), 1));
    assert!(!is_valid_window(&img, (0, 0), u32::MAX));
}

#[test]
fn samples_come_column_by_column() {
    let img = patchwork();
    let (r, g, b) = im_to_vec(&img, block(2, 1, 2, 3));
    assert_eq!(r, vec![21, 22, 23, 31, 32, 33]);
    assert_eq!(g, vec![12, 22, 32, 13, 23, 33]);
    assert_eq!(b, vec![2, 4, 6, 3, 6, 9]);
    let (r, g, b) = im_to_vec(&img, block(8, 6, 0, 0));
    assert!(r.is_empty() && g.is_empty() && b.is_empty());
}

#[test]
fn distance_of_equal_samples_is_zero_and_of_shifted_samples_the_shift() {
    let reference = vec![1, 2, 3, 4];
    assert_eq!(mse_vec(&vec![1, 2, 3, 4], &reference), Ok(Ratio { numer: 0, denom: 4 }));
    let d = mse_vec(&vec![5, 6, 7, 8], &reference).unwrap();
    assert_eq!(d, Ratio { numer: 16, denom: 4 });
    assert_eq!(d.numer as f64 / d.denom as f64, 4.0);
    let d = mse_vec(&reference, &vec![5, 6, 7, 8]).unwrap();
    assert_eq!(d, Ratio { numer: 16, denom: 4 });
}

#[test]
fn distance_adds_absolute_differences() {
    assert_eq!(mse(3, 10), 7);
    assert_eq!(mse(10, 3), 7);
    assert_eq!(mse(u32::MAX, 0), u32::MAX);
    assert_eq!(mse(5, 5), 0);
    assert_eq!(
        mse_vec(&vec![0, 10, 3, u32::MAX], &vec![4, 1, 3, 0]),
        Ok(Ratio { numer: 4 + 9 + u32::MAX as u128, denom: 4 })
    );
    assert_eq!(mse_vec(&vec![], &vec![]), Ok(Ratio { numer: 0, denom: 0 }));
}

#[test]
fn samples_of_different_length_cannot_be_compared() {
    assert_eq!(mse_vec(&vec![1, 2, 3], &vec![1, 2]), Err(ToolboxError::LengthMismatch));
    assert_eq!(mse_vec(&vec![1, 2], &vec![1, 2, 3]), Err(ToolboxError::LengthMismatch));
    assert_eq!(mse_vec(&vec![], &vec![0]), Err(ToolboxError::LengthMismatch));
    let img = patchwork();
    assert_eq!(
        block_distance(&img, block(0, 0, 2, 2), block(0, 0, 2, 3)),
        Err(ToolboxError::LengthMismatch)
    );
    assert_eq!(
        is_equal_mse(&img, block(0, 0, 2, 2), block(0, 0, 3, 2), limit(255, 1)),
        Err(ToolboxError::LengthMismatch)
    );
}

#[test]
fn block_is_at_distance_zero_from_itself() {
    let img = patchwork();
    for q in [block(0, 0, 2, 2), block(3, 1, 5, 4), block(7, 5, 1, 1), block(0, 0, 8, 6)] {
        let d = block_distance(&img, q, q).unwrap();
        assert_eq!(d.numer, 0);
        assert_eq!(d.denom, 3 * (q.w * q.h) as u128);
        assert_eq!(is_equal_mse(&img, q, q, limit(0, 1)), Ok(true));
        assert_eq!(is_equal_mse(&img, q, q, limit(0, 9)), Ok(true));
        assert_eq!(is_equal_mse(&img, q, q, limit(60, 1)), Ok(true));
    }
}

#[test]
fn block_distance_averages_the_three_channels() {
    let mut img = DynamicImage::new_rgba8(4, 2);
    for x in 0..2 {
        for y in 0..2 {
            img.put_pixel(x, y, Rgba([10, 20, 30, 0]));
            img.put_pixel(x + 2, y, Rgba([13, 14, 30, 255]));
        }
    }
    img.put_pixel(3, 1, Rgba([10, 20, 31, 9]));
    let left = block(0, 0, 2, 2);
    let right = block(2, 0, 2, 2);
    // red 3 + 3 + 3 + 0, green 6 + 6 + 6 + 0, blue 0 + 0 + 0 + 1, over 3 * 4
    assert_eq!(block_distance(&img, left, right), Ok(Ratio { numer: 28, denom: 12 }));
    assert_eq!(block_distance(&img, right, left), Ok(Ratio { numer: 28, denom: 12 }));
    // 28 / 12 = 7 / 3
    assert_eq!(is_equal_mse(&img, left, right, limit(7, 3)), Ok(true));
    assert_eq!(is_equal_mse(&img, left, right, limit(3, 1)), Ok(true));
    assert_eq!(is_equal_mse(&img, left, right, limit(2, 1)), Ok(false));
    assert_eq!(is_equal_mse(&img, left, right, limit(233, 100)), Ok(false));
    assert_eq!(is_equal_mse(&img, left, right, limit(234, 100)), Ok(true));
    assert_eq!(is_equal_mse(&img, left, right, limit(i32::MAX, i32::MAX as u32)), Ok(false));
    assert_eq!(is_equal_mse(&img, left, right, limit(i32::MAX, u32::MAX)), Ok(false));
    assert_eq!(is_equal_mse(&img, left, right, limit(i32::MAX, 1)), Ok(true));
}

#[test]
fn undefined_distances_and_thresholds_are_never_within() {
    let img = patchwork();
    let empty = block(1, 1, 0, 3);
    assert_eq!(block_distance(&img, empty, block(4, 4, 2, 0)), Ok(Ratio { numer: 0, denom: 0 }));
    assert_eq!(is_equal_mse(&img, empty, empty, limit(255, 1)), Ok(false));
    let q = block(0, 0, 2, 2);
    assert_eq!(is_equal_mse(&img, q, q, limit(1, 0)), Ok(false));
    assert_eq!(find_non_equals_mse(&img, empty, vec![empty], limit(255, 1)), Ok(vec![empty]));
}

#[test]
fn nothing_is_dissimilar_under_the_widest_threshold() {
    let mut img = DynamicImage::new_rgba8(4, 4);
    for x in 2..4 {
        for y in 0..4 {
            img.put_pixel(x, y, Rgba([255, 255, 255, 255]));
        }
    }
    let squares = img_to_squares(&img, 2).unwrap();
    let source = squares[0];
    assert_eq!(block_distance(&img, source, squares[3]), Ok(Ratio { numer: 3060, denom: 12 }));
    assert_eq!(find_non_equals_mse(&img, source, squares.clone(), limit(255, 1)), Ok(vec![]));
    assert_eq!(find_non_equals_mse(&img, source, squares.clone(), limit(1000, 3)), Ok(vec![]));
    assert_eq!(
        find_non_equals_mse(&img, source, squares.clone(), limit(254, 1)),
        Ok(vec![squares[2], squares[3]])
    );
    assert_eq!(find_non_equals_mse(&img, source, vec![], limit(0, 1)), Ok(vec![]));
}

#[test]
fn dissimilar_blocks_keep_their_order() {
    let img = patchwork();
    let squares = img_to_squares(&img, 2).unwrap();
    assert_eq!(squares.len(), 12);
    let source = squares[0];
    let mut expected = Vec::new();
    for q in squares.iter() {
        let d = block_distance(&img, source, *q).unwrap();
        // above 12: numer / denom > 12
        if d.numer > 12 * d.denom {
            expected.push(*q);
        }
    }
    assert!(!expected.is_empty() && expected.len() < squares.len());
    assert!(!expected.contains(&source));
    assert_eq!(
        find_non_equals_mse(&img, source, squares.clone(), limit(12, 1)),
        Ok(expected.clone())
    );
    let mut reversed = squares.clone();
    reversed.reverse();
    expected.reverse();
    assert_eq!(find_non_equals_mse(&img, source, reversed, limit(12, 1)), Ok(expected));
}

#[test]
fn candidate_of_another_area_is_reported() {
    let img = patchwork();
    let source = block(0, 0, 2, 2);
    let far = block(6, 4, 2, 2);
    let odd = block(0, 0, 2, 3);
    for others in [
        vec![odd],
        vec![odd, far],
        vec![far, odd],
        vec![source, far, block(1, 1, 4, 1), odd],
        vec![far, block(3, 3, 0, 0)],
    ] {
        assert_eq!(
            find_non_equals_mse(&img, source, others, limit(0, 1)),
            Err(ToolboxError::LengthMismatch)
        );
    }
    // four pixels in another shape are no mismatch
    assert_eq!(
        find_non_equals_mse(&img, source, vec![source, block(1, 1, 4, 1), far], limit(0, 1)),
        Ok(vec![block(1, 1, 4, 1), far])
    );
}

#[test]
fn nothing_is_within_a_negative_threshold() {
    let img = patchwork();
    let q = block(2, 2, 3, 3);
    assert_eq!(is_equal_mse(&img, q, q, limit(0, 1)), Ok(true));
    assert_eq!(is_equal_mse(&img, q, q, limit(-1, 1000)), Ok(false));
    assert_eq!(is_equal_mse(&img, q, q, limit(i32::MIN, 1)), Ok(false));
    assert_eq!(is_equal_mse(&img, q, q, limit(i32::MIN, u32::MAX)), Ok(false));
    assert_eq!(find_non_equals_mse(&img, q, vec![q, q], limit(-1, 1)), Ok(vec![q, q]));
}

#[test]
fn tile_of_side_zero_is_refused_for_an_image_without_pixels() {
    for (w, h) in [(0, 0), (0, 5), (5, 0)] {
        let img = DynamicImage::new_rgba8(w, h);
        assert_eq!(img_to_squares(&img, 0), Err(ToolboxError::InvalidTileSize));
        assert_eq!(img_to_squares(&img, 1), Err(ToolboxError::InvalidTileSize));
    }
}

#[test]
fn image_size_is_width_then_height() {
    assert_eq!(image_size(&DynamicImage::new_rgba8(4, 6)), (4, 6));
    assert_eq!(image_size(&DynamicImage::new_luma8(7, 0)), (7, 0));
    assert_eq!(image_size(&patchwork()), (8, 6));
}

/// Draws a line and a rectangle into `img` and compares every pixel with
/// what `shade` says a painted pixel reads as, given the pixel before.
fn draws_as(mut img: DynamicImage, shade: fn(Color, [u8; 4]) -> [u8; 4]) {
    for x in 0..6 {
        for y in 0..5 {
            img.put_pixel(x, y, Rgba([(40 * x) as u8, (50 * y) as u8, 7, (x + 6 * y) as u8]));
        }
    }
    let before = img.clone();
    assert_eq!(draw_vertical_line(&mut img, Color::Orange, (5, 0), 3), Ok(()));
    assert_eq!(draw_horizontal_line(&mut img, Color::Blue, (0, 4), 2), Ok(()));
    assert!(image_toolbox::spatial::draw_square(&mut img, Color::Purple, (1, 0), (2, 3)));
    assert_eq!(img.dimensions(), (6, 5));
    for x in 0..6u32 {
        for y in 0..5u32 {
            let was = before.get_pixel(x, y).data;
            let on_rows = (1..3).contains(&x) && (y == 0 || y == 3);
            let on_columns = (0..3).contains(&y) && (x == 1 || x == 3);
            let expected = if on_rows || on_columns {
                shade(Color::Purple, was)
            } else if x == 5 && y < 3 {
                shade(Color::Orange, was)
            } else if y == 4 && x < 2 {
                shade(Color::Blue, was)
            } else {
                was
            };
            assert_eq!(img.get_pixel(x, y).data, expected, "at ({}, {})", x, y);
        }
    }
}

fn in_colour(c: Color, was: [u8; 4]) -> [u8; 4] {
    let (r, g, b) = c.val();
    [r, g, b, was[3]]
}

fn in_grey(c: Color, was: [u8; 4]) -> [u8; 4] {
    let (r, g, b) = c.val();
    let l = Rgba([r, g, b, 0]).to_luma().data[0];
    [l, l, l, was[3]]
}

#[test]
fn drawing_on_images_with_colour_paints_the_colour_and_keeps_alpha() {
    draws_as(DynamicImage::new_rgba8(6, 5), in_colour);
    draws_as(DynamicImage::new_bgra8(6, 5), in_colour);
    draws_as(DynamicImage::new_rgb8(6, 5), in_colour);
    draws_as(DynamicImage::new_bgr8(6, 5), in_colour);
}

#[test]
fn drawing_on_grey_images_paints_the_grey_of_the_colour_and_keeps_alpha() {
    draws_as(DynamicImage::new_luma8(6, 5), in_grey);
    draws_as(DynamicImage::new_luma_a8(6, 5), in_grey);
    assert_eq!(in_grey(Color::Red, [0, 0, 0, 9]), [54, 54, 54, 9]);
}

#[test]
fn images_without_alpha_read_as_opaque() {
    let images =
        [DynamicImage::new_rgb8(2, 2), DynamicImage::new_bgr8(2, 2), DynamicImage::new_luma8(2, 2)];
    for img in images {
        let mut img = img;
        assert_eq!(img.get_pixel(1, 1).data[3], 255);
        paint(&mut img, Color::Green, (1, 1));
        assert_eq!(img.get_pixel(1, 1).data[3], 255);
        assert_eq!(img.get_pixel(0, 1).data[3], 255);
    }
}
