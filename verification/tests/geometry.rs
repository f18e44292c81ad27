use trombinoscope::crop::plan_crop;
use trombinoscope::grid::{grid_for_count, isqrt, suggest_columns};
use trombinoscope::resolution::plan_downscale;
use trombinoscope::layout::caption_position;
use trombinoscope::units::{compute_dpi, mm_to_mpt, mpt_to_cm_millionths};

#[test]
fn dpi_of_3000_pixels_over_10_cm_is_762() {
    assert_eq!(compute_dpi(3000, 10_000_000), 762);
}

#[test]
fn millimeters_to_millipoints() {
    // 10 mm = 28.34645... pt
    assert_eq!(mm_to_mpt(10_000), 28_346);
    assert_eq!(mm_to_mpt(0), 0);
    // 1 inch = 72 pt exactly
    assert_eq!(mm_to_mpt(25_400), 72_000);
}

#[test]
fn millipoints_to_centimeters() {
    // 72_000 mpt = 72 pt = 1 inch = 2.54 cm
    assert_eq!(mpt_to_cm_millionths(72_000), 2_540_000);
    // 283_465 mpt is 10 cm within rounding
    assert_eq!(mpt_to_cm_millionths(283_465), 10_000_015);
}

#[test]
fn integer_square_roots() {
    assert_eq!(isqrt(0), 0);
    assert_eq!(isqrt(15), 3);
    assert_eq!(isqrt(16), 4);
    assert_eq!(isqrt(u64::MAX), 0xffff_ffff);
}

#[test]
fn rows_cover_all_images() {
    let g = grid_for_count(10, 3);
    assert_eq!(g.rows, 4);
    assert_eq!(g.columns, 3);
    assert!(g.rows * g.columns >= 10);

    let g = grid_for_count(4, 2);
    assert_eq!(g.rows, 2);

    let g = grid_for_count(1, 1);
    assert_eq!(g.rows, 1);
}

#[test]
fn suggested_columns_approach_the_page_ratio() {
    // Aim at a portrait A-series sheet: ratio 1/sqrt(2), about 7071/10000.
    // round(sqrt(8 / 0.7071)) = round(3.36) = 3
    assert_eq!(suggest_columns(8, 7071, 10_000), 3);
    // A single image still gets one column.
    assert_eq!(suggest_columns(1, 7071, 10_000), 1);
    // A square target over 9 images: round(sqrt(9)) = 3.
    assert_eq!(suggest_columns(9, 1, 1), 3);
}

#[test]
fn square_crop_of_a_wide_image_centers_and_keeps_height() {
    // 4000x3000 source in a square cell: the image is wider than tall, so
    // the full height stays and the width is cut to 3000, centered.
    let r = plan_crop(4000, 3000, 1, 1);
    assert_eq!(r.x, 500);
    assert_eq!(r.y, 0);
    assert_eq!(r.width, 3000);
    assert_eq!(r.height, 3000);
}

#[test]
fn tall_image_is_cropped_from_the_bottom_only() {
    // The cell is proportionally wider than the image: the crop removes the
    // bottom, never the top of the head.
    let r = plan_crop(3000, 4000, 1, 1);
    assert_eq!(r.x, 0);
    assert_eq!(r.y, 0);
    assert_eq!(r.width, 3000);
    assert_eq!(r.height, 3000);

    let r = plan_crop(100, 80, 3, 4);
    assert_eq!((r.x, r.y, r.width, r.height), (0, 0, 100, 75));
}

#[test]
fn crop_stays_inside_the_source() {
    let r = plan_crop(100, 80, 4, 3);
    assert_eq!((r.x, r.y, r.width, r.height), (20, 0, 60, 80));
    assert!(r.x + r.width <= 100);
    assert!(r.y + r.height <= 80);
    // The sides match the 4/3 cell ratio within one pixel of rounding:
    // |height/width - 4/3| small means |h*3 - w*4| <= 4.
    assert!((r.height as i64 * 3 - r.width as i64 * 4).unsigned_abs() <= 4);
}

#[test]
fn no_ceiling_means_no_downscale() {
    assert_eq!(plan_downscale(3000, 2000, 283_465, None), None);
}

#[test]
fn resolution_within_ceiling_is_left_alone() {
    // 3000 px over 10 cm is 762 DPI: ceilings at or above that do nothing.
    assert_eq!(plan_downscale(3000, 2000, 283_465, Some(762)), None);
    assert_eq!(plan_downscale(3000, 2000, 283_465, Some(10_000)), None);
}

#[test]
fn downscale_shrinks_by_the_exact_dpi_ratio() {
    // 762 DPI against a 381 ceiling: both dimensions halve.
    assert_eq!(
        plan_downscale(3000, 2000, 283_465, Some(381)),
        Some((1500, 1000))
    );
    // Truncation: 762 against 500 gives 3000*500/762 = 1968.5 -> 1968.
    assert_eq!(
        plan_downscale(3000, 2000, 283_465, Some(500)),
        Some((1968, 1312))
    );
}

#[test]
fn caption_sits_centered_below_the_cell() {
    // A cell at (1000, 40250), 48750 wide, an 8750-wide caption and a
    // 500-gutter: centered at 21000, dropped to 40000.
    assert_eq!(caption_position(1000, 40_250, 48_750, 8_750, 500), (21_000, 40_000));
    // A caption as wide as the cell starts at the cell's left edge.
    assert_eq!(caption_position(1000, 40_250, 48_750, 48_750, 500), (1000, 40_000));
}

#[test]
fn equal_ratios_keep_the_whole_image() {
    // Image ratio exactly equals the cell ratio: nothing is trimmed, and the
    // bottom-anchored branch is the one taken.
    let r = plan_crop(100, 75, 3, 4);
    assert_eq!((r.x, r.y, r.width, r.height), (0, 0, 100, 75));
}
