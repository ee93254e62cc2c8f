use wasabi::bitmap::Bitmap;
use wasabi::draw::{draw_point, fill_rect, unchecked_draw_point, OUT_OF_RANGE};
use wasabi::line::draw_line;
use wasabi::slope::calc_slope_point;
use wasabi::vram::VramBufferInfo;

fn blank(width: i64, height: i64, pixels_per_line: i64) -> VramBufferInfo {
    VramBufferInfo {
        buf: vec![0; (pixels_per_line * height) as usize],
        width,
        height,
        pixels_per_line,
    }
}

fn at(v: &VramBufferInfo, x: i64, y: i64) -> u32 {
    v.buf[(y * v.pixels_per_line + x) as usize]
}

fn painted(v: &VramBufferInfo, color: u32) -> Vec<(i64, i64)> {
    let mut out = Vec::new();
    for (i, p) in v.buf.iter().enumerate() {
        if *p == color {
            let i = i as i64;
            out.push((i % v.pixels_per_line, i / v.pixels_per_line));
        }
    }
    out
}

#[test]
fn slope_point_rounds_to_nearest() {
    assert_eq!(calc_slope_point(4, 2, 1), Some(1));
    assert_eq!(calc_slope_point(5, 2, 2), Some(1));
    assert_eq!(calc_slope_point(4, 2, 0), Some(0));
    assert_eq!(calc_slope_point(4, 2, 4), Some(2));
}

#[test]
fn slope_point_steeper_than_major_is_none() {
    assert_eq!(calc_slope_point(2, 3, 1), None);
}

#[test]
fn slope_point_of_empty_extent_is_zero() {
    assert_eq!(calc_slope_point(0, 0, 5), Some(0));
    assert_eq!(calc_slope_point(0, -1, -7), Some(0));
}

#[test]
fn slope_point_outside_extent_is_none() {
    assert_eq!(calc_slope_point(4, 2, 5), None);
    assert_eq!(calc_slope_point(4, 2, -1), None);
}

#[test]
fn slope_point_divides_toward_zero() {
    assert_eq!(calc_slope_point(4, -3, 1), Some(0));
    assert_eq!(calc_slope_point(4, -3, 3), Some(-1));
}

#[test]
fn range_checks_use_visible_width_and_scan_line() {
    let v = blank(6, 3, 4);
    assert!(v.is_in_x_range(0));
    assert!(v.is_in_x_range(3));
    assert!(!v.is_in_x_range(4));
    assert!(!v.is_in_x_range(-1));
    assert!(v.is_in_y_range(2));
    assert!(!v.is_in_y_range(3));
    assert_eq!(v.bytes_per_pixel(), 4);
    assert_eq!(v.width(), 6);
    assert_eq!(v.height(), 3);
    assert_eq!(v.pixels_per_line(), 4);
}

#[test]
fn draw_point_sets_one_pixel() {
    let mut v = blank(4, 3, 5);
    assert_eq!(draw_point(&mut v, 0xabcdef, 2, 1), Ok(()));
    assert_eq!(at(&v, 2, 1), 0xabcdef);
    assert_eq!(painted(&v, 0xabcdef), vec![(2, 1)]);
    assert_eq!(v.buf.len(), 15);
}

#[test]
fn draw_point_off_the_bitmap_changes_nothing() {
    let mut v = blank(4, 3, 5);
    assert_eq!(draw_point(&mut v, 7, 4, 0), Err(OUT_OF_RANGE));
    assert_eq!(draw_point(&mut v, 7, 0, 3), Err(OUT_OF_RANGE));
    assert_eq!(draw_point(&mut v, 7, -1, 0), Err(OUT_OF_RANGE));
    assert_eq!(OUT_OF_RANGE, "Out of Range");
    assert!(v.buf.iter().all(|p| *p == 0));
}

#[test]
fn pixel_at_mut_gives_the_pixel_or_none() {
    let mut v = blank(4, 3, 4);
    *v.pixel_at_mut(1, 2).unwrap() = 9;
    assert_eq!(at(&v, 1, 2), 9);
    assert!(v.pixel_at_mut(4, 2).is_none());
    *v.unchecked_pixel_at_mut(3, 0) = 5;
    assert_eq!(v.buf[3], 5);
    unchecked_draw_point(&mut v, 6, 0, 1);
    assert_eq!(v.buf[4], 6);
}

#[test]
fn fill_rect_fills_exactly_the_rectangle() {
    let mut v = blank(6, 5, 7);
    assert_eq!(fill_rect(&mut v, 3, 1, 2, 3, 2), Ok(()));
    let mut expected = Vec::new();
    for y in 2..4 {
        for x in 1..4 {
            expected.push((x, y));
        }
    }
    assert_eq!(painted(&v, 3), expected);
}

#[test]
fn fill_rect_out_of_range_changes_nothing() {
    let mut v = blank(6, 5, 7);
    assert_eq!(fill_rect(&mut v, 3, 4, 0, 3, 1), Err(OUT_OF_RANGE));
    assert_eq!(fill_rect(&mut v, 3, 0, 0, 1, 6), Err(OUT_OF_RANGE));
    assert!(v.buf.iter().all(|p| *p == 0));
}

#[test]
fn fill_rect_checks_left_edge_against_height() {
    // The left edge 5 is a column of the bitmap but not a row of it.
    let mut v = blank(8, 4, 8);
    assert_eq!(fill_rect(&mut v, 3, 5, 0, 2, 2), Err(OUT_OF_RANGE));
    assert!(v.buf.iter().all(|p| *p == 0));
}

#[test]
fn fill_rect_reaching_above_the_first_row_is_refused() {
    let mut v = blank(8, 4, 8);
    assert_eq!(fill_rect(&mut v, 3, 1, -1, 2, 3), Err(OUT_OF_RANGE));
    assert!(v.buf.iter().all(|p| *p == 0));
    assert_eq!(fill_rect(&mut v, 3, 1, -1, 0, 3), Ok(()));
    assert!(v.buf.iter().all(|p| *p == 0));
}

#[test]
fn unchecked_pixel_reaches_the_padding() {
    let mut v = blank(3, 2, 5);
    *v.unchecked_pixel_at_mut(4, 1) = 8;
    assert_eq!(v.buf[9], 8);
    unchecked_draw_point(&mut v, 2, 3, 0);
    assert_eq!(v.buf[3], 2);
    assert!(v.pixel_at_mut(4, 1).is_none());
}

#[test]
fn fill_rect_empty_width_draws_nothing() {
    let mut v = blank(8, 4, 8);
    assert_eq!(fill_rect(&mut v, 3, 2, 1, 0, 2), Ok(()));
    assert!(v.buf.iter().all(|p| *p == 0));
}

#[test]
fn draw_line_shallow() {
    let mut v = blank(10, 10, 10);
    assert_eq!(draw_line(&mut v, 7, 1, 1, 5, 3), Ok(()));
    assert_eq!(painted(&v, 7), vec![(1, 1), (2, 2), (3, 2), (4, 3)]);
}

#[test]
fn draw_line_steep_backwards() {
    let mut v = blank(10, 10, 10);
    assert_eq!(draw_line(&mut v, 7, 2, 1, 0, 8), Ok(()));
    assert_eq!(
        painted(&v, 7),
        vec![(2, 1), (2, 2), (1, 3), (1, 4), (1, 5), (1, 6), (0, 7)]
    );
}

#[test]
fn draw_line_to_itself_draws_nothing() {
    let mut v = blank(10, 10, 10);
    assert_eq!(draw_line(&mut v, 7, 3, 3, 3, 3), Ok(()));
    assert!(v.buf.iter().all(|p| *p == 0));
}

#[test]
fn draw_line_stops_at_first_point_off_the_bitmap() {
    // Rows are checked against the width, so row 6 passes the checks of a 4-row bitmap.
    let mut v = blank(10, 4, 10);
    assert_eq!(draw_line(&mut v, 7, 0, 0, 6, 6), Err(OUT_OF_RANGE));
    assert_eq!(painted(&v, 7), vec![(0, 0), (1, 1), (2, 2), (3, 3)]);
}

#[test]
fn draw_line_with_end_off_the_bitmap_draws_nothing() {
    let mut v = blank(10, 10, 10);
    assert_eq!(draw_line(&mut v, 7, 0, 0, 10, 3), Err(OUT_OF_RANGE));
    assert_eq!(draw_line(&mut v, 7, 0, -1, 3, 3), Err(OUT_OF_RANGE));
    assert!(v.buf.iter().all(|p| *p == 0));
}

#[test]
fn slope_steps_move_by_at_most_one() {
    let (da, db) = (7, 3);
    let values: Vec<i64> = (0..=da).map(|i| calc_slope_point(da, db, i).unwrap()).collect();
    assert_eq!(values, vec![0, 0, 1, 1, 2, 2, 3, 3]);
    for w in values.windows(2) {
        assert!(w[1] - w[0] == 0 || w[1] - w[0] == 1);
    }
    assert_eq!(values[0], 0);
    assert_eq!(values[da as usize], db);
}

#[test]
fn line_starts_at_first_end_and_stops_next_to_second() {
    let mut v = blank(20, 20, 20);
    assert_eq!(draw_line(&mut v, 1, 12, 3, 2, 9), Ok(()));
    let pts = painted(&v, 1);
    assert_eq!(pts.len(), 10);
    assert!(pts.contains(&(12, 3)));
    assert!(!pts.contains(&(2, 9)));
    assert!(pts.contains(&(3, 9)) || pts.contains(&(3, 8)));
    for (x, y) in &pts {
        assert!(2 <= *x && *x <= 12 && 3 <= *y && *y <= 9);
    }
}


#[test]
fn two_points_in_either_order() {
    let mut ab = blank(5, 5, 6);
    let mut ba = blank(5, 5, 6);
    assert_eq!(draw_point(&mut ab, 1, 1, 2), Ok(()));
    assert_eq!(draw_point(&mut ab, 2, 4, 0), Ok(()));
    assert_eq!(draw_point(&mut ba, 2, 4, 0), Ok(()));
    assert_eq!(draw_point(&mut ba, 1, 1, 2), Ok(()));
    assert_eq!(ab.buf, ba.buf);
}
