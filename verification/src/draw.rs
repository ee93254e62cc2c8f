use vstd::prelude::*;

use crate::bitmap::{Bitmap, Canvas, lemma_set_wf};

verus! {

/// The error every drawing operation reports for a point or rectangle off the bitmap.
pub const OUT_OF_RANGE: &'static str = "Out of Range";

/// What `draw_point` leaves: the pixel set when `(x, y)` can be drawn, the canvas untouched
/// otherwise.
pub open spec fn point_effect(c: Canvas, color: u32, x: int, y: int) -> Canvas {
    if c.contains(x, y) {
        c.set(x, y, color)
    } else {
        c
    }
}

/// Sets `(x, y)` to `color`, a point known to lie in the pixel store of the bitmap.
pub fn unchecked_draw_point<T: Bitmap>(buf: &mut T, color: u32, x: i64, y: i64)
    requires
        old(buf).canvas().wf(),
        old(buf).canvas().in_store(x as int, y as int),
    ensures
        final(buf).canvas() == old(buf).canvas().set(x as int, y as int, color),
{
    let p = buf.unchecked_pixel_at_mut(x, y);
    *p = color;
}

/// Sets `(x, y)` to `color`, or reports `OUT_OF_RANGE` and changes nothing when the point is
/// off the bitmap.
pub fn draw_point<T: Bitmap>(buf: &mut T, color: u32, x: i64, y: i64) -> (r: Result<(), &'static str>)
    requires
        old(buf).canvas().wf(),
    ensures
        final(buf).canvas() == point_effect(old(buf).canvas(), color, x as int, y as int),
        final(buf).canvas().wf(),
        final(buf).canvas().same_geometry(old(buf).canvas()),
        r == (if old(buf).canvas().contains(x as int, y as int) {
            Ok::<(), &'static str>(())
        } else {
            Err::<(), &'static str>(OUT_OF_RANGE)
        }),
{
    proof {
        if old(buf).canvas().contains(x as int, y as int) {
            lemma_set_wf(old(buf).canvas(), x as int, y as int, color);
        }
    }
    match buf.pixel_at_mut(x, y) {
        Some(p) => {
            *p = color;
            Ok(())
        },
        None => Err(OUT_OF_RANGE),
    }
}

/// The bounds `fill_rect` checks: the left edge against both ranges, the right edge against
/// the horizontal one and the bottom edge against the vertical one, and, for a rectangle
/// that is at least one pixel wide, that its top edge is not above the first row.
pub open spec fn fill_checks(c: Canvas, px: int, py: int, w: int, h: int) -> bool {
    &&& c.in_x_range(px)
    &&& c.in_y_range(px)
    &&& c.in_x_range(px + w - 1)
    &&& c.in_y_range(py + h - 1)
    &&& w >= 1 ==> py >= 0
}

/// The inputs on which the edge arithmetic of `fill_rect` stays within `i64`.
pub open spec fn fill_defined(c: Canvas, px: int, py: int, w: int, h: int) -> bool {
    &&& (c.in_x_range(px) && c.in_y_range(px)) ==> (i64::MIN <= px + w - 1 && px + w <= i64::MAX)
    &&& (c.in_x_range(px) && c.in_y_range(px) && c.in_x_range(px + w - 1)) ==> (i64::MIN <= py + h
        - 1 && py + h <= i64::MAX)
}

/// The first `n` pixels of row `y` from column `px` on, set one after the other.
pub open spec fn fill_row(c: Canvas, color: u32, px: int, y: int, n: int) -> Canvas
    decreases n,
{
    if n <= 0 {
        c
    } else {
        fill_row(c, color, px, y, n - 1).set(px + n - 1, y, color)
    }
}

/// The first `m` rows of the rectangle at `(px, py)` of width `w`, filled row after row.
pub open spec fn fill_rows(c: Canvas, color: u32, px: int, py: int, w: int, m: int) -> Canvas
    decreases m,
{
    if m <= 0 {
        c
    } else {
        fill_row(fill_rows(c, color, px, py, w, m - 1), color, px, py + m - 1, w)
    }
}

/// What `fill_rect` leaves.
pub open spec fn fill_effect(c: Canvas, color: u32, px: int, py: int, w: int, h: int) -> Canvas {
    if fill_checks(c, px, py, w, h) {
        fill_rows(c, color, px, py, w, h)
    } else {
        c
    }
}

/// Fills the rectangle of width `w` and height `h` at `(px, py)` with `color`, or reports
/// `OUT_OF_RANGE` and changes nothing when the rectangle fails the checks. A rectangle that
/// would reach above the first row is refused: no pixel off the bitmap is ever written.
pub fn fill_rect<T: Bitmap>(buf: &mut T, color: u32, px: i64, py: i64, w: i64, h: i64) -> (r:
    Result<(), &'static str>)
    requires
        old(buf).canvas().wf(),
        fill_defined(old(buf).canvas(), px as int, py as int, w as int, h as int),
    ensures
        final(buf).canvas() == fill_effect(
            old(buf).canvas(),
            color,
            px as int,
            py as int,
            w as int,
            h as int,
        ),
        final(buf).canvas().wf(),
        final(buf).canvas().same_geometry(old(buf).canvas()),
        r == (if fill_checks(old(buf).canvas(), px as int, py as int, w as int, h as int) {
            Ok::<(), &'static str>(())
        } else {
            Err::<(), &'static str>(OUT_OF_RANGE)
        }),
{
    let ghost c0 = buf.canvas();
    if !buf.is_in_x_range(px) || !buf.is_in_y_range(px) || !buf.is_in_x_range(px + w - 1)
        || !buf.is_in_y_range(py + h - 1) {
        return Err(OUT_OF_RANGE);
    }
    if w > 0 && py < 0 {
        return Err(OUT_OF_RANGE);
    }
    let y_end = py + h;
    let x_end = px + w;
    let mut y = py;
    while y < y_end
        invariant
            c0.wf(),
            fill_checks(c0, px as int, py as int, w as int, h as int),
            fill_defined(c0, px as int, py as int, w as int, h as int),
            y_end == py + h,
            x_end == px + w,
            py <= y,
            y <= y_end || y == py,
            buf.canvas().wf(),
            buf.canvas().same_geometry(c0),
            buf.canvas() == fill_rows(c0, color, px as int, py as int, w as int, y - py),
        decreases y_end - y,
    {
        let ghost row_start = buf.canvas();
        let mut x = px;
        while x < x_end
            invariant
                c0.wf(),
                fill_checks(c0, px as int, py as int, w as int, h as int),
                fill_defined(c0, px as int, py as int, w as int, h as int),
                y_end == py + h,
                x_end == px + w,
                py <= y < y_end,
                px <= x,
                x <= x_end || x == px,
                row_start == fill_rows(c0, color, px as int, py as int, w as int, y - py),
                buf.canvas().wf(),
                buf.canvas().same_geometry(c0),
                buf.canvas() == fill_row(row_start, color, px as int, y as int, x - px),
            decreases x_end - x,
        {
            proof {
                lemma_set_wf(buf.canvas(), x as int, y as int, color);
            }
            unchecked_draw_point(buf, color, x, y);
            x = x + 1;
        }
        y = y + 1;
    }
    Ok(())
}

} // verus!
