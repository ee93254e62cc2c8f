use vstd::prelude::*;

use crate::bitmap::{Bitmap, Canvas, lemma_set_wf};
use crate::draw::{draw_point, OUT_OF_RANGE};
use crate::slope::{calc_slope_point, slope_value};

verus! {

pub open spec fn abs_diff(from: int, to: int) -> int {
    if to >= from {
        to - from
    } else {
        from - to
    }
}

pub open spec fn sign_of(d: int) -> int {
    if d > 0 {
        1
    } else if d < 0 {
        -1
    } else {
        0
    }
}

/// `i * s` for a sign `s` in `{-1, 0, 1}`.
pub open spec fn scaled(i: int, s: int) -> int {
    if s > 0 {
        i
    } else if s < 0 {
        -i
    } else {
        0
    }
}

/// Point `i` of the line from `(x0, y0)` towards `(x1, y1)`: one step along the axis on which
/// the line is longer, the other coordinate rounded from the slope.
pub open spec fn line_point(x0: int, y0: int, x1: int, y1: int, i: int) -> (int, int) {
    let dx = abs_diff(x0, x1);
    let dy = abs_diff(y0, y1);
    let sx = sign_of(x1 - x0);
    let sy = sign_of(y1 - y0);
    if dx >= dy {
        (x0 + scaled(i, sx), y0 + scaled(slope_value(dx, dy, i), sy))
    } else {
        (x0 + scaled(slope_value(dy, dx, i), sx), y0 + scaled(i, sy))
    }
}

/// The number of points of the line: its longer extent (the end point itself is not drawn).
pub open spec fn line_len(x0: int, y0: int, x1: int, y1: int) -> int {
    let dx = abs_diff(x0, x1);
    let dy = abs_diff(y0, y1);
    if dx >= dy {
        dx
    } else {
        dy
    }
}

/// The points of the line, in the order they are drawn.
pub open spec fn line_points(x0: int, y0: int, x1: int, y1: int) -> Seq<(int, int)> {
    Seq::new(line_len(x0, y0, x1, y1) as nat, |i: int| line_point(x0, y0, x1, y1, i))
}

/// The checks `draw_line` makes, as it makes them: all four coordinates against the
/// horizontal range.
pub open spec fn line_checks(c: Canvas, x0: int, y0: int, x1: int, y1: int) -> bool {
    &&& c.in_x_range(x0)
    &&& c.in_x_range(x1)
    &&& c.in_x_range(y0)
    &&& c.in_x_range(y1)
}

/// The inputs on which the slope arithmetic of `draw_line` stays within `i64`.
pub open spec fn line_defined(c: Canvas, x0: int, y0: int, x1: int, y1: int) -> bool {
    line_checks(c, x0, y0, x1, y1) ==> {
        let dx = abs_diff(x0, x1);
        let dy = abs_diff(y0, y1);
        let major = if dx >= dy { dx } else { dy };
        let minor = if dx >= dy { dy } else { dx };
        major > 0 ==> 2 * minor * (major - 1) + major <= i64::MAX
    }
}

/// The canvas after setting each of `pts` to `color`, first to last.
pub open spec fn paint(c: Canvas, pts: Seq<(int, int)>, color: u32) -> Canvas
    decreases pts.len(),
{
    if pts.len() == 0 {
        c
    } else {
        paint(c, pts.drop_last(), color).set(pts.last().0, pts.last().1, color)
    }
}

/// `k` is the position of the first point of `pts` off the canvas, or the length when every
/// point is on it.
pub open spec fn is_first_outside(c: Canvas, pts: Seq<(int, int)>, k: int) -> bool {
    &&& 0 <= k <= pts.len()
    &&& forall|j: int| 0 <= j < k ==> c.contains(#[trigger] pts[j].0, pts[j].1)
    &&& k < pts.len() ==> !c.contains(pts[k].0, pts[k].1)
}

pub open spec fn first_outside(c: Canvas, pts: Seq<(int, int)>) -> int {
    choose|k: int| is_first_outside(c, pts, k)
}

/// What `draw_line` leaves, and whether it reports success: the points up to the first one
/// off the bitmap are drawn.
pub open spec fn line_effect(c: Canvas, color: u32, x0: int, y0: int, x1: int, y1: int) -> (
    Canvas,
    bool,
) {
    if !line_checks(c, x0, y0, x1, y1) {
        (c, false)
    } else {
        let pts = line_points(x0, y0, x1, y1);
        let k = first_outside(c, pts);
        (paint(c, pts.take(k), color), k == pts.len())
    }
}

pub proof fn lemma_first_outside_unique(c: Canvas, pts: Seq<(int, int)>, k: int)
    requires
        is_first_outside(c, pts, k),
    ensures
        first_outside(c, pts) == k,
{
    let k2 = first_outside(c, pts);
    assert(is_first_outside(c, pts, k2));
    if k2 < k {
        assert(c.contains(pts[k2].0, pts[k2].1));
    } else if k < k2 {
        assert(c.contains(pts[k].0, pts[k].1));
    }
}

proof fn lemma_scaled(i: int, s: int)
    requires
        s == 1 || s == 0 || s == -1,
    ensures
        i * s == scaled(i, s),
{
    assert(i * s == scaled(i, s)) by (nonlinear_arith)
        requires
            s == 1 || s == 0 || s == -1,
    ;
}

proof fn lemma_paint_step(c: Canvas, pts: Seq<(int, int)>, color: u32, k: int)
    requires
        0 <= k < pts.len(),
    ensures
        paint(c, pts.take(k + 1), color) == paint(c, pts.take(k), color).set(
            pts[k].0,
            pts[k].1,
            color,
        ),
{
    assert(pts.take(k + 1).drop_last() =~= pts.take(k));
}

proof fn lemma_step_fits(major: int, minor: int, i: int)
    requires
        0 <= minor <= u32::MAX,
        0 <= i < major,
        2 * minor * (major - 1) + major <= i64::MAX,
    ensures
        0 <= 2 * minor <= i64::MAX,
        0 <= 2 * minor * i <= i64::MAX,
        0 <= 2 * minor * i + major <= i64::MAX,
{
    assert(0 <= 2 * minor * i <= 2 * minor * (major - 1)) by (nonlinear_arith)
        requires
            0 <= minor,
            0 <= i < major,
    ;
}

/// Draws the line from `(x0, y0)` towards `(x1, y1)` in `color`, stopping with `OUT_OF_RANGE`
/// at the first point off the bitmap, or at once when a coordinate fails the checks.
pub fn draw_line<T: Bitmap>(buf: &mut T, color: u32, x0: i64, y0: i64, x1: i64, y1: i64) -> (r:
    Result<(), &'static str>)
    requires
        old(buf).canvas().wf(),
        line_defined(old(buf).canvas(), x0 as int, y0 as int, x1 as int, y1 as int),
    ensures
        final(buf).canvas() == line_effect(
            old(buf).canvas(),
            color,
            x0 as int,
            y0 as int,
            x1 as int,
            y1 as int,
        ).0,
        final(buf).canvas().wf(),
        final(buf).canvas().same_geometry(old(buf).canvas()),
        r == (if line_effect(
            old(buf).canvas(),
            color,
            x0 as int,
            y0 as int,
            x1 as int,
            y1 as int,
        ).1 {
            Ok::<(), &'static str>(())
        } else {
            Err::<(), &'static str>(OUT_OF_RANGE)
        }),
{
    let ghost c0 = buf.canvas();
    if !buf.is_in_x_range(x0) || !buf.is_in_x_range(x1) || !buf.is_in_x_range(y0)
        || !buf.is_in_x_range(y1) {
        return Err(OUT_OF_RANGE);
    }
    let dx: i64 = if x1 >= x0 { x1 - x0 } else { x0 - x1 };
    let sx: i64 = if x1 > x0 { 1 } else if x1 < x0 { -1 } else { 0 };
    let dy: i64 = if y1 >= y0 { y1 - y0 } else { y0 - y1 };
    let sy: i64 = if y1 > y0 { 1 } else if y1 < y0 { -1 } else { 0 };
    let ghost pts = line_points(x0 as int, y0 as int, x1 as int, y1 as int);
    if dx >= dy {
        let mut rx: i64 = 0;
        while rx < dx
            invariant
                c0 == old(buf).canvas(),
                c0.wf(),
                line_checks(c0, x0 as int, y0 as int, x1 as int, y1 as int),
                line_defined(c0, x0 as int, y0 as int, x1 as int, y1 as int),
                dx == abs_diff(x0 as int, x1 as int),
                dy == abs_diff(y0 as int, y1 as int),
                sx == sign_of(x1 - x0),
                sy == sign_of(y1 - y0),
                dx >= dy,
                pts == line_points(x0 as int, y0 as int, x1 as int, y1 as int),
                pts.len() == dx,
                0 <= rx <= dx,
                forall|j: int| 0 <= j < rx ==> c0.contains(#[trigger] pts[j].0, pts[j].1),
                buf.canvas().wf(),
                buf.canvas().same_geometry(c0),
                buf.canvas() == paint(c0, pts.take(rx as int), color),
            decreases dx - rx,
        {
            proof {
                lemma_step_fits(dx as int, dy as int, rx as int);
            }
            if let Some(ry) = calc_slope_point(dx, dy, rx) {
                proof {
                    lemma_scaled(rx as int, sx as int);
                    lemma_scaled(ry as int, sy as int);
                    assert(pts[rx as int] == line_point(x0 as int, y0 as int, x1 as int, y1 as int, rx as int));
                }
                let r = draw_point(buf, color, x0 + rx * sx, y0 + ry * sy);
                proof {
                    lemma_paint_step(c0, pts, color, rx as int);
                }
                if r.is_err() {
                    proof {
                        assert(!c0.contains(pts[rx as int].0, pts[rx as int].1));
                        assert(is_first_outside(c0, pts, rx as int));
                        lemma_first_outside_unique(c0, pts, rx as int);
                    }
                    return r;
                }
                proof {
                    lemma_set_wf(paint(c0, pts.take(rx as int), color), pts[rx as int].0, pts[rx as int].1, color);
                }
            }
            rx = rx + 1;
        }
    } else {
        let mut ry: i64 = 0;
        while ry < dy
            invariant
                c0 == old(buf).canvas(),
                c0.wf(),
                line_checks(c0, x0 as int, y0 as int, x1 as int, y1 as int),
                line_defined(c0, x0 as int, y0 as int, x1 as int, y1 as int),
                dx == abs_diff(x0 as int, x1 as int),
                dy == abs_diff(y0 as int, y1 as int),
                sx == sign_of(x1 - x0),
                sy == sign_of(y1 - y0),
                dx < dy,
                pts == line_points(x0 as int, y0 as int, x1 as int, y1 as int),
                pts.len() == dy,
                0 <= ry <= dy,
                forall|j: int| 0 <= j < ry ==> c0.contains(#[trigger] pts[j].0, pts[j].1),
                buf.canvas().wf(),
                buf.canvas().same_geometry(c0),
                buf.canvas() == paint(c0, pts.take(ry as int), color),
            decreases dy - ry,
        {
            proof {
                lemma_step_fits(dy as int, dx as int, ry as int);
            }
            if let Some(rx) = calc_slope_point(dy, dx, ry) {
                proof {
                    lemma_scaled(rx as int, sx as int);
                    lemma_scaled(ry as int, sy as int);
                    assert(pts[ry as int] == line_point(x0 as int, y0 as int, x1 as int, y1 as int, ry as int));
                }
                let r = draw_point(buf, color, x0 + rx * sx, y0 + ry * sy);
                proof {
                    lemma_paint_step(c0, pts, color, ry as int);
                }
                if r.is_err() {
                    proof {
                        assert(!c0.contains(pts[ry as int].0, pts[ry as int].1));
                        assert(is_first_outside(c0, pts, ry as int));
                        lemma_first_outside_unique(c0, pts, ry as int);
                    }
                    return r;
                }
                proof {
                    lemma_set_wf(paint(c0, pts.take(ry as int), color), pts[ry as int].0, pts[ry as int].1, color);
                }
            }
            ry = ry + 1;
        }
    }
    proof {
        assert(pts.take(pts.len() as int) =~= pts);
        lemma_first_outside_unique(c0, pts, pts.len() as int);
    }
    Ok(())
}

} // verus!
