use vstd::prelude::*;

use crate::bitmap::{Canvas, lemma_set_wf};
use crate::draw::{fill_checks, fill_defined, fill_effect, fill_row, fill_rows, point_effect};
use crate::line::{
    abs_diff, first_outside, line_checks, line_effect, line_len, line_point, line_points,
    paint, scaled, sign_of,
};
use crate::scene::{demo_scene, scene_diagonal, scene_fills, scene_grid, scene_star};
use crate::slope::{lemma_slope_diagonal, lemma_slope_range, lemma_slope_step, slope_value};

verus! {

/// Two positions of the store share a pixel only when they are the same position.
pub proof fn lemma_index_injective(c: Canvas, x: int, y: int, x2: int, y2: int)
    requires
        c.in_store(x, y),
        c.in_store(x2, y2),
        c.index(x, y) == c.index(x2, y2),
    ensures
        x == x2,
        y == y2,
{
    let p = c.pixels_per_line;
    assert(x == x2 && y == y2) by (nonlinear_arith)
        requires
            0 <= x < p,
            0 <= x2 < p,
            0 <= y,
            0 <= y2,
            y * p + x == y2 * p + x2,
    {
        if y < y2 {
            assert(y2 * p >= (y + 1) * p);
        } else if y2 < y {
            assert(y * p >= (y2 + 1) * p);
        }
    }
}

/// Setting a pixel changes that pixel to the new colour and no other.
pub proof fn lemma_set_pixel(c: Canvas, x: int, y: int, color: u32, x2: int, y2: int)
    requires
        c.wf(),
        c.in_store(x, y),
        c.in_store(x2, y2),
    ensures
        c.set(x, y, color).pixel(x2, y2) == if x == x2 && y == y2 {
            color
        } else {
            c.pixel(x2, y2)
        },
{
    crate::bitmap::lemma_index_in_bounds(c, x, y);
    crate::bitmap::lemma_index_in_bounds(c, x2, y2);
    if c.index(x, y) == c.index(x2, y2) {
        lemma_index_injective(c, x, y, x2, y2);
    }
}

proof fn lemma_fill_row(c: Canvas, color: u32, px: int, y: int, n: int)
    requires
        c.wf(),
        forall|a: int| px <= a < px + n ==> #[trigger] c.contains(a, y),
    ensures
        fill_row(c, color, px, y, n).wf(),
        fill_row(c, color, px, y, n).same_geometry(c),
        forall|a: int, b: int|
            c.in_store(a, b) ==> #[trigger] fill_row(c, color, px, y, n).pixel(a, b) == if b == y
                && px <= a < px + n {
                color
            } else {
                c.pixel(a, b)
            },
    decreases n,
{
    if n > 0 {
        lemma_fill_row(c, color, px, y, n - 1);
        let prev = fill_row(c, color, px, y, n - 1);
        assert(c.contains(px + n - 1, y));
        lemma_set_wf(prev, px + n - 1, y, color);
        assert forall|a: int, b: int| c.in_store(a, b) implies #[trigger] fill_row(
            c,
            color,
            px,
            y,
            n,
        ).pixel(a, b) == if b == y && px <= a < px + n {
            color
        } else {
            c.pixel(a, b)
        } by {
            lemma_set_pixel(prev, px + n - 1, y, color, a, b);
        }
    }
}

proof fn lemma_fill_rows(c: Canvas, color: u32, px: int, py: int, w: int, m: int)
    requires
        c.wf(),
        forall|a: int, b: int| px <= a < px + w && py <= b < py + m ==> #[trigger] c.contains(a, b),
    ensures
        fill_rows(c, color, px, py, w, m).wf(),
        fill_rows(c, color, px, py, w, m).same_geometry(c),
        forall|a: int, b: int|
            c.in_store(a, b) ==> #[trigger] fill_rows(c, color, px, py, w, m).pixel(a, b) == if py
                <= b < py + m && px <= a < px + w {
                color
            } else {
                c.pixel(a, b)
            },
    decreases m,
{
    if m > 0 {
        lemma_fill_rows(c, color, px, py, w, m - 1);
        let prev = fill_rows(c, color, px, py, w, m - 1);
        assert forall|a: int| px <= a < px + w implies #[trigger] prev.contains(a, py + m - 1) by {
            assert(c.contains(a, py + m - 1));
        }
        lemma_fill_row(prev, color, px, py + m - 1, w);
    }
}

/// A rectangle that passes the checks ends up in `color` and every other pixel keeps its
/// colour; a rectangle that fails them changes nothing.
pub proof fn lemma_fill_rect_pixels(
    c: Canvas,
    color: u32,
    px: int,
    py: int,
    w: int,
    h: int,
    x: int,
    y: int,
)
    requires
        c.wf(),
        fill_defined(c, px, py, w, h),
        c.in_store(x, y),
    ensures
        fill_effect(c, color, px, py, w, h).wf(),
        fill_effect(c, color, px, py, w, h).same_geometry(c),
        fill_effect(c, color, px, py, w, h).pixel(x, y) == if fill_checks(c, px, py, w, h) && px
            <= x < px + w && py <= y < py + h {
            color
        } else {
            c.pixel(x, y)
        },
{
    if fill_checks(c, px, py, w, h) {
        lemma_fill_rows(c, color, px, py, w, h);
    }
}

/// Painting points of the bitmap sets exactly those points to `color`.
pub proof fn lemma_paint_pixels(c: Canvas, pts: Seq<(int, int)>, color: u32)
    requires
        c.wf(),
        forall|j: int| 0 <= j < pts.len() ==> c.contains(#[trigger] pts[j].0, pts[j].1),
    ensures
        paint(c, pts, color).wf(),
        paint(c, pts, color).same_geometry(c),
        forall|a: int, b: int|
            c.in_store(a, b) ==> #[trigger] paint(c, pts, color).pixel(a, b) == if pts.contains(
                (a, b),
            ) {
                color
            } else {
                c.pixel(a, b)
            },
    decreases pts.len(),
{
    if pts.len() > 0 {
        let rest = pts.drop_last();
        assert forall|j: int| 0 <= j < rest.len() implies c.contains(
            #[trigger] rest[j].0,
            rest[j].1,
        ) by {
            assert(rest[j] == pts[j]);
        }
        lemma_paint_pixels(c, rest, color);
        let prev = paint(c, rest, color);
        let last = pts.last();
        assert(c.contains(pts[pts.len() - 1].0, pts[pts.len() - 1].1));
        lemma_set_wf(prev, last.0, last.1, color);
        assert forall|a: int, b: int| c.in_store(a, b) implies #[trigger] paint(
            c,
            pts,
            color,
        ).pixel(a, b) == if pts.contains((a, b)) {
            color
        } else {
            c.pixel(a, b)
        } by {
            lemma_set_pixel(prev, last.0, last.1, color, a, b);
            if pts.contains((a, b)) && !(last.0 == a && last.1 == b) {
                let j = choose|j: int| 0 <= j < pts.len() && pts[j] == (a, b);
                assert(rest[j] == (a, b));
                assert(rest.contains((a, b)));
            }
            if rest.contains((a, b)) {
                let j = choose|j: int| 0 <= j < rest.len() && rest[j] == (a, b);
                assert(pts[j] == (a, b));
            }
        }
    }
}

/// The points `draw_line` draws end up in `color`, every other pixel keeps its colour: the
/// points are those of the line up to the first one off the bitmap.
pub proof fn lemma_draw_line_pixels(
    c: Canvas,
    color: u32,
    x0: int,
    y0: int,
    x1: int,
    y1: int,
    x: int,
    y: int,
)
    requires
        c.wf(),
        c.in_store(x, y),
    ensures
        line_effect(c, color, x0, y0, x1, y1).0.wf(),
        line_effect(c, color, x0, y0, x1, y1).0.same_geometry(c),
        line_effect(c, color, x0, y0, x1, y1).0.pixel(x, y) == if line_checks(c, x0, y0, x1, y1)
            && line_points(x0, y0, x1, y1).take(
            first_outside(c, line_points(x0, y0, x1, y1)),
        ).contains((x, y)) {
            color
        } else {
            c.pixel(x, y)
        },
{
    if line_checks(c, x0, y0, x1, y1) {
        let pts = line_points(x0, y0, x1, y1);
        lemma_first_outside_exists(c, pts, 0);
        let k = first_outside(c, pts);
        let drawn = pts.take(k);
        assert forall|j: int| 0 <= j < drawn.len() implies c.contains(
            #[trigger] drawn[j].0,
            drawn[j].1,
        ) by {
            assert(drawn[j] == pts[j]);
        }
        lemma_paint_pixels(c, drawn, color);
    }
}

/// Every sequence of points has a first one off the canvas, or none: searching from `start`
/// past points that are all on it finds it.
proof fn lemma_first_outside_exists(c: Canvas, pts: Seq<(int, int)>, start: int)
    requires
        0 <= start <= pts.len(),
        forall|j: int| 0 <= j < start ==> c.contains(#[trigger] pts[j].0, pts[j].1),
    ensures
        crate::line::is_first_outside(c, pts, first_outside(c, pts)),
    decreases pts.len() - start,
{
    if start == pts.len() || !c.contains(pts[start].0, pts[start].1) {
        assert(crate::line::is_first_outside(c, pts, start));
    } else {
        lemma_first_outside_exists(c, pts, start + 1);
    }
}

pub open spec fn near(a: int, b: int) -> bool {
    -1 <= a - b <= 1
}

pub open spec fn between(v: int, a: int, b: int) -> bool {
    (a <= v <= b) || (b <= v <= a)
}

proof fn lemma_scaled_between(i: int, d: int, s: int, a: int, b: int)
    requires
        0 <= i <= d,
        d == abs_diff(a, b),
        s == sign_of(b - a),
    ensures
        between(a + scaled(i, s), a, b),
{
}

/// The shape of a line: it starts at its first end, each point is a neighbour of the one
/// before it (8-connected, one step along the longer axis), all points lie between the two
/// ends, and the last point is a neighbour of the second end, which is not itself drawn.
pub proof fn lemma_line_shape(x0: int, y0: int, x1: int, y1: int)
    ensures
        line_points(x0, y0, x1, y1).len() == line_len(x0, y0, x1, y1),
        line_len(x0, y0, x1, y1) > 0 ==> line_points(x0, y0, x1, y1)[0] == (x0, y0),
        forall|i: int|
            0 <= i < line_len(x0, y0, x1, y1) ==> between(
                #[trigger] line_point(x0, y0, x1, y1, i).0,
                x0,
                x1,
            ) && between(line_point(x0, y0, x1, y1, i).1, y0, y1),
        forall|i: int|
            0 <= i < line_len(x0, y0, x1, y1) - 1 ==> near(
                #[trigger] line_point(x0, y0, x1, y1, i + 1).0,
                line_point(x0, y0, x1, y1, i).0,
            ) && near(line_point(x0, y0, x1, y1, i + 1).1, line_point(x0, y0, x1, y1, i).1),
        line_len(x0, y0, x1, y1) > 0 ==> near(
            line_point(x0, y0, x1, y1, line_len(x0, y0, x1, y1) - 1).0,
            x1,
        ) && near(line_point(x0, y0, x1, y1, line_len(x0, y0, x1, y1) - 1).1, y1),
{
    let dx = abs_diff(x0, x1);
    let dy = abs_diff(y0, y1);
    let n = line_len(x0, y0, x1, y1);
    if n > 0 {
        if dx >= dy {
            lemma_slope_range(dx, dy, 0);
            lemma_slope_range(dx, dy, n - 1);
            lemma_slope_step(dx, dy, n - 1);
        } else {
            lemma_slope_range(dy, dx, 0);
            lemma_slope_range(dy, dx, n - 1);
            lemma_slope_step(dy, dx, n - 1);
        }
    }
    assert forall|i: int| 0 <= i < n implies between(
        #[trigger] line_point(x0, y0, x1, y1, i).0,
        x0,
        x1,
    ) && between(line_point(x0, y0, x1, y1, i).1, y0, y1) by {
        if dx >= dy {
            lemma_slope_range(dx, dy, i);
            lemma_scaled_between(i, dx, sign_of(x1 - x0), x0, x1);
            lemma_scaled_between(slope_value(dx, dy, i), dy, sign_of(y1 - y0), y0, y1);
        } else {
            lemma_slope_range(dy, dx, i);
            lemma_scaled_between(slope_value(dy, dx, i), dx, sign_of(x1 - x0), x0, x1);
            lemma_scaled_between(i, dy, sign_of(y1 - y0), y0, y1);
        }
    }
    assert forall|i: int| 0 <= i < n - 1 implies near(
        #[trigger] line_point(x0, y0, x1, y1, i + 1).0,
        line_point(x0, y0, x1, y1, i).0,
    ) && near(line_point(x0, y0, x1, y1, i + 1).1, line_point(x0, y0, x1, y1, i).1) by {
        if dx >= dy {
            lemma_slope_step(dx, dy, i);
        } else {
            lemma_slope_step(dy, dx, i);
        }
    }
}

} // verus!

verus! {

/// Drawing two points gives the same bitmap in either order, unless they are the same point
/// in two colours.
pub proof fn lemma_draw_points_commute(
    c: Canvas,
    color1: u32,
    x1: int,
    y1: int,
    color2: u32,
    x2: int,
    y2: int,
)
    requires
        c.wf(),
        x1 != x2 || y1 != y2 || color1 == color2,
    ensures
        point_effect(point_effect(c, color1, x1, y1), color2, x2, y2) == point_effect(
            point_effect(c, color2, x2, y2),
            color1,
            x1,
            y1,
        ),
{
    if c.contains(x1, y1) && c.contains(x2, y2) {
        crate::bitmap::lemma_index_in_bounds(c, x1, y1);
        crate::bitmap::lemma_index_in_bounds(c, x2, y2);
        if c.index(x1, y1) == c.index(x2, y2) {
            lemma_index_injective(c, x1, y1, x2, y2);
        }
        assert(c.pixels.update(c.index(x1, y1), color1).update(c.index(x2, y2), color2)
            =~= c.pixels.update(c.index(x2, y2), color2).update(c.index(x1, y1), color1));
    }
}

} // verus!

verus! {

/// Column `v` can be drawn: it lies inside the visible width and inside a scan line.
pub open spec fn drawable_column(c: Canvas, v: int) -> bool {
    0 <= v && v < c.width && v < c.pixels_per_line
}

/// Point `p` can be drawn: a drawable column, above the last row.
pub open spec fn drawable(c: Canvas, p: (int, int)) -> bool {
    drawable_column(c, p.0) && 0 <= p.1 && p.1 < c.height
}

/// `draw_point` sets the pixel at `(x, y)` to `color`, whatever the colour, when the point can
/// be drawn, and leaves every other pixel, and every pixel when it cannot, as it was.
pub proof fn lemma_draw_point_result(c: Canvas, color: u32, x: int, y: int, x2: int, y2: int)
    requires
        c.wf(),
        c.in_store(x2, y2),
    ensures
        point_effect(c, color, x, y).wf(),
        point_effect(c, color, x, y).same_geometry(c),
        point_effect(c, color, x, y).pixel(x2, y2) == if x2 == x && y2 == y && drawable(c, (x, y)) {
            color
        } else {
            c.pixel(x2, y2)
        },
{
    if c.contains(x, y) {
        lemma_set_wf(c, x, y, color);
        lemma_set_pixel(c, x, y, color, x2, y2);
    }
}

/// `fill_rect` succeeds exactly when its left edge is a drawable column and a row, its right
/// edge a drawable column, its bottom edge a row, and a rectangle at least one pixel wide
/// does not start above the first row; it then colours exactly the rectangle, whatever its
/// height. Otherwise nothing changes.
pub proof fn lemma_fill_rect_result(
    c: Canvas,
    color: u32,
    px: int,
    py: int,
    w: int,
    h: int,
    x: int,
    y: int,
)
    requires
        c.wf(),
        fill_defined(c, px, py, w, h),
        c.in_store(x, y),
    ensures
        fill_checks(c, px, py, w, h) == (drawable_column(c, px) && 0 <= px < c.height
            && drawable_column(c, px + w - 1) && 0 <= py + h - 1 < c.height && (w >= 1 ==> py
            >= 0)),
        fill_effect(c, color, px, py, w, h).pixel(x, y) == if drawable_column(c, px) && 0 <= px
            < c.height && drawable_column(c, px + w - 1) && 0 <= py + h - 1 < c.height && (w >= 1
            ==> py >= 0) && px <= x < px + w && py <= y < py + h {
            color
        } else {
            c.pixel(x, y)
        },
{
    lemma_fill_rect_pixels(c, color, px, py, w, h, x, y);
}

/// `draw_line` reports success exactly when its four coordinates are drawable columns and
/// every point of the line, whatever its direction, can be drawn; every point of such a line
/// then has `color`.
pub proof fn lemma_draw_line_result(c: Canvas, color: u32, x0: int, y0: int, x1: int, y1: int)
    requires
        c.wf(),
    ensures
        line_effect(c, color, x0, y0, x1, y1).0.wf(),
        line_effect(c, color, x0, y0, x1, y1).0.same_geometry(c),
        line_effect(c, color, x0, y0, x1, y1).1 == (drawable_column(c, x0) && drawable_column(
            c,
            x1,
        ) && drawable_column(c, y0) && drawable_column(c, y1) && forall|i: int|
            0 <= i < line_len(x0, y0, x1, y1) ==> drawable(
                c,
                #[trigger] line_point(x0, y0, x1, y1, i),
            )),
        line_effect(c, color, x0, y0, x1, y1).1 ==> forall|i: int|
            0 <= i < line_len(x0, y0, x1, y1) ==> line_effect(c, color, x0, y0, x1, y1).0.pixel(
                #[trigger] line_point(x0, y0, x1, y1, i).0,
                line_point(x0, y0, x1, y1, i).1,
            ) == color,
{
    if line_checks(c, x0, y0, x1, y1) {
        let pts = line_points(x0, y0, x1, y1);
        lemma_first_outside_exists(c, pts, 0);
        let k = first_outside(c, pts);
        let drawn = pts.take(k);
        assert forall|j: int| 0 <= j < drawn.len() implies c.contains(
            #[trigger] drawn[j].0,
            drawn[j].1,
        ) by {
            assert(drawn[j] == pts[j]);
        }
        lemma_paint_pixels(c, drawn, color);
        if k < pts.len() {
            assert(pts[k] == line_point(x0, y0, x1, y1, k));
            assert(!drawable(c, line_point(x0, y0, x1, y1, k)));
        } else {
            assert(drawn =~= pts);
            assert forall|i: int| 0 <= i < line_len(x0, y0, x1, y1) implies drawable(
                c,
                #[trigger] line_point(x0, y0, x1, y1, i),
            ) by {
                assert(pts[i] == line_point(x0, y0, x1, y1, i));
                assert(c.contains(pts[i].0, pts[i].1));
            }
            assert forall|i: int| 0 <= i < line_len(x0, y0, x1, y1) implies paint(
                c,
                drawn,
                color,
            ).pixel(
                #[trigger] line_point(x0, y0, x1, y1, i).0,
                line_point(x0, y0, x1, y1, i).1,
            ) == color by {
                assert(pts[i] == line_point(x0, y0, x1, y1, i));
                assert(c.contains(pts[i].0, pts[i].1));
                assert(drawn.contains(pts[i]));
            }
        }
    }
}

/// `draw_line` leaves every pixel that is not a point of the line as it was.
pub proof fn lemma_draw_line_keeps(
    c: Canvas,
    color: u32,
    x0: int,
    y0: int,
    x1: int,
    y1: int,
    p: (int, int),
)
    requires
        c.wf(),
        c.in_store(p.0, p.1),
        !line_points(x0, y0, x1, y1).contains(p),
    ensures
        line_effect(c, color, x0, y0, x1, y1).0.pixel(p.0, p.1) == c.pixel(p.0, p.1),
{
    lemma_draw_line_pixels(c, color, x0, y0, x1, y1, p.0, p.1);
    let pts = line_points(x0, y0, x1, y1);
    let drawn = pts.take(first_outside(c, pts));
    if line_checks(c, x0, y0, x1, y1) && drawn.contains(p) {
        lemma_first_outside_exists(c, pts, 0);
        let j = choose|j: int| 0 <= j < drawn.len() && drawn[j] == p;
        assert(pts[j] == p);
    }
}

} // verus!

verus! {

/// `p` is a point of one of the four rays of group `k` of the star: from the centre to
/// `(0, 32k)`, `(32k, 0)`, `(256, 32k)` and `(32k, 256)`.
pub open spec fn on_star_rays(k: int, p: (int, int)) -> bool {
    let i = 32 * k;
    ||| line_points(128, 128, 0, i).contains(p)
    ||| line_points(128, 128, i, 0).contains(p)
    ||| line_points(128, 128, 256, i).contains(p)
    ||| line_points(128, 128, i, 256).contains(p)
}

proof fn lemma_diagonal_wf(c: Canvas, n: int)
    requires
        c.wf(),
    ensures
        scene_diagonal(c, n).wf(),
        scene_diagonal(c, n).same_geometry(c),
    decreases n,
{
    if n > 0 {
        lemma_diagonal_wf(c, n - 1);
        let prev = scene_diagonal(c, n - 1);
        if prev.contains(n - 1, n - 1) {
            lemma_set_wf(prev, n - 1, n - 1, (0x010101 * (n - 1)) as u32);
        }
    }
}

proof fn lemma_grid_wf(c: Canvas, k: int)
    requires
        c.wf(),
    ensures
        scene_grid(c, k).wf(),
        scene_grid(c, k).same_geometry(c),
    decreases k,
{
    if k > 0 {
        lemma_grid_wf(c, k - 1);
        let i = 8 + 32 * (k - 1);
        let prev = scene_grid(c, k - 1);
        lemma_draw_line_result(prev, 0xff0000, 0, i, 256, i);
        let h = line_effect(prev, 0xff0000, 0, i, 256, i).0;
        lemma_draw_line_result(h, 0xff0000, i, 0, i, 256);
    }
}

proof fn lemma_star_wf(c: Canvas, k: int)
    requires
        c.wf(),
    ensures
        scene_star(c, k).wf(),
        scene_star(c, k).same_geometry(c),
    decreases k,
{
    if k > 0 {
        lemma_star_wf(c, k - 1);
        let i = 32 * (k - 1);
        let c0 = scene_star(c, k - 1);
        lemma_draw_line_result(c0, 0xffff00, 128, 128, 0, i);
        let c1 = line_effect(c0, 0xffff00, 128, 128, 0, i).0;
        lemma_draw_line_result(c1, 0x00ffff, 128, 128, i, 0);
        let c2 = line_effect(c1, 0x00ffff, 128, 128, i, 0).0;
        lemma_draw_line_result(c2, 0xff00ff, 128, 128, 256, i);
        let c3 = line_effect(c2, 0xff00ff, 128, 128, 256, i).0;
        lemma_draw_line_result(c3, 0xffffff, 128, 128, i, 256);
    }
}

/// The picture up to the star keeps the geometry of the screen it is drawn on.
proof fn lemma_before_star_wf(c: Canvas)
    requires
        c.wf(),
        256 <= c.width <= c.pixels_per_line,
        256 <= c.height,
    ensures
        scene_grid(scene_diagonal(scene_fills(c), 256), 8).wf(),
        scene_grid(scene_diagonal(scene_fills(c), 256), 8).same_geometry(c),
{
    lemma_fill_rect_pixels(c, 0x000000, 0, 0, c.width, c.height, 0, 0);
    let c1 = fill_effect(c, 0x000000, 0, 0, c.width, c.height);
    lemma_fill_rect_pixels(c1, 0xff0000, 32, 32, 32, 32, 0, 0);
    let c2 = fill_effect(c1, 0xff0000, 32, 32, 32, 32);
    lemma_fill_rect_pixels(c2, 0x00ff00, 64, 64, 64, 64, 0, 0);
    let c3 = fill_effect(c2, 0x00ff00, 64, 64, 64, 64);
    lemma_fill_rect_pixels(c3, 0x0000ff, 128, 128, 128, 128, 0, 0);
    let fills = scene_fills(c);
    lemma_diagonal_wf(fills, 256);
    lemma_grid_wf(scene_diagonal(fills, 256), 8);
}

/// Groups of rays from `from` on that do not pass through `p` leave its pixel as it was.
proof fn lemma_star_keeps(c: Canvas, from: int, m: int, p: (int, int))
    requires
        c.wf(),
        c.in_store(p.0, p.1),
        0 <= from <= m,
        forall|k2: int| from <= k2 < m ==> !#[trigger] on_star_rays(k2, p),
    ensures
        scene_star(c, m).pixel(p.0, p.1) == scene_star(c, from).pixel(p.0, p.1),
    decreases m - from,
{
    if m > from {
        lemma_star_keeps(c, from, m - 1, p);
        lemma_star_wf(c, m - 1);
        assert(!on_star_rays(m - 1, p));
        let i = 32 * (m - 1);
        let c0 = scene_star(c, m - 1);
        lemma_draw_line_result(c0, 0xffff00, 128, 128, 0, i);
        lemma_draw_line_keeps(c0, 0xffff00, 128, 128, 0, i, p);
        let c1 = line_effect(c0, 0xffff00, 128, 128, 0, i).0;
        lemma_draw_line_result(c1, 0x00ffff, 128, 128, i, 0);
        lemma_draw_line_keeps(c1, 0x00ffff, 128, 128, i, 0, p);
        let c2 = line_effect(c1, 0x00ffff, 128, 128, i, 0).0;
        lemma_draw_line_result(c2, 0xff00ff, 128, 128, 256, i);
        lemma_draw_line_keeps(c2, 0xff00ff, 128, 128, 256, i, p);
        let c3 = line_effect(c2, 0xff00ff, 128, 128, 256, i).0;
        lemma_draw_line_keeps(c3, 0xffffff, 128, 128, i, 256, p);
    }
}

/// The ray from the centre to `(0, 32k)` lies on a screen that fits the picture.
proof fn lemma_yellow_ray_drawable(c: Canvas, k: int)
    requires
        256 <= c.width <= c.pixels_per_line,
        256 <= c.height,
        0 <= k <= 8,
        32 * k < c.width,
    ensures
        line_len(128, 128, 0, 32 * k) == 128,
        forall|i: int|
            0 <= i < line_len(128, 128, 0, 32 * k) ==> drawable(
                c,
                #[trigger] line_point(128, 128, 0, 32 * k, i),
            ),
{
    lemma_line_shape(128, 128, 0, 32 * k);
    assert forall|i: int| 0 <= i < line_len(128, 128, 0, 32 * k) implies drawable(
        c,
        #[trigger] line_point(128, 128, 0, 32 * k, i),
    ) by {
        if k == 8 {
            lemma_slope_diagonal(128, i);
        }
    }
}

/// In the test picture the rays from the centre `(128, 128)` to the left edge points
/// `(0, 32k)` are yellow: on a screen that fits the picture, every point of such a ray that no
/// ray drawn after it passes through has colour `0xffff00`.
pub proof fn lemma_yellow_rays(c: Canvas, k: int, j: int)
    requires
        c.wf(),
        256 <= c.width <= c.pixels_per_line,
        256 <= c.height,
        0 <= k <= 8,
        32 * k < c.width,
        0 <= j < line_len(128, 128, 0, 32 * k),
        !line_points(128, 128, 32 * k, 0).contains(line_point(128, 128, 0, 32 * k, j)),
        !line_points(128, 128, 256, 32 * k).contains(line_point(128, 128, 0, 32 * k, j)),
        !line_points(128, 128, 32 * k, 256).contains(line_point(128, 128, 0, 32 * k, j)),
        forall|k2: int| k < k2 < 9 ==> !#[trigger] on_star_rays(k2, line_point(128, 128, 0, 32 * k, j)),
    ensures
        demo_scene(c).pixel(line_point(128, 128, 0, 32 * k, j).0, line_point(128, 128, 0, 32 * k, j).1)
            == 0xffff00,
{
    let p = line_point(128, 128, 0, 32 * k, j);
    let i = 32 * k;
    lemma_before_star_wf(c);
    let g = scene_grid(scene_diagonal(scene_fills(c), 256), 8);
    lemma_star_wf(g, k);
    lemma_yellow_ray_drawable(c, k);
    assert(drawable(c, p));
    let c0 = scene_star(g, k);
    lemma_draw_line_result(c0, 0xffff00, 128, 128, 0, i);
    let c1 = line_effect(c0, 0xffff00, 128, 128, 0, i).0;
    assert(c1.pixel(p.0, p.1) == 0xffff00);
    lemma_draw_line_result(c1, 0x00ffff, 128, 128, i, 0);
    lemma_draw_line_keeps(c1, 0x00ffff, 128, 128, i, 0, p);
    let c2 = line_effect(c1, 0x00ffff, 128, 128, i, 0).0;
    lemma_draw_line_result(c2, 0xff00ff, 128, 128, 256, i);
    lemma_draw_line_keeps(c2, 0xff00ff, 128, 128, 256, i, p);
    let c3 = line_effect(c2, 0xff00ff, 128, 128, 256, i).0;
    lemma_draw_line_keeps(c3, 0xffffff, 128, 128, i, 256, p);
    assert(scene_star(g, k + 1).pixel(p.0, p.1) == 0xffff00);
    lemma_star_keeps(g, k + 1, 9, p);
}

} // verus!
