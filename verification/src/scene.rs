use vstd::prelude::*;

use crate::bitmap::{Bitmap, Canvas};
use crate::draw::{draw_point, fill_rect, fill_effect, fill_checks, point_effect};
use crate::line::{draw_line, line_effect, line_defined, abs_diff};
use crate::vram::{init_vram, mode_canvas, GraphicsMode, VramBufferInfo, EFI_SUCCESS};

verus! {

/// Side of a grid cell of the test picture.
pub const GRID_SIZE: i64 = 32;

/// Side of the square the grid and the star are drawn in.
pub const RECT_SIZE: i64 = 256;

/// The four filled rectangles of the test picture: the whole screen black, then a red, a
/// green and a blue square.
pub open spec fn scene_fills(c: Canvas) -> Canvas {
    let c1 = fill_effect(c, 0x000000, 0, 0, c.width, c.height);
    let c2 = fill_effect(c1, 0xff0000, 32, 32, 32, 32);
    let c3 = fill_effect(c2, 0x00ff00, 64, 64, 64, 64);
    fill_effect(c3, 0x0000ff, 128, 128, 128, 128)
}

/// The first `n` points of the grey diagonal: point `i` at `(i, i)` in grey level `i`.
pub open spec fn scene_diagonal(c: Canvas, n: int) -> Canvas
    decreases n,
{
    if n <= 0 {
        c
    } else {
        point_effect(
            scene_diagonal(c, n - 1),
            (0x010101 * (n - 1)) as u32,
            n - 1,
            n - 1,
        )
    }
}

/// The first `k` pairs of red grid lines, at `8 + 32 * j`: a horizontal one, then a vertical
/// one.
pub open spec fn scene_grid(c: Canvas, k: int) -> Canvas
    decreases k,
{
    if k <= 0 {
        c
    } else {
        let i = 8 + 32 * (k - 1);
        let h = line_effect(scene_grid(c, k - 1), 0xff0000, 0, i, 256, i).0;
        line_effect(h, 0xff0000, i, 0, i, 256).0
    }
}

/// The first `k` groups of rays of the star from the centre `(128, 128)` to the four edges of
/// the square, at `32 * j` along each edge.
pub open spec fn scene_star(c: Canvas, k: int) -> Canvas
    decreases k,
{
    if k <= 0 {
        c
    } else {
        let i = 32 * (k - 1);
        let c1 = line_effect(scene_star(c, k - 1), 0xffff00, 128, 128, 0, i).0;
        let c2 = line_effect(c1, 0x00ffff, 128, 128, i, 0).0;
        let c3 = line_effect(c2, 0xff00ff, 128, 128, 256, i).0;
        line_effect(c3, 0xffffff, 128, 128, i, 256).0
    }
}

/// The whole test picture drawn over `c`.
pub open spec fn demo_scene(c: Canvas) -> Canvas {
    scene_star(scene_grid(scene_diagonal(scene_fills(c), 256), 8), 9)
}

/// The geometry on which every rectangle of the test picture passes its checks.
pub open spec fn scene_fits(mode: GraphicsMode) -> bool {
    &&& 256 <= mode.horizontal_resolution
    &&& mode.horizontal_resolution <= mode.pixels_per_scan_line
    &&& 256 <= mode.vertical_resolution
}

/// Whether the test picture can be drawn on a screen of this mode.
pub fn fits_test_picture(mode: &GraphicsMode) -> (r: bool)
    ensures
        r == scene_fits(*mode),
{
    256 <= mode.horizontal_resolution && mode.horizontal_resolution <= mode.pixels_per_scan_line
        && 256 <= mode.vertical_resolution
}

proof fn lemma_small_line(c: Canvas, x0: int, y0: int, x1: int, y1: int)
    requires
        0 <= x0 <= 256,
        0 <= y0 <= 256,
        0 <= x1 <= 256,
        0 <= y1 <= 256,
    ensures
        line_defined(c, x0, y0, x1, y1),
{
    let dx = abs_diff(x0, x1);
    let dy = abs_diff(y0, y1);
    assert(2 * dy * (dx - 1) + dx <= 2 * 256 * 256 + 256) by (nonlinear_arith)
        requires
            0 <= dx <= 256,
            0 <= dy <= 256,
    ;
    assert(2 * dx * (dy - 1) + dy <= 2 * 256 * 256 + 256) by (nonlinear_arith)
        requires
            0 <= dx <= 256,
            0 <= dy <= 256,
    ;
}

/// Sets up the frame buffer the firmware reports over `frame`, the pixels it holds, and draws
/// the test picture on it: four
/// filled squares, a grey diagonal, a red grid and a star of coloured rays.
pub fn efi_main(status: u64, mode: GraphicsMode, frame: Vec<u32>) -> (r: VramBufferInfo)
    requires
        status == EFI_SUCCESS,
        scene_fits(mode),
        frame@.len() == mode.pixels_per_scan_line * mode.vertical_resolution,
    ensures
        r.canvas() == demo_scene(mode_canvas(mode, frame@)),
        r.canvas().wf(),
{
    let ghost c0 = mode_canvas(mode, frame@);
    let mut vram = init_vram(status, mode, frame).unwrap();
    let vw = vram.width;
    let vh = vram.height;
    let r1 = fill_rect(&mut vram, 0x000000, 0, 0, vw, vh);
    let r2 = fill_rect(&mut vram, 0xff0000, 32, 32, 32, 32);
    let r3 = fill_rect(&mut vram, 0x00ff00, 64, 64, 64, 64);
    let r4 = fill_rect(&mut vram, 0x0000ff, 128, 128, 128, 128);
    assert(vram.canvas() == scene_fills(c0));
    let mut i: i64 = 0;
    while i < 256
        invariant
            0 <= i <= 256,
            c0 == mode_canvas(mode, frame@),
            scene_fits(mode),
            vram.canvas().same_geometry(c0),
            vram.canvas().wf(),
            vram.canvas() == scene_diagonal(scene_fills(c0), i as int),
        decreases 256 - i,
    {
        let _ = draw_point(&mut vram, 0x010101 * i as u32, i, i);
        i = i + 1;
    }
    let grid_size: i64 = GRID_SIZE;
    let rect_size: i64 = grid_size * 8;
    let ghost after_diagonal = vram.canvas();
    let mut i: i64 = 8;
    let ghost mut k: int = 0;
    while i <= rect_size
        invariant
            0 <= k <= 8,
            i == 8 + 32 * k,
            grid_size == 32,
            rect_size == 256,
            vram.canvas().same_geometry(c0),
            vram.canvas().wf(),
            vram.canvas() == scene_grid(after_diagonal, k),
        decreases 300 - i,
    {
        proof {
            lemma_small_line(vram.canvas(), 0, i as int, 256, i as int);
        }
        let _ = draw_line(&mut vram, 0xff0000, 0, i, rect_size, i);
        proof {
            lemma_small_line(vram.canvas(), i as int, 0, i as int, 256);
        }
        let _ = draw_line(&mut vram, 0xff0000, i, 0, i, rect_size);
        i = i + grid_size;
        proof {
            k = k + 1;
        }
    }
    let cx = rect_size / 2;
    let cy = rect_size / 2;
    let ghost after_grid = vram.canvas();
    let mut i: i64 = 0;
    let ghost mut k: int = 0;
    while i <= rect_size
        invariant
            0 <= k <= 9,
            i == 32 * k,
            grid_size == 32,
            rect_size == 256,
            cx == 128,
            cy == 128,
            vram.canvas().same_geometry(c0),
            vram.canvas().wf(),
            vram.canvas() == scene_star(after_grid, k),
        decreases 300 - i,
    {
        proof {
            lemma_small_line(vram.canvas(), 128, 128, 0, i as int);
        }
        let _ = draw_line(&mut vram, 0xffff00, cx, cy, 0, i);
        proof {
            lemma_small_line(vram.canvas(), 128, 128, i as int, 0);
        }
        let _ = draw_line(&mut vram, 0x00ffff, cx, cy, i, 0);
        proof {
            lemma_small_line(vram.canvas(), 128, 128, 256, i as int);
        }
        let _ = draw_line(&mut vram, 0xff00ff, cx, cy, rect_size, i);
        proof {
            lemma_small_line(vram.canvas(), 128, 128, i as int, 256);
        }
        let _ = draw_line(&mut vram, 0xffffff, cx, cy, i, rect_size);
        i = i + grid_size;
        proof {
            k = k + 1;
        }
    }
    vram
}

} // verus!
