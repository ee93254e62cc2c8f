use vstd::prelude::*;

verus! {

/// The mathematical picture of a bitmap: its geometry and its pixels, row after row,
/// `pixels_per_line` pixels to a row.
pub struct Canvas {
    pub width: int,
    pub height: int,
    pub pixels_per_line: int,
    pub pixels: Seq<u32>,
}

impl Canvas {
    /// Geometry that fits the 32-bit fields of the firmware and a pixel store of
    /// exactly `pixels_per_line * height` pixels.
    pub open spec fn wf(self) -> bool {
        &&& 0 <= self.width <= u32::MAX
        &&& 0 <= self.height <= u32::MAX
        &&& 0 <= self.pixels_per_line <= u32::MAX
        &&& self.pixels.len() == self.pixels_per_line * self.height
    }

    /// The columns that can be drawn: those inside both the visible width and a scan line.
    pub open spec fn x_limit(self) -> int {
        if self.width < self.pixels_per_line { self.width } else { self.pixels_per_line }
    }

    pub open spec fn in_x_range(self, x: int) -> bool {
        0 <= x < self.x_limit()
    }

    pub open spec fn in_y_range(self, y: int) -> bool {
        0 <= y < self.height
    }

    pub open spec fn contains(self, x: int, y: int) -> bool {
        self.in_x_range(x) && self.in_y_range(y)
    }

    /// Position `(x, y)` addresses a pixel of the store: inside a scan line (the padding past
    /// the visible width included) and above the last row.
    pub open spec fn in_store(self, x: int, y: int) -> bool {
        0 <= x < self.pixels_per_line && 0 <= y < self.height
    }

    /// Position of pixel `(x, y)` in the pixel store.
    pub open spec fn index(self, x: int, y: int) -> int {
        y * self.pixels_per_line + x
    }

    pub open spec fn pixel(self, x: int, y: int) -> u32 {
        self.pixels[self.index(x, y)]
    }

    /// The same geometry over other pixels.
    pub open spec fn with_pixels(self, pixels: Seq<u32>) -> Canvas {
        Canvas { pixels, ..self }
    }

    /// The canvas with pixel `(x, y)` set to `color`.
    pub open spec fn set(self, x: int, y: int, color: u32) -> Canvas {
        self.with_pixels(self.pixels.update(self.index(x, y), color))
    }

    pub open spec fn same_geometry(self, other: Canvas) -> bool {
        &&& self.width == other.width
        &&& self.height == other.height
        &&& self.pixels_per_line == other.pixels_per_line
    }
}

pub proof fn lemma_index_in_bounds(c: Canvas, x: int, y: int)
    requires
        c.wf(),
        0 <= x < c.pixels_per_line,
        0 <= y < c.height,
    ensures
        0 <= c.index(x, y) < c.pixels.len(),
{
    assert(0 <= y * c.pixels_per_line) by (nonlinear_arith)
        requires 0 <= y, 0 <= c.pixels_per_line;
    assert(y * c.pixels_per_line + c.pixels_per_line <= c.height * c.pixels_per_line)
        by (nonlinear_arith)
        requires y + 1 <= c.height, 0 <= c.pixels_per_line;
    assert(c.height * c.pixels_per_line == c.pixels_per_line * c.height) by (nonlinear_arith);
}

/// Setting a pixel of the bitmap keeps its geometry and its well-formedness.
pub proof fn lemma_set_wf(c: Canvas, x: int, y: int, color: u32)
    requires
        c.wf(),
        c.in_store(x, y),
    ensures
        c.set(x, y, color).wf(),
        c.set(x, y, color).same_geometry(c),
        c.set(x, y, color).pixel(x, y) == color,
{
    lemma_index_in_bounds(c, x, y);
}

/// A surface that pixels can be drawn on.
pub trait Bitmap {
    spec fn canvas(&self) -> Canvas;

    fn bytes_per_pixel(&self) -> i64;

    fn pixels_per_line(&self) -> (r: i64)
        ensures
            r == self.canvas().pixels_per_line,
    ;

    fn width(&self) -> (r: i64)
        ensures
            r == self.canvas().width,
    ;

    fn height(&self) -> (r: i64)
        ensures
            r == self.canvas().height,
    ;

    fn buf_mut(&mut self) -> (r: &mut Vec<u32>)
        ensures
            r@ == old(self).canvas().pixels,
            final(self).canvas() == old(self).canvas().with_pixels(final(r)@),
    ;

    fn unchecked_pixel_at_mut(&mut self, x: i64, y: i64) -> (r: &mut u32)
        requires
            old(self).canvas().wf(),
            old(self).canvas().in_store(x as int, y as int),
        ensures
            *r == old(self).canvas().pixel(x as int, y as int),
            final(self).canvas() == old(self).canvas().set(x as int, y as int, *final(r)),
    {
        let ghost c = self.canvas();
        proof { lemma_index_in_bounds(c, x as int, y as int); }
        let ppl = self.pixels_per_line();
        let buf = self.buf_mut();
        let row: usize = y as usize;
        let col: usize = x as usize;
        let line: usize = ppl as usize;
        assert(row * line + col < buf.len());
        let idx: usize = row * line + col;
        &mut buf[idx]
    }

    fn pixel_at_mut(&mut self, x: i64, y: i64) -> (r: Option<&mut u32>)
        requires
            old(self).canvas().wf(),
        ensures
            old(self).canvas().contains(x as int, y as int) ==> (r matches Some(p) && *p
                == old(self).canvas().pixel(x as int, y as int) && final(self).canvas()
                == old(self).canvas().set(x as int, y as int, *final(p))),
            !old(self).canvas().contains(x as int, y as int) ==> (r is None && final(self).canvas()
                == old(self).canvas()),
    {
        if self.is_in_x_range(x) && self.is_in_y_range(y) {
            Some(self.unchecked_pixel_at_mut(x, y))
        } else {
            None
        }
    }

    fn is_in_x_range(&self, px: i64) -> (r: bool)
        ensures
            r == self.canvas().in_x_range(px as int),
    {
        let w = self.width();
        let ppl = self.pixels_per_line();
        0 <= px && px < if w < ppl { w } else { ppl }
    }

    fn is_in_y_range(&self, py: i64) -> (r: bool)
        ensures
            r == self.canvas().in_y_range(py as int),
    {
        0 <= py && py < self.height()
    }
}

} // verus!
