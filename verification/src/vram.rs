use vstd::prelude::*;

use crate::bitmap::{Bitmap, Canvas};

verus! {

/// The status code of a firmware call that succeeded.
pub const EFI_SUCCESS: u64 = 0;

/// Why the frame buffer could not be set up.
#[derive(PartialEq, Eq, Structural, Debug, Clone, Copy)]
pub enum GraphicsError {
    /// The firmware does not provide a graphics output protocol (UEFI's `NOT_FOUND`).
    NotFound,
}

/// What the graphics output protocol reports of its current mode.
#[derive(Clone, Copy)]
pub struct GraphicsMode {
    pub frame_buffer_base: usize,
    pub frame_buffer_size: usize,
    pub horizontal_resolution: u32,
    pub vertical_resolution: u32,
    pub pixels_per_scan_line: u32,
}

/// Takes the outcome of asking the firmware for its graphics output protocol: the status it
/// returned and the mode of the protocol it handed out. A status other than success means
/// the protocol could not be found.
pub fn locate_graphic_protocol(status: u64, mode: GraphicsMode) -> (r: Result<
    GraphicsMode,
    GraphicsError,
>)
    ensures
        status == EFI_SUCCESS ==> r == Ok::<GraphicsMode, GraphicsError>(mode),
        status != EFI_SUCCESS ==> r == Err::<GraphicsMode, GraphicsError>(GraphicsError::NotFound),
{
    if status != EFI_SUCCESS {
        return Err(GraphicsError::NotFound);
    }
    Ok(mode)
}

/// A frame buffer: the geometry the firmware reports and the pixels, `pixels_per_line` to a
/// row.
pub struct VramBufferInfo {
    pub buf: Vec<u32>,
    pub width: i64,
    pub height: i64,
    pub pixels_per_line: i64,
}

impl Bitmap for VramBufferInfo {
    open spec fn canvas(&self) -> Canvas {
        Canvas {
            width: self.width as int,
            height: self.height as int,
            pixels_per_line: self.pixels_per_line as int,
            pixels: self.buf@,
        }
    }

    fn bytes_per_pixel(&self) -> (r: i64)
        ensures
            r == 4,
    {
        4
    }

    fn pixels_per_line(&self) -> (r: i64) {
        self.pixels_per_line
    }

    fn width(&self) -> (r: i64) {
        self.width
    }

    fn height(&self) -> (r: i64) {
        self.height
    }

    fn buf_mut(&mut self) -> (r: &mut Vec<u32>) {
        &mut self.buf
    }
}

/// The canvas of the frame buffer of `mode` holding `pixels`.
pub open spec fn mode_canvas(mode: GraphicsMode, pixels: Seq<u32>) -> Canvas {
    Canvas {
        width: mode.horizontal_resolution as int,
        height: mode.vertical_resolution as int,
        pixels_per_line: mode.pixels_per_scan_line as int,
        pixels,
    }
}

/// Sets up the frame buffer of the graphics output protocol over `frame`, the pixels it
/// holds (`pixels_per_scan_line` to a row, `vertical_resolution` rows), or reports that the
/// protocol could not be located.
pub fn init_vram(status: u64, mode: GraphicsMode, frame: Vec<u32>) -> (r: Result<
    VramBufferInfo,
    GraphicsError,
>)
    requires
        status == EFI_SUCCESS ==> frame@.len() == mode.pixels_per_scan_line
            * mode.vertical_resolution,
    ensures
        status != EFI_SUCCESS ==> r == Err::<VramBufferInfo, GraphicsError>(GraphicsError::NotFound),
        status == EFI_SUCCESS ==> (r matches Ok(v) && v.canvas() == mode_canvas(mode, frame@)
            && v.canvas().wf()),
{
    let gp = match locate_graphic_protocol(status, mode) {
        Ok(gp) => gp,
        Err(e) => return Err(e),
    };
    Ok(
        VramBufferInfo {
            buf: frame,
            width: gp.horizontal_resolution as i64,
            height: gp.vertical_resolution as i64,
            pixels_per_line: gp.pixels_per_scan_line as i64,
        },
    )
}

} // verus!
