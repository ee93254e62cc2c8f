//! Drawing on a UEFI frame buffer: the bitmap model and its range checks, points, filled
//! rectangles and lines, the set-up of the frame buffer from the graphics output protocol,
//! and the test picture the application shows.

pub mod bitmap;
pub mod slope;
pub mod draw;
pub mod line;
pub mod vram;
pub mod scene;
pub mod laws;
