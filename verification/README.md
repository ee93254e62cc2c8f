# wasabi

A small UEFI graphics library, verified with Verus, and the application around it.

- `src/bitmap.rs`: the mathematical picture of a bitmap (`Canvas`) and the `Bitmap` trait
  with its range checks and pixel access.
- `src/slope.rs`: `calc_slope_point`, the rounding that places the points of a line.
- `src/draw.rs`: `draw_point`, `unchecked_draw_point`, `fill_rect`.
- `src/line.rs`: `draw_line` and the points it draws.
- `src/vram.rs`: the frame buffer (`VramBufferInfo`) set up over the pixels it holds,
  from the graphics output protocol (`locate_graphic_protocol`, `init_vram`).
- `src/scene.rs`: `efi_main`, which sets up the frame buffer and draws the test picture.
- `src/laws.rs`: what the drawing operations change and what they leave, and the shape of
  a line.
- `app/main.rs`: the firmware side: the protocol lookup, the UEFI status of an error,
  reading the frame buffer, copying the picture back to it, halting.
