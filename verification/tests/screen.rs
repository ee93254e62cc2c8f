use wasabi::bitmap::Bitmap;
use wasabi::scene::efi_main;
use wasabi::vram::{init_vram, locate_graphic_protocol, GraphicsError, GraphicsMode, EFI_SUCCESS};

fn mode(width: u32, height: u32, pixels_per_scan_line: u32) -> GraphicsMode {
    GraphicsMode {
        frame_buffer_base: 0x8000_0000,
        frame_buffer_size: (pixels_per_scan_line * height * 4) as usize,
        horizontal_resolution: width,
        vertical_resolution: height,
        pixels_per_scan_line,
    }
}

#[test]
fn locate_passes_the_mode_on_success() {
    let m = locate_graphic_protocol(EFI_SUCCESS, mode(3, 2, 4)).unwrap();
    assert_eq!(m.frame_buffer_base, 0x8000_0000);
    assert_eq!(m.frame_buffer_size, 32);
    assert_eq!(m.horizontal_resolution, 3);
    assert_eq!(m.vertical_resolution, 2);
    assert_eq!(m.pixels_per_scan_line, 4);
}

#[test]
fn locate_failure_is_not_found() {
    let r = locate_graphic_protocol(14, mode(3, 2, 4));
    assert_eq!(r.err(), Some(GraphicsError::NotFound));
}

#[test]
fn init_vram_failure_is_not_found() {
    let r = init_vram(0x8000_0000_0000_000e, mode(3, 2, 4), Vec::new());
    assert_eq!(r.err(), Some(GraphicsError::NotFound));
}

#[test]
fn init_vram_keeps_the_frame_contents() {
    let frame: Vec<u32> = (0..8).collect();
    let v = init_vram(EFI_SUCCESS, mode(3, 2, 4), frame.clone()).unwrap();
    assert_eq!(v.width(), 3);
    assert_eq!(v.height(), 2);
    assert_eq!(v.pixels_per_line(), 4);
    assert_eq!(v.buf, frame);
}

#[test]
fn init_vram_of_empty_mode() {
    let v = init_vram(EFI_SUCCESS, mode(0, 0, 0), Vec::new()).unwrap();
    assert!(v.buf.is_empty());
}

#[test]
fn efi_main_draws_the_test_picture() {
    let v = efi_main(EFI_SUCCESS, mode(300, 280, 320), vec![0; 320 * 280]);
    let at = |x: usize, y: usize| v.buf[y * 320 + x];
    assert_eq!(v.buf.len(), 320 * 280);
    assert_eq!(at(33, 33), 0x00ffff);
    assert_eq!(at(40, 40), 0x00ffff);
    assert_eq!(at(50, 45), 0xff0000);
    assert_eq!(at(100, 70), 0x00ff00);
    assert_eq!(at(200, 150), 0xff0000);
    assert_eq!(at(255, 255), 0xffffff);
    assert_eq!(at(128, 128), 0xffffff);
    assert_eq!(at(10, 200), 0xff0000);
    assert_eq!(at(299, 279), 0);
    assert_eq!(at(310, 5), 0);
    assert_eq!(at(128, 0), 0);
    assert_eq!(at(130, 129), 0xff00ff);
    assert_eq!(at(250, 8), 0xff0000);
    assert_eq!(at(257, 8), 0);
    assert_eq!(at(20, 8), 0xff0000);
    assert_eq!(v.buf.iter().filter(|p| **p == 0xff0000).count(), 4710);
    assert_eq!(v.buf.iter().filter(|p| **p == 0xffffff).count(), 1005);
    assert_eq!(v.buf.iter().filter(|p| **p == 0).count(), 63141);
}

#[test]
fn efi_main_on_smallest_screen() {
    let v = efi_main(EFI_SUCCESS, mode(256, 256, 256), vec![0; 256 * 256]);
    let at = |x: usize, y: usize| v.buf[y * 256 + x];
    assert_eq!(at(8, 8), 0x00ffff);
    assert_eq!(at(250, 8), 0);
    assert_eq!(at(255, 200), 0x0000ff);
    assert_eq!(at(128, 255), 0x0000ff);
    assert_eq!(at(0, 0), 0);
    assert_eq!(at(100, 100), 0x00ffff);
}

#[test]
fn efi_main_leaves_the_padding_as_it_was() {
    let v = efi_main(EFI_SUCCESS, mode(300, 280, 320), vec![0x123456; 320 * 280]);
    let at = |x: usize, y: usize| v.buf[y * 320 + x];
    assert_eq!(at(310, 5), 0x123456);
    assert_eq!(at(300, 279), 0x123456);
    assert_eq!(at(299, 279), 0);
    assert_eq!(at(128, 128), 0xffffff);
    assert_eq!(v.buf.iter().filter(|p| **p == 0x123456).count(), 20 * 280);
}
