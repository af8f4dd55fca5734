use bkrbk::compositor::Canvas;
use bkrbk::compositor::fill_palette;
use bkrbk::compositor::merge_frame;
use bkrbk::error::PlaybackError;
use bkrbk::frame::Frame;

fn small_frame(buffer: Vec<u8>, width: u16, height: u16, top: u16, left: u16) -> Frame {
    Frame { width, height, top, left, delay: 1, buffer, palette: Vec::new() }
}

#[test]
fn palette_three_colors_then_default() {
    let raw = vec![1, 2, 3, 10, 20, 30, 255, 0, 0];
    let pal = fill_palette(&raw, 0xABCDEF);
    assert_eq!(pal.len(), 256);
    assert_eq!(pal[0], 0x010203);
    assert_eq!(pal[1], 0x0A141E);
    assert_eq!(pal[2], 0xFF0000);
    for i in 3..256 {
        assert_eq!(pal[i], 0xABCDEF);
    }
}

#[test]
fn palette_empty_is_all_default() {
    let raw = Vec::new();
    let pal = fill_palette(&raw, 0x112233);
    assert_eq!(pal.len(), 256);
    for i in 0..256 {
        assert_eq!(pal[i], 0x112233);
    }
}

#[test]
fn first_frame_writes_every_pixel() {
    let mut canvas = Canvas::new(2, 2, 0x111111);
    let frame = small_frame(vec![0, 1, 1, 0], 2, 2, 0, 0);
    let pal = fill_palette(&vec![1, 2, 3, 255, 0, 0], 0xFFFFFF);
    let r = merge_frame(&mut canvas, &frame, &pal, true);
    assert_eq!(r, Ok(()));
    // index 0 is written too on the first frame
    assert_eq!(canvas.buffer, vec![0x010203, 0xFF0000, 0xFF0000, 0x010203]);
}

#[test]
fn later_frame_preserves_transparent_pixels() {
    let mut canvas = Canvas::new(2, 2, 0x111111);
    let frame = small_frame(vec![0, 1, 1, 0], 2, 2, 0, 0);
    let pal = fill_palette(&vec![1, 2, 3, 255, 0, 0], 0xFFFFFF);
    let r = merge_frame(&mut canvas, &frame, &pal, false);
    assert_eq!(r, Ok(()));
    // index 0 pixels keep the old canvas value, the rest are overwritten
    assert_eq!(canvas.buffer, vec![0x111111, 0xFF0000, 0xFF0000, 0x111111]);
}

#[test]
fn merge_respects_offsets() {
    let mut canvas = Canvas::new(3, 3, 0);
    let frame = small_frame(vec![1], 1, 1, 1, 1);
    let pal = fill_palette(&vec![0, 0, 0, 0, 255, 0], 0xFFFFFF);
    let r = merge_frame(&mut canvas, &frame, &pal, false);
    assert_eq!(r, Ok(()));
    for i in 0..9 {
        assert_eq!(canvas.buffer[i], if i == 4 { 0x00FF00 } else { 0 });
    }
}

#[test]
fn merge_rejects_out_of_bounds_frame() {
    let mut canvas = Canvas::new(3, 3, 7);
    let frame = small_frame(vec![1, 1, 1, 1], 2, 2, 0, 2);
    let pal = fill_palette(&Vec::new(), 0xFFFFFF);
    let r = merge_frame(&mut canvas, &frame, &pal, true);
    assert_eq!(r, Err(PlaybackError::CompositeBoundsViolation));
    // the canvas is untouched
    assert_eq!(canvas.buffer, vec![7; 9]);
}

#[test]
fn merge_rejects_unresolvable_palette_index() {
    let mut canvas = Canvas::new(1, 1, 7);
    let frame = small_frame(vec![5], 1, 1, 0, 0);
    let short_palette: Vec<u32> = vec![0, 0];
    let r = merge_frame(&mut canvas, &frame, &short_palette, true);
    assert_eq!(r, Err(PlaybackError::PaletteIndexOutOfRange));
    assert_eq!(canvas.buffer, vec![7]);
}

#[test]
fn canvas_new_fills() {
    let canvas = Canvas::new(4, 2, 0xBEEF);
    assert_eq!(canvas.width, 4);
    assert_eq!(canvas.height, 2);
    assert_eq!(canvas.buffer, vec![0xBEEF; 8]);
}
