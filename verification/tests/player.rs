use bkrbk::error::PlaybackError;
use bkrbk::frame::Frame;
use bkrbk::frame::get_image_size;
use bkrbk::player::Player;

fn red_palette() -> Vec<u8> {
    // index 0 is the background triple, index 1 is solid red
    vec![1, 2, 3, 255, 0, 0]
}

#[test]
fn image_size_is_bounding_box() {
    let frames = vec![
        Frame {
            width: 2,
            height: 1,
            top: 0,
            left: 3,
            delay: 1,
            buffer: vec![0, 0],
            palette: Vec::new(),
        },
        Frame {
            width: 1,
            height: 4,
            top: 2,
            left: 0,
            delay: 1,
            buffer: vec![0, 0, 0, 0],
            palette: Vec::new(),
        },
    ];
    assert_eq!(get_image_size(&frames), Ok((5, 6)));
}

#[test]
fn image_size_of_nothing_fails() {
    let frames: Vec<Frame> = Vec::new();
    assert_eq!(get_image_size(&frames), Err(PlaybackError::DecodeFailure));
}

#[test]
fn player_rejects_empty_sequence() {
    let r = Player::new(Vec::new(), 0xFFFFFF, 0);
    assert!(matches!(r, Err(PlaybackError::DecodeFailure)));
}

#[test]
fn player_rejects_short_pixel_buffer() {
    let frames = vec![Frame {
        width: 2,
        height: 2,
        top: 0,
        left: 0,
        delay: 1,
        buffer: vec![0, 0, 0],
        palette: red_palette(),
    }];
    let r = Player::new(frames, 0xFFFFFF, 0);
    assert!(matches!(r, Err(PlaybackError::DecodeFailure)));
}

#[test]
fn player_rejects_ragged_palette() {
    let frames = vec![Frame {
        width: 1,
        height: 1,
        top: 0,
        left: 0,
        delay: 1,
        buffer: vec![0],
        palette: vec![1, 2],
    }];
    let r = Player::new(frames, 0xFFFFFF, 0);
    assert!(matches!(r, Err(PlaybackError::DecodeFailure)));
}

#[test]
fn transparency_preserves_first_frame() {
    // frame 0: fully opaque 2x2 solid red; frame 1: a 1x1 transparent
    // patch at (0, 0) — after both merges the red pixel is untouched
    let frames = vec![
        Frame {
            width: 2,
            height: 2,
            top: 0,
            left: 0,
            delay: 1,
            buffer: vec![1, 1, 1, 1],
            palette: red_palette(),
        },
        Frame {
            width: 1,
            height: 1,
            top: 0,
            left: 0,
            delay: 1,
            buffer: vec![0],
            palette: red_palette(),
        },
    ];
    let mut p = Player::new(frames, 0xFFFFFF, 0).unwrap();
    assert_eq!(p.canvas.width, 2);
    assert_eq!(p.canvas.height, 2);
    assert_eq!(p.canvas.buffer, vec![0xFFFFFF; 4]);

    // first tick shows frame 0 and schedules a 10 ms delay
    let wait = p.tick(0).unwrap();
    assert_eq!(wait, 10);
    assert_eq!(p.canvas.buffer, vec![0xFF0000; 4]);

    // second tick shows the transparent patch: nothing changes
    p.tick(10).unwrap();
    assert_eq!(p.canvas.buffer, vec![0xFF0000; 4]);

    // the cycle wraps: frame 0 is first again and repaints
    p.tick(20).unwrap();
    assert_eq!(p.canvas.buffer, vec![0xFF0000; 4]);
}

#[test]
fn tick_reports_missing_frame() {
    let frames = vec![
        Frame {
            width: 1,
            height: 1,
            top: 0,
            left: 0,
            delay: 1,
            buffer: vec![1],
            palette: red_palette(),
        },
        Frame {
            width: 1,
            height: 1,
            top: 0,
            left: 0,
            delay: 1,
            buffer: vec![0],
            palette: red_palette(),
        },
    ];
    let mut p = Player::new(frames, 0xFFFFFF, 0).unwrap();
    // the frame list shrinks under the sequencer's feet
    p.frames.pop();
    assert_eq!(p.tick(0), Ok(10));
    assert_eq!(p.tick(10), Err(PlaybackError::FrameIndexOutOfRange));
}

#[test]
fn first_frame_fill_uses_palette_for_index_zero() {
    let frames = vec![Frame {
        width: 2,
        height: 1,
        top: 0,
        left: 0,
        delay: 2,
        buffer: vec![0, 1],
        palette: red_palette(),
    }];
    let mut p = Player::new(frames, 0xFFFFFF, 5).unwrap();
    let wait = p.tick(5).unwrap();
    // delay 2 hundredths of a second is a 20 ms interval
    assert_eq!(wait, 20);
    // index 0 resolves through the palette on the first frame
    assert_eq!(p.canvas.buffer, vec![0x010203, 0xFF0000]);
}
