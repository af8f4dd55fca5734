use bkrbk::color::Color;

#[test]
fn pack_rgb() {
    assert_eq!(Color::as_u32(0xFF, 0x00, 0x00), 0xFF0000);
    assert_eq!(Color::as_u32(0x12, 0x34, 0x56), 0x123456);
    assert_eq!(Color::as_u32(0, 0, 0), 0);
}

#[test]
fn gray_from_byte() {
    assert_eq!(Color::u8_to_u32(0x07), 0x070707);
    assert_eq!(Color::u8_to_u32(0xFF), 0xFFFFFF);
}

#[test]
fn unpack_channels() {
    let c = Color::new(0x123456);
    assert_eq!(c.red, 0x12);
    assert_eq!(c.green, 0x34);
    assert_eq!(c.blue, 0x56);
}

#[test]
fn unpack_ignores_high_byte() {
    let c = Color::new(0xFF123456);
    assert_eq!(c.red, 0x12);
    assert_eq!(c.green, 0x34);
    assert_eq!(c.blue, 0x56);
}

#[test]
fn pack_orders() {
    let c = Color::new(0x123456);
    assert_eq!(c.to_rgb_u32(), 0x123456);
    assert_eq!(c.to_bgr_u32(), 0x563412);
}

#[test]
fn blend_alpha_zero_keeps_background() {
    let c = Color::new(0x0A141E);
    assert_eq!(c.alpha_blend(0, 0xFFFFFF), 0x0A141E);
    assert_eq!(c.alpha_blend(0, 0x000000), 0x0A141E);
}

#[test]
fn blend_alpha_full_takes_overlay() {
    let c = Color::new(0x0A141E);
    assert_eq!(c.alpha_blend(255, 0xFFFFFF), 0xFFFFFF);
    assert_eq!(c.alpha_blend(255, 0x123456), 0x123456);
    // only the low 24 bits of the overlay are a color
    assert_eq!(c.alpha_blend(255, 0xFF123456), 0x123456);
}

#[test]
fn blend_alpha_half_near_midpoint() {
    // black under red at half opacity: (0 * 127 + 255 * 128) / 255 == 128,
    // one above the truncated midpoint 127
    let black = Color::new(0x000000);
    assert_eq!(black.alpha_blend(128, 0xFF0000), 0x800000);
    // channel-wise check against the midpoint, one unit of slack
    let bg = Color::new(0x102030);
    let blended = Color::new(bg.alpha_blend(128, 0x405060));
    let mid = Color::new(0x283848);
    assert!((blended.red as i32 - mid.red as i32).abs() <= 1);
    assert!((blended.green as i32 - mid.green as i32).abs() <= 1);
    assert!((blended.blue as i32 - mid.blue as i32).abs() <= 1);
}
