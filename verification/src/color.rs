//! 24-bit RGB colors: packing, unpacking and linear alpha blending.

use vstd::prelude::*;

verus! {

/// A 24-bit color, one byte per channel.
#[derive(Debug, Clone, Copy, PartialEq, Eq, Structural)]
pub struct Color {
    /// Red component.
    pub red: u8,
    /// Green component.
    pub green: u8,
    /// Blue component.
    pub blue: u8,
}

/// The packed form of an RGB triple: `0x00RRGGBB`.
pub open spec fn spec_pack_rgb(r: int, g: int, b: int) -> int {
    r * 0x1_0000 + g * 0x100 + b
}

/// Red channel of a packed `0x00RRGGBB` word.
pub open spec fn spec_red_of(color: u32) -> int {
    (color as int) / 0x1_0000 % 0x100
}

/// Green channel of a packed `0x00RRGGBB` word.
pub open spec fn spec_green_of(color: u32) -> int {
    (color as int) / 0x100 % 0x100
}

/// Blue channel of a packed `0x00RRGGBB` word.
pub open spec fn spec_blue_of(color: u32) -> int {
    (color as int) % 0x100
}

/// One channel of a linear alpha blend:
/// `background + (overlay - background) * alpha / 255`, truncated toward
/// zero, written in the equivalent non-negative form
/// `(background * (255 - alpha) + overlay * alpha) / 255`.
pub open spec fn spec_blend_channel(bg: int, alpha: int, overlay: int) -> int {
    (bg * (255 - alpha) + overlay * alpha) / 255
}

/// The packed result of blending `overlay_color` over the background `c`.
pub open spec fn spec_alpha_blend(c: Color, alpha: u8, overlay_color: u32) -> int {
    spec_pack_rgb(
        spec_blend_channel(c.red as int, alpha as int, spec_red_of(overlay_color)),
        spec_blend_channel(c.green as int, alpha as int, spec_green_of(overlay_color)),
        spec_blend_channel(c.blue as int, alpha as int, spec_blue_of(overlay_color)),
    )
}

impl Color {
    /// Unpacks a `0x00RRGGBB` word into its three channels.
    pub fn new(color: u32) -> (c: Color)
        ensures
            c.red == spec_red_of(color),
            c.green == spec_green_of(color),
            c.blue == spec_blue_of(color),
    {
        Color {
            red: (color / 0x1_0000 % 0x100) as u8,
            green: (color / 0x100 % 0x100) as u8,
            blue: (color % 0x100) as u8,
        }
    }

    /// Blends `overlay_color` over this color with the given opacity and
    /// returns the packed result; `alpha == 0` keeps this color,
    /// `alpha == 255` replaces it with the overlay.
    pub fn alpha_blend(&self, alpha: u8, overlay_color: u32) -> (r: u32)
        ensures
            r == spec_alpha_blend(*self, alpha, overlay_color),
    {
        let overlay = Color::new(overlay_color);
        let red = blend_channel(self.red, alpha, overlay.red);
        let green = blend_channel(self.green, alpha, overlay.green);
        let blue = blend_channel(self.blue, alpha, overlay.blue);
        Color::as_u32(red, green, blue)
    }

    /// Packs three channel bytes into a `0x00RRGGBB` word.
    pub fn as_u32(r: u8, g: u8, b: u8) -> (c: u32)
        ensures
            c == spec_pack_rgb(r as int, g as int, b as int),
    {
        (r as u32) * 0x1_0000 + (g as u32) * 0x100 + (b as u32)
    }

    /// Packs a single byte as the gray color with that value in every channel.
    pub fn u8_to_u32(c: u8) -> (r: u32)
        ensures
            r == spec_pack_rgb(c as int, c as int, c as int),
    {
        Color::as_u32(c, c, c)
    }

    /// Packs this color in RGB channel order.
    pub fn to_rgb_u32(&self) -> (r: u32)
        ensures
            r == spec_pack_rgb(self.red as int, self.green as int, self.blue as int),
    {
        Color::as_u32(self.red, self.green, self.blue)
    }

    /// Packs this color in BGR channel order.
    pub fn to_bgr_u32(&self) -> (r: u32)
        ensures
            r == spec_pack_rgb(self.blue as int, self.green as int, self.red as int),
    {
        Color::as_u32(self.blue, self.green, self.red)
    }
}

/// Law: blending with opacity 0 returns the packed background unchanged.
pub proof fn lemma_alpha_blend_zero(c: Color, overlay_color: u32)
    ensures
        spec_alpha_blend(c, 0, overlay_color)
            == spec_pack_rgb(c.red as int, c.green as int, c.blue as int),
{
    vstd::arithmetic::div_mod::lemma_div_multiples_vanish(c.red as int, 255);
    vstd::arithmetic::div_mod::lemma_div_multiples_vanish(c.green as int, 255);
    vstd::arithmetic::div_mod::lemma_div_multiples_vanish(c.blue as int, 255);
}

/// Law: blending with opacity 255 returns exactly the overlay color
/// (its low 24 bits, the part a packed RGB word carries).
pub proof fn lemma_alpha_blend_full(c: Color, overlay_color: u32)
    ensures
        spec_alpha_blend(c, 255, overlay_color) == overlay_color % 0x100_0000,
{
    vstd::arithmetic::div_mod::lemma_div_multiples_vanish(spec_red_of(overlay_color), 255);
    vstd::arithmetic::div_mod::lemma_div_multiples_vanish(spec_green_of(overlay_color), 255);
    vstd::arithmetic::div_mod::lemma_div_multiples_vanish(spec_blue_of(overlay_color), 255);
    lemma_unpack_pack(overlay_color);
}

/// Repacking the three channels of a packed word recovers its low 24 bits.
pub proof fn lemma_unpack_pack(color: u32)
    ensures
        spec_pack_rgb(spec_red_of(color), spec_green_of(color), spec_blue_of(color))
            == color % 0x100_0000,
{
    let x = color as int;
    vstd::arithmetic::div_mod::lemma_mod_breakdown(x, 0x1_0000, 0x100);
    vstd::arithmetic::div_mod::lemma_mod_breakdown(x, 0x100, 0x100);
    vstd::arithmetic::div_mod::lemma_mod_mod(x, 0x100, 0x100);
    assert(x % 0x100_0000 == 0x1_0000 * ((x / 0x1_0000) % 0x100) + x % 0x1_0000);
    assert(x % 0x1_0000 == 0x100 * ((x / 0x100) % 0x100) + x % 0x100);
}

/// Law: blending with opacity 128 lands within one unit of the channel-wise
/// midpoint; truncation keeps the exact value `(127 * bg + 128 * ov) / 255`
/// within a half of `(bg + ov) / 2`, so the integer results differ by at
/// most one.
pub proof fn lemma_alpha_blend_mid_channel(bg: u8, overlay: u8)
    ensures
        spec_blend_channel(bg as int, 128, overlay as int) - (bg + overlay) / 2 <= 1,
        (bg + overlay) / 2 - spec_blend_channel(bg as int, 128, overlay as int) <= 1,
{
    let b = bg as int;
    let o = overlay as int;
    let q = (b * 127 + o * 128) / 255;
    let m = (b + o) / 2;
    vstd::arithmetic::div_mod::lemma_fundamental_div_mod(b * 127 + o * 128, 255);
    vstd::arithmetic::div_mod::lemma_mod_bound(b * 127 + o * 128, 255);
    vstd::arithmetic::div_mod::lemma_fundamental_div_mod(b + o, 2);
    vstd::arithmetic::div_mod::lemma_mod_bound(b + o, 2);
    let r1 = (b * 127 + o * 128) % 255;
    let r2 = (b + o) % 2;
    assert(b * 127 + o * 128 == 255 * q + r1);
    assert(b + o == 2 * m + r2);
    assert(510 * (q - m) == (o - b) - 2 * r1 + 255 * r2) by (nonlinear_arith)
        requires
            b * 127 + o * 128 == 255 * q + r1,
            b + o == 2 * m + r2,
    ;
    assert(-765 < 510 * (q - m) < 1020);
    assert(-1 <= q - m <= 1) by (nonlinear_arith)
        requires
            -765 < 510 * (q - m) < 1020,
    ;
}

/// Blends one channel; the result stays in the byte range.
fn blend_channel(bg: u8, alpha: u8, overlay: u8) -> (r: u8)
    ensures
        r == spec_blend_channel(bg as int, alpha as int, overlay as int),
{
    proof {
        lemma_blend_channel_bounds(bg as int, alpha as int, overlay as int);
    }
    let weighted: u32 = (bg as u32) * (255 - alpha as u32) + (overlay as u32) * (alpha as u32);
    (weighted / 255) as u8
}

/// The weighted sum of one blend channel stays within `255 * 255`, so the
/// truncated quotient fits in a byte.
proof fn lemma_blend_channel_bounds(bg: int, alpha: int, overlay: int)
    requires
        0 <= bg <= 255,
        0 <= alpha <= 255,
        0 <= overlay <= 255,
    ensures
        0 <= bg * (255 - alpha) + overlay * alpha <= 255 * 255,
        0 <= spec_blend_channel(bg, alpha, overlay) <= 255,
{
    assert(0 <= bg * (255 - alpha) + overlay * alpha <= 255 * 255) by (nonlinear_arith)
        requires
            0 <= bg <= 255,
            0 <= alpha <= 255,
            0 <= overlay <= 255,
    ;
    assert(0 <= (bg * (255 - alpha) + overlay * alpha) / 255 <= 255);
}

} // verus!
