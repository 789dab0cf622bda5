//! Turning framebuffer cells into the 0RGB pixels that a window expects.

use vstd::prelude::*;

verus! {

/// The 0RGB word that packs three channel bytes, red in bits 16..24.
pub open spec fn rgb_word(r: u8, g: u8, b: u8) -> int {
    r as int * 0x10000 + g as int * 0x100 + b as int
}

/// Packs three channel bytes into one 0RGB word.
pub fn from_u8_rgb(r: u8, g: u8, b: u8) -> (rgb: u32)
    ensures
        rgb as int == rgb_word(r, g, b),
{
    let (r, g, b) = (r as u32, g as u32, b as u32);
    assert((r << 16) | (g << 8) | b == r * 0x10000 + g * 0x100 + b) by (bit_vector)
        requires
            r < 256,
            g < 256,
            b < 256,
    ;
    (r << 16) | (g << 8) | b
}

/// The colour of one framebuffer cell: black when it is clear, white when set.
pub fn get_pixel_state(pixel: u16) -> (rgb: u32)
    ensures
        pixel == 0 ==> rgb == 0,
        pixel != 0 ==> rgb == 0xFF_FFFF,
{
    if pixel == 0x0 {
        from_u8_rgb(0, 0, 0)
    } else {
        from_u8_rgb(255, 255, 255)
    }
}

} // verus!
