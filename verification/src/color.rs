//! Packed colours and their 8-bit channels.
//!
//! Two layouts are in use. A drawing colour carries red, green and blue in its
//! low three bytes and is always fully opaque, whatever its top byte holds. A
//! generated colour additionally carries its alpha, 255, in the top byte.

use vstd::prelude::*;

verus! {

/// Alpha of a fully opaque pixel.
pub const OPAQUE: u8 = 0xFF;

/// The red channel of a packed colour: its third byte.
pub open spec fn red_of(color: u32) -> u8 {
    ((color as int / 0x1_0000) % 0x100) as u8
}

/// The green channel of a packed colour: its second byte.
pub open spec fn green_of(color: u32) -> u8 {
    ((color as int / 0x100) % 0x100) as u8
}

/// The blue channel of a packed colour: its lowest byte.
pub open spec fn blue_of(color: u32) -> u8 {
    (color as int % 0x100) as u8
}

/// The opaque colour with the given channels, alpha in the top byte.
pub open spec fn packed(red: u8, green: u8, blue: u8) -> u32 {
    (0xFF00_0000 + red as int * 0x1_0000 + green as int * 0x100 + blue as int) as u32
}

/// Extracts the red channel.
pub fn red(color: u32) -> (r: u8)
    ensures
        r == red_of(color),
{
    assert(((color >> 16) & 0xFF) == (color / 0x1_0000) % 0x100) by (bit_vector);
    ((color >> 16) & 0xFF) as u8
}

/// Extracts the green channel.
pub fn green(color: u32) -> (r: u8)
    ensures
        r == green_of(color),
{
    assert(((color >> 8) & 0xFF) == (color / 0x100) % 0x100) by (bit_vector);
    ((color >> 8) & 0xFF) as u8
}

/// Extracts the blue channel.
pub fn blue(color: u32) -> (r: u8)
    ensures
        r == blue_of(color),
{
    assert((color & 0xFF) == color % 0x100) by (bit_vector);
    (color & 0xFF) as u8
}

/// Packs three channels into an opaque colour.
pub fn pack_color(red: u8, green: u8, blue: u8) -> (color: u32)
    ensures
        color == packed(red, green, blue),
{
    let r: u32 = red as u32;
    let g: u32 = green as u32;
    let b: u32 = blue as u32;
    let alpha: u32 = 0xFF;
    assert(((r << 16) | (g << 8) | b | (alpha << 24)) == 0xFF00_0000 + r * 0x1_0000 + g * 0x100 + b)
        by (bit_vector)
        requires
            r < 0x100,
            g < 0x100,
            b < 0x100,
            alpha == 0xFF,
    ;
    (r << 16) | (g << 8) | b | (alpha << 24)
}

/// Packing keeps every channel, and the top byte of the result is 255.
pub proof fn lemma_packed_channels(red: u8, green: u8, blue: u8)
    ensures
        red_of(packed(red, green, blue)) == red,
        green_of(packed(red, green, blue)) == green,
        blue_of(packed(red, green, blue)) == blue,
        packed(red, green, blue) as int / 0x100_0000 == 0xFF,
{
    let r: int = red as int;
    let g: int = green as int;
    let b: int = blue as int;
    let v: int = 0xFF00_0000 + r * 0x1_0000 + g * 0x100 + b;
    assert(packed(red, green, blue) as int == v);
    assert(v % 0x100 == b);
    assert(v / 0x100 == 0xFF_0000 + r * 0x100 + g);
    assert(v / 0x1_0000 == 0xFF00 + r);
    assert(v / 0x100_0000 == 0xFF);
}

} // verus!
