//! The texture of a planet: a disc in a colour that the planet's generator picks.

use vstd::prelude::*;
use crate::rng::{color_draw, Rng};
use crate::texture::{is_ellipse, TextureBuilder};

verus! {

/// Draws a planet on a fresh square canvas of `size` x `size` pixels: the
/// ellipse inscribed in the canvas, in the next colour of `rng`.
pub fn planet_texture(rng: &mut Rng, size: i32) -> (texture: TextureBuilder)
    requires
        0 <= size,
        4 * (size * size) <= isize::MAX,
    ensures
        texture.width() == size,
        texture.height() == size,
        final(rng)@ == color_draw(old(rng)@).1,
        is_ellipse(
            texture@,
            size as int,
            size as int,
            size as int / 2,
            size as int / 2,
            size as int / 2,
            size as int / 2,
            color_draw(old(rng)@).0,
        ),
{
    let mut builder = TextureBuilder::new(size, size);
    builder.ellipse_from_center(rng.next_color());
    builder
}

} // verus!
