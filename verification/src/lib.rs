//! Deterministic procedural textures: a seeded pseudo-random generator and a
//! raster canvas that draws anti-aliased filled ellipses into an RGBA8 buffer.

pub mod color;
pub mod coverage;
pub mod shape;
pub mod inscribed;
pub mod texture;
pub mod rng;
pub mod planet;

pub use planet::planet_texture;
pub use rng::Rng;
pub use texture::TextureBuilder;
