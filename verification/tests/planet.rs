use planet_textures::{planet_texture, Rng, TextureBuilder};

#[test]
fn planet_is_a_disc_in_the_generators_next_colour() {
    for seed in ["Planet", "", "Neptune"] {
        let mut rng = Rng::new(seed);
        let texture = planet_texture(&mut rng, 100);
        let mut twin = Rng::new(seed);
        let mut expected = TextureBuilder::new(100, 100);
        expected.ellipse_from_center(twin.next_color());
        assert_eq!(texture.width(), 100);
        assert_eq!(texture.height(), 100);
        assert_eq!(texture.data().len(), 40_000);
        assert_eq!(texture.data(), expected.data());
        assert_eq!(rng.next_i32(), twin.next_i32());
    }
}

#[test]
fn planet_texture_is_determined_by_the_seed() {
    let first = planet_texture(&mut Rng::new("Planet"), 32);
    let second = planet_texture(&mut Rng::new("Planet"), 32);
    let other = planet_texture(&mut Rng::new("Moon"), 32);
    assert_eq!(first.data(), second.data());
    assert_ne!(first.data(), other.data());
}

#[test]
fn planet_centre_has_the_drawn_colour() {
    let mut rng = Rng::new("Planet");
    let color = Rng::new("Planet").next_color();
    let texture = planet_texture(&mut rng, 10);
    let centre = 4 * (5 + 5 * 10);
    assert_eq!(
        texture.data()[centre..centre + 4],
        [(color >> 16) as u8, (color >> 8) as u8, color as u8, 255]
    );
    assert_eq!(texture.data()[0..4], [0, 0, 0, 0]);
}

#[test]
fn planet_of_no_size_is_empty() {
    let mut rng = Rng::new("Planet");
    let texture = planet_texture(&mut rng, 0);
    assert_eq!(texture.data().len(), 0);
    let mut twin = Rng::new("Planet");
    twin.next_color();
    assert_eq!(rng.next_u8(), twin.next_u8());
}
