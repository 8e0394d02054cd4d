use planet_textures::coverage::pixel_coverage;
use planet_textures::TextureBuilder;

fn pixel(canvas: &TextureBuilder, x: i32, y: i32) -> (u8, u8, u8, u8) {
    let at = 4 * (x + y * canvas.width()) as usize;
    let data = canvas.data();
    (data[at], data[at + 1], data[at + 2], data[at + 3])
}

fn alphas(canvas: &TextureBuilder) -> Vec<Vec<u8>> {
    (0..canvas.height())
        .map(|y| (0..canvas.width()).map(|x| pixel(canvas, x, y).3).collect())
        .collect()
}

#[test]
fn new_canvas_has_four_bytes_per_pixel() {
    for (w, h) in [(1, 1), (4, 4), (7, 3), (100, 100), (3, 250)] {
        let canvas = TextureBuilder::new(w, h);
        assert_eq!(canvas.width(), w);
        assert_eq!(canvas.height(), h);
        assert_eq!(canvas.data().len(), (w * h * 4) as usize);
    }
}

#[test]
fn new_canvas_of_no_area_is_empty() {
    assert_eq!(TextureBuilder::new(0, 0).data().len(), 0);
    assert_eq!(TextureBuilder::new(0, 9).data().len(), 0);
    assert_eq!(TextureBuilder::new(9, 0).data().len(), 0);
    assert_eq!(TextureBuilder::new(0, 9).height(), 9);
    assert_eq!(TextureBuilder::new(9, 0).width(), 9);
}

#[test]
fn new_canvas_is_transparent_black() {
    let canvas = TextureBuilder::new(5, 6);
    assert!(canvas.data().iter().all(|&byte| byte == 0));
}

#[test]
fn fill_paints_every_pixel() {
    let mut canvas = TextureBuilder::new(5, 3);
    canvas.fill(0x336699);
    for y in 0..3 {
        for x in 0..5 {
            assert_eq!(pixel(&canvas, x, y), (0x33, 0x66, 0x99, 255));
        }
    }
    assert_eq!(canvas.data().len(), 60);
}

#[test]
fn fill_ignores_the_top_byte() {
    let mut canvas = TextureBuilder::new(2, 2);
    canvas.fill(0x12_AB_CD_EF);
    assert_eq!(canvas.data(), [0xAB, 0xCD, 0xEF, 255].repeat(4).as_slice());
    canvas.fill(0x00_00_00_00);
    assert_eq!(canvas.data(), [0, 0, 0, 255].repeat(4).as_slice());
}

#[test]
fn fill_of_an_empty_canvas_does_nothing() {
    let mut canvas = TextureBuilder::new(0, 4);
    canvas.fill(0xFFFFFF);
    assert_eq!(canvas.data().len(), 0);
}

#[test]
fn fill_overwrites_an_ellipse() {
    let mut canvas = TextureBuilder::new(6, 6);
    canvas.ellipse_from_center(0xFF0000);
    canvas.fill(0x0000FF);
    assert_eq!(canvas.data(), [0, 0, 255, 255].repeat(36).as_slice());
}

#[test]
fn red_disc_on_four_by_four() {
    let mut canvas = TextureBuilder::new(4, 4);
    canvas.ellipse_from_center(0xFF0000);
    assert_eq!(pixel(&canvas, 2, 2), (255, 0, 0, 255));
    // Six of the corner's sixteen samples lie within the circle of radius 2
    // about (2, 2): the nearest is at distance 1.125 * sqrt(2) from the centre.
    assert_eq!(pixel(&canvas, 0, 0), (95, 0, 0, 95));
    assert_eq!(
        alphas(&canvas),
        vec![
            vec![95, 239, 239, 95],
            vec![239, 255, 255, 239],
            vec![239, 255, 255, 239],
            vec![95, 239, 239, 95],
        ]
    );
    let expected: Vec<u8> = alphas(&canvas)
        .concat()
        .iter()
        .flat_map(|&alpha| [alpha, 0, 0, alpha])
        .collect();
    assert_eq!(canvas.data(), expected.as_slice());
}

#[test]
fn coverage_counts_samples() {
    let expected = [
        [0, 3, 11, 16, 16, 11, 3, 0],
        [3, 15, 16, 16, 16, 16, 15, 3],
        [11, 16, 16, 16, 16, 16, 16, 11],
        [16, 16, 16, 16, 16, 16, 16, 16],
        [16, 16, 16, 16, 16, 16, 16, 16],
        [11, 16, 16, 16, 16, 16, 16, 11],
        [3, 15, 16, 16, 16, 16, 15, 3],
        [0, 3, 11, 16, 16, 11, 3, 0],
    ];
    for y in 0..8 {
        for x in 0..8 {
            assert_eq!(pixel_coverage(x, y, 4, 4, 4, 4), expected[y as usize][x as usize]);
        }
    }
}

#[test]
fn coverage_of_a_pixel_on_the_boundary() {
    // Radius 5 about the origin, pixel (2, 4). In the row of samples at
    // y = 4.125 those up to x = 2.625 are inside (6.89 + 17.02 <= 25) and the
    // one at x = 2.875 is not (8.27 + 17.02 > 25); in the row at y = 4.375 two
    // are inside; in the other rows none.
    assert_eq!(pixel_coverage(2, 4, 0, 0, 5, 5), 5);
    // Radius 1 about the origin, pixel (0, 0): all but the three samples
    // farthest from the origin are inside.
    assert_eq!(pixel_coverage(0, 0, 0, 0, 1, 1), 13);
}

#[test]
fn coverage_is_exact_for_large_coordinates() {
    let max = i32::MAX;
    let min = i32::MIN;
    // The circle of radius i32::MAX about the origin crosses the diagonal
    // within pixel 1518500249 = floor(i32::MAX / sqrt(2)).
    assert_eq!(pixel_coverage(1518500248, 1518500248, 0, 0, max, max), 16);
    assert_eq!(pixel_coverage(1518500249, 1518500249, 0, 0, max, max), 3);
    assert_eq!(pixel_coverage(1518500250, 1518500250, 0, 0, max, max), 0);
    // A flat ellipse, i32::MAX wide and 1 high.
    assert_eq!(pixel_coverage(1000000000, 0, 0, 0, max, 1), 16);
    assert_eq!(pixel_coverage(1500000000, 0, 0, 0, max, 1), 12);
    assert_eq!(pixel_coverage(1900000000, 0, 0, 0, max, 1), 8);
    assert_eq!(pixel_coverage(2040109465, 0, 0, 0, max, 1), 4);
    // The largest distances that 32-bit coordinates allow.
    assert_eq!(pixel_coverage(max - 1, max - 1, max, max, max, max), 16);
    assert_eq!(pixel_coverage(max, max, min, min, max, max), 0);
    assert_eq!(pixel_coverage(max, max, min, min, min, min), 0);
    assert_eq!(pixel_coverage(min, min, max, max, min, min), 0);
    assert_eq!(pixel_coverage(max - 1, 0, 0, 0, max, max), 16);
    assert_eq!(pixel_coverage(max, 0, 0, 0, max, max), 0);
}

#[test]
fn ellipse_blends_each_channel() {
    let mut canvas = TextureBuilder::new(6, 4);
    canvas.ellipse(1, 2, 3, 2, 0x80FF10AB);
    let expected: [u8; 96] = [
        255, 16, 171, 255, 255, 16, 171, 255, 175, 11, 117, 175, 47, 3, 32, 47, 0, 0, 0, 0, 0, 0,
        0, 0, 255, 16, 171, 255, 255, 16, 171, 255, 255, 16, 171, 255, 223, 14, 149, 223, 0, 0, 0,
        0, 0, 0, 0, 0, 255, 16, 171, 255, 255, 16, 171, 255, 255, 16, 171, 255, 223, 14, 149, 223,
        0, 0, 0, 0, 0, 0, 0, 0, 255, 16, 171, 255, 255, 16, 171, 255, 175, 11, 117, 175, 47, 3,
        32, 47, 0, 0, 0, 0, 0, 0, 0, 0,
    ];
    assert_eq!(canvas.data(), expected.as_slice());
}

#[test]
fn ellipse_truncates_the_average() {
    // 3 of 16 samples: 3 * 255 / 16 = 47.8, 3 * 16 / 16 = 3, 3 * 171 / 16 = 32.06.
    let mut canvas = TextureBuilder::new(6, 4);
    canvas.ellipse(1, 2, 3, 2, 0xFF10AB);
    assert_eq!(pixel(&canvas, 3, 0), (47, 3, 32, 47));
    // 14 of 16 samples.
    assert_eq!(pixel(&canvas, 3, 1), (223, 14, 149, 223));
}

#[test]
fn ellipse_overwrites_what_was_there() {
    let mut canvas = TextureBuilder::new(6, 6);
    canvas.fill(0xFFFFFF);
    canvas.ellipse_from_center(0x00FF00);
    assert_eq!(pixel(&canvas, 0, 0), (0, 0, 0, 0));
    assert_eq!(pixel(&canvas, 1, 0), (0, 143, 0, 143));
    assert_eq!(pixel(&canvas, 3, 3), (0, 255, 0, 255));
}

#[test]
fn ellipse_with_a_negative_radius_is_the_same_ellipse() {
    let mut plain = TextureBuilder::new(6, 4);
    plain.ellipse(1, 2, 3, 2, 0xABCDEF);
    for (rx, ry) in [(-3, 2), (3, -2), (-3, -2)] {
        let mut other = TextureBuilder::new(6, 4);
        other.ellipse(1, 2, rx, ry, 0xABCDEF);
        assert_eq!(other.data(), plain.data());
    }
}

#[test]
fn ellipse_with_one_radius_zero_is_empty() {
    let mut canvas = TextureBuilder::new(4, 2);
    canvas.fill(0x123456);
    canvas.ellipse(2, 1, 0, 1, 0xFFFFFF);
    assert!(canvas.data().iter().all(|&byte| byte == 0));
    canvas.fill(0x123456);
    canvas.ellipse(2, 1, 5, 0, 0xFFFFFF);
    assert!(canvas.data().iter().all(|&byte| byte == 0));
}

#[test]
fn ellipse_with_both_radii_zero_passes_every_sample() {
    let mut canvas = TextureBuilder::new(3, 2);
    canvas.ellipse(1, 1, 0, 0, 0x0A0B0C);
    assert_eq!(canvas.data(), [0x0A, 0x0B, 0x0C, 255].repeat(6).as_slice());
    let mut dot = TextureBuilder::new(1, 1);
    dot.ellipse_from_center(0x0A0B0C);
    assert_eq!(dot.data(), [0x0A, 0x0B, 0x0C, 255].as_slice());
}

#[test]
fn ellipse_outside_the_canvas_clears_it() {
    let mut canvas = TextureBuilder::new(4, 4);
    canvas.fill(0xFFFFFF);
    canvas.ellipse(-100, 50, 3, 3, 0xFF0000);
    assert!(canvas.data().iter().all(|&byte| byte == 0));
}

#[test]
fn ellipse_on_an_empty_canvas_does_nothing() {
    let mut canvas = TextureBuilder::new(0, 0);
    canvas.ellipse_from_center(0xFF0000);
    canvas.ellipse(3, 3, 2, 2, 0xFF0000);
    assert_eq!(canvas.data().len(), 0);
}

#[test]
fn ellipse_from_center_rounds_odd_sizes_down() {
    // 5 x 3: centre (2, 1), radii 2 and 1, so the last column and the last
    // row stay empty.
    let mut canvas = TextureBuilder::new(5, 3);
    canvas.ellipse_from_center(0x336699);
    let expected: [u8; 60] = [
        28, 57, 86, 143, 51, 102, 153, 255, 51, 102, 153, 255, 28, 57, 86, 143, 0, 0, 0, 0, 28,
        57, 86, 143, 51, 102, 153, 255, 51, 102, 153, 255, 28, 57, 86, 143, 0, 0, 0, 0, 0, 0, 0,
        0, 0, 0, 0, 0, 0, 0, 0, 0, 0, 0, 0, 0, 0, 0, 0, 0,
    ];
    assert_eq!(canvas.data(), expected.as_slice());
    let mut explicit = TextureBuilder::new(5, 3);
    explicit.ellipse(2, 1, 2, 1, 0x336699);
    assert_eq!(explicit.data(), canvas.data());
}

#[test]
fn inscribed_ellipse_covers_the_centre_and_misses_the_corner() {
    for (w, h) in [(6, 6), (7, 9), (10, 6), (40, 64), (100, 100)] {
        let mut canvas = TextureBuilder::new(w, h);
        canvas.ellipse_from_center(0xC08040);
        assert_eq!(pixel(&canvas, w / 2, h / 2), (0xC0, 0x80, 0x40, 255));
        assert_eq!(pixel(&canvas, 0, 0), (0, 0, 0, 0));
        assert_eq!(pixel(&canvas, w - 1, 0), (0, 0, 0, 0));
        assert_eq!(pixel(&canvas, 0, h - 1), (0, 0, 0, 0));
        assert_eq!(pixel(&canvas, w - 1, h - 1), (0, 0, 0, 0));
    }
}

#[test]
fn centre_of_a_unit_disc_is_partly_covered() {
    // Radius 1: the sample at (1.875, 1.875) is farther than 1 from (1, 1).
    let mut canvas = TextureBuilder::new(2, 2);
    canvas.ellipse_from_center(0xFFFFFF);
    assert_eq!(pixel(&canvas, 1, 1), (207, 207, 207, 207));
}

#[test]
fn inscribed_ellipse_has_a_blended_edge() {
    for (w, h) in [(6, 6), (6, 40), (40, 6), (7, 7), (33, 21), (100, 100), (6, 5000), (5000, 6)] {
        let mut canvas = TextureBuilder::new(w, h);
        canvas.ellipse_from_center(0xFFFFFF);
        let blended = canvas
            .data()
            .chunks(4)
            .filter(|pixel| 0 < pixel[3] && pixel[3] < 255)
            .count();
        assert!(blended > 0);
    }
}

#[test]
fn disc_of_radius_three() {
    let mut canvas = TextureBuilder::new(6, 6);
    canvas.ellipse_from_center(0xFFFFFF);
    assert_eq!(
        alphas(&canvas),
        vec![
            vec![0, 143, 239, 239, 143, 0],
            vec![143, 255, 255, 255, 255, 143],
            vec![239, 255, 255, 255, 255, 239],
            vec![239, 255, 255, 255, 255, 239],
            vec![143, 255, 255, 255, 255, 143],
            vec![0, 143, 239, 239, 143, 0],
        ]
    );
}

fn single_precision_coverage(px: i32, py: i32, cx: i32, cy: i32, rx: i32, ry: i32) -> u32 {
    let mut count = 0;
    for si in 0..4 {
        for sj in 0..4 {
            let sx = px as f32 + (si as f32 + 0.5) * 0.25;
            let sy = py as f32 + (sj as f32 + 0.5) * 0.25;
            let dx = sx - cx as f32;
            let dy = sy - cy as f32;
            let (rx, ry) = (rx as f32, ry as f32);
            if dx * dx * ry * ry + dy * dy * rx * rx <= rx * rx * ry * ry {
                count += 1;
            }
        }
    }
    count
}

#[test]
fn agrees_with_single_precision_sampling() {
    // On canvases of a few hundred pixels a side, rounding to 24 bits never
    // moves a sample across the boundary.
    for (w, h) in [(16, 16), (33, 57), (100, 100), (128, 96), (255, 130)] {
        let mut canvas = TextureBuilder::new(w, h);
        canvas.ellipse_from_center(0xFFFFFF);
        for y in 0..h {
            for x in 0..w {
                let count = single_precision_coverage(x, y, w / 2, h / 2, w / 2, h / 2);
                assert_eq!(pixel_coverage(x, y, w / 2, h / 2, w / 2, h / 2), count);
                assert_eq!(pixel(&canvas, x, y).3, (count * 255 / 16) as u8);
            }
        }
    }
}
