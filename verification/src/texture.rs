//! A canvas of RGBA8 pixels and the shapes that can be drawn on it.
//!
//! The buffer holds four bytes per pixel, red, green, blue, alpha, row after
//! row: the pixel in column `x` of row `y` starts at byte `4 * (x + y * width)`.

use vstd::prelude::*;
use crate::color::{blue, blue_of, green, green_of, red, red_of, OPAQUE};
use crate::coverage::{coverage, pixel_coverage, shade};

verus! {

/// The pixel in column `x` of row `y` of a buffer `width` pixels wide, as
/// (red, green, blue, alpha).
pub open spec fn pixel(data: Seq<u8>, width: int, x: int, y: int) -> (u8, u8, u8, u8) {
    quad(data, x + y * width)
}

/// The four bytes of pixel number `p`, counting row by row from 0.
pub open spec fn quad(data: Seq<u8>, p: int) -> (u8, u8, u8, u8) {
    (data[4 * p], data[4 * p + 1], data[4 * p + 2], data[4 * p + 3])
}

/// The opaque pixel of a drawing colour.
pub open spec fn solid(color: u32) -> (u8, u8, u8, u8) {
    (red_of(color), green_of(color), blue_of(color), OPAQUE)
}

/// The pixel that results when `count` of its 16 samples carry the opaque
/// drawing colour and the others are transparent black.
pub open spec fn shaded(color: u32, count: int) -> (u8, u8, u8, u8) {
    (
        shade(red_of(color), count),
        shade(green_of(color), count),
        shade(blue_of(color), count),
        shade(OPAQUE, count),
    )
}

/// `data` is a `width` x `height` image of which every byte is 0.
pub open spec fn is_blank(data: Seq<u8>, width: int, height: int) -> bool {
    &&& data.len() == 4 * (width * height)
    &&& forall|k: int| 0 <= k < data.len() ==> data[k] == 0
}

/// `data` is a `width` x `height` image of which every pixel is the opaque
/// drawing colour.
pub open spec fn is_filled(data: Seq<u8>, width: int, height: int, color: u32) -> bool {
    &&& data.len() == 4 * (width * height)
    &&& forall|x: int, y: int|
        0 <= x < width && 0 <= y < height ==> #[trigger] pixel(data, width, x, y) == solid(color)
}

/// `data` is a `width` x `height` image of the ellipse centred at `(cx, cy)`
/// with semi-axes `rx` and `ry`: every pixel is the drawing colour weighted by
/// the share of the pixel's samples that the ellipse covers.
pub open spec fn is_ellipse(
    data: Seq<u8>,
    width: int,
    height: int,
    cx: int,
    cy: int,
    rx: int,
    ry: int,
    color: u32,
) -> bool {
    &&& data.len() == 4 * (width * height)
    &&& forall|x: int, y: int|
        0 <= x < width && 0 <= y < height ==> #[trigger] pixel(data, width, x, y) == shaded(
            color,
            coverage(x, y, cx, cy, rx, ry),
        )
}

/// Every pixel of a `width` x `height` image lies within its buffer.
pub proof fn lemma_pixel_in_bounds(width: int, height: int, x: int, y: int)
    by (nonlinear_arith)
    requires
        0 <= x < width,
        0 <= y < height,
    ensures
        0 <= x + y * width < width * height,
{
}

/// Distinct pixels start at distinct bytes.
pub proof fn lemma_pixel_index_injective(width: int, x1: int, y1: int, x2: int, y2: int)
    by (nonlinear_arith)
    requires
        0 <= x1 < width,
        0 <= x2 < width,
        x1 + y1 * width == x2 + y2 * width,
    ensures
        x1 == x2,
        y1 == y2,
{
}

/// Every byte of a `width` x `height` image belongs to one of its pixels: two
/// images of one size that agree pixel by pixel are the same image.
pub proof fn lemma_pixels_determine_image(a: Seq<u8>, b: Seq<u8>, width: int, height: int)
    requires
        0 <= width,
        0 <= height,
        a.len() == 4 * (width * height),
        b.len() == 4 * (width * height),
        forall|x: int, y: int|
            0 <= x < width && 0 <= y < height ==> #[trigger] pixel(a, width, x, y) == pixel(
                b,
                width,
                x,
                y,
            ),
    ensures
        a == b,
{
    assert forall|k: int| 0 <= k < a.len() implies a[k] == b[k] by {
        let p = k / 4;
        assert(0 < width) by (nonlinear_arith)
            requires
                0 <= width,
                0 <= p < width * height,
        ;
        let x = p % width;
        let y = p / width;
        vstd::arithmetic::div_mod::lemma_fundamental_div_mod(p, width);
        vstd::arithmetic::div_mod::lemma_mod_pos_bound(p, width);
        vstd::arithmetic::div_mod::lemma_div_pos_is_pos(p, width);
        vstd::arithmetic::div_mod::lemma_multiply_divide_lt(p, width, height);
        assert(width * y == y * width) by (nonlinear_arith);
        assert(x + y * width == p);
        assert(pixel(a, width, x, y) == pixel(b, width, x, y));
        assert(quad(a, p) == quad(b, p));
        assert(k == 4 * p || k == 4 * p + 1 || k == 4 * p + 2 || k == 4 * p + 3);
    }
    assert(a =~= b);
}

/// Filling leaves no byte open: two filled images of one size and colour are
/// the same image.
pub proof fn lemma_fill_is_determined(a: Seq<u8>, b: Seq<u8>, width: int, height: int, color: u32)
    requires
        0 <= width,
        0 <= height,
        is_filled(a, width, height, color),
        is_filled(b, width, height, color),
    ensures
        a == b,
{
    lemma_pixels_determine_image(a, b, width, height);
}

/// Drawing an ellipse leaves no byte open: two images of one size, ellipse and
/// colour are the same image.
pub proof fn lemma_ellipse_is_determined(
    a: Seq<u8>,
    b: Seq<u8>,
    width: int,
    height: int,
    cx: int,
    cy: int,
    rx: int,
    ry: int,
    color: u32,
)
    requires
        0 <= width,
        0 <= height,
        is_ellipse(a, width, height, cx, cy, rx, ry, color),
        is_ellipse(b, width, height, cx, cy, rx, ry, color),
    ensures
        a == b,
{
    lemma_pixels_determine_image(a, b, width, height);
}

/// Averages one channel over the 16 samples of a pixel.
fn shade_channel(channel: u8, count: u32) -> (r: u8)
    requires
        count <= 16,
    ensures
        r == shade(channel, count as int),
{
    assert(channel as int * count as int <= 255 * 16) by (nonlinear_arith)
        requires
            channel <= 255,
            0 <= count <= 16,
    ;
    assert(0 <= channel as int * count as int) by (nonlinear_arith);
    ((channel as u32 * count) / 16) as u8
}

/// A canvas: a pixel buffer with its dimensions.
pub struct TextureBuilder {
    width: i32,
    height: i32,
    data: Vec<u8>,
}

impl View for TextureBuilder {
    type V = Seq<u8>;

    /// The bytes of the buffer.
    closed spec fn view(&self) -> Seq<u8> {
        self.data@
    }
}

impl TextureBuilder {
    #[verifier::type_invariant]
    spec fn well_formed(&self) -> bool {
        &&& 0 <= self.width
        &&& 0 <= self.height
        &&& self.data@.len() == 4 * (self.width * self.height)
    }

    /// The width in pixels.
    pub closed spec fn spec_width(&self) -> i32 {
        self.width
    }

    /// The height in pixels.
    pub closed spec fn spec_height(&self) -> i32 {
        self.height
    }

    /// A canvas of `width` x `height` transparent black pixels. Either
    /// dimension may be 0, and the buffer is then empty. The buffer must not
    /// be longer than an allocation can be.
    pub fn new(width: i32, height: i32) -> (canvas: Self)
        requires
            0 <= width,
            0 <= height,
            4 * (width * height) <= isize::MAX,
        ensures
            canvas.width() == width,
            canvas.height() == height,
            is_blank(canvas@, width as int, height as int),
    {
        assert(0 <= width * height) by (nonlinear_arith)
            requires
                0 <= width,
                0 <= height,
        ;
        let pixels: usize = width as usize * height as usize;
        let data: Vec<u8> = vec![0u8; pixels * 4];
        Self { width, height, data }
    }

    /// The width in pixels.
    #[verifier::when_used_as_spec(spec_width)]
    pub fn width(&self) -> (w: i32)
        ensures
            w == self.spec_width(),
            0 <= w,
    {
        proof {
            use_type_invariant(self);
        }
        self.width
    }

    /// The height in pixels.
    #[verifier::when_used_as_spec(spec_height)]
    pub fn height(&self) -> (h: i32)
        ensures
            h == self.spec_height(),
            0 <= h,
    {
        proof {
            use_type_invariant(self);
        }
        self.height
    }

    /// The buffer: four bytes for each pixel.
    pub fn data(&self) -> (bytes: &[u8])
        ensures
            bytes@ == self@,
            bytes@.len() == 4 * (self.width() * self.height()),
    {
        proof {
            use_type_invariant(self);
        }
        self.data.as_slice()
    }

    /// Paints every pixel with the opaque drawing colour `color`.
    pub fn fill(&mut self, color: u32)
        ensures
            final(self).width() == old(self).width(),
            final(self).height() == old(self).height(),
            is_filled(
                final(self)@,
                final(self).width() as int,
                final(self).height() as int,
                color,
            ),
    {
        proof {
            use_type_invariant(&*self);
        }
        let red: u8 = red(color);
        let green: u8 = green(color);
        let blue: u8 = blue(color);
        let alpha: u8 = OPAQUE;
        let pixels: usize = self.data.len() / 4;
        for i in 0..pixels
            invariant
                self.width == old(self).width,
                self.height == old(self).height,
                self.data@.len() == 4 * pixels,
                4 * pixels <= usize::MAX,
                self.data@.len() == 4 * (self.width * self.height),
                0 <= self.width,
                0 <= self.height,
                red == red_of(color),
                green == green_of(color),
                blue == blue_of(color),
                alpha == OPAQUE,
                forall|p: int| 0 <= p < i ==> #[trigger] quad(self.data@, p) == solid(color),
        {
            let ghost before = self.data@;
            self.data[i * 4] = red;
            self.data[i * 4 + 1] = green;
            self.data[i * 4 + 2] = blue;
            self.data[i * 4 + 3] = alpha;
            assert forall|p: int| 0 <= p < i + 1 implies #[trigger] quad(self.data@, p) == solid(
                color,
            ) by {
                if p < i {
                    assert(quad(self.data@, p) == quad(before, p));
                }
            }
        }
        proof {
            let w: int = self.width as int;
            let h: int = self.height as int;
            assert forall|x: int, y: int| 0 <= x < w && 0 <= y < h implies #[trigger] pixel(
                self.data@,
                w,
                x,
                y,
            ) == solid(color) by {
                lemma_pixel_in_bounds(w, h, x, y);
                assert(quad(self.data@, x + y * w) == solid(color));
            }
        }
    }

    /// Draws the ellipse centred at `(x, y)` with semi-axes `x_radius` and
    /// `y_radius` in the drawing colour `color`, over whatever the canvas held.
    ///
    /// Each pixel is sampled at 16 points; it receives the colour and full
    /// alpha scaled by the share of its samples that lie within the ellipse.
    /// Radii are used through their squares only, so a negative radius draws
    /// the same ellipse as its magnitude. An ellipse of which exactly one
    /// radius is 0 is empty; with both radii 0 every point passes the test.
    pub fn ellipse(&mut self, x: i32, y: i32, x_radius: i32, y_radius: i32, color: u32)
        ensures
            final(self).width() == old(self).width(),
            final(self).height() == old(self).height(),
            is_ellipse(
                final(self)@,
                final(self).width() as int,
                final(self).height() as int,
                x as int,
                y as int,
                x_radius as int,
                y_radius as int,
                color,
            ),
    {
        proof {
            use_type_invariant(&*self);
        }
        let red: u8 = red(color);
        let green: u8 = green(color);
        let blue: u8 = blue(color);
        let alpha: u8 = OPAQUE;
        let width: i32 = self.width;
        let height: i32 = self.height;
        let ghost w: int = width as int;
        let ghost h: int = height as int;
        let size: usize = self.data.len();
        for i in 0..width
            invariant
                self.width == old(self).width == width,
                self.height == old(self).height == height,
                w == width,
                h == height,
                0 <= w,
                0 <= h,
                self.data@.len() == 4 * (w * h) == size,
                red == red_of(color),
                green == green_of(color),
                blue == blue_of(color),
                alpha == OPAQUE,
                forall|px: int, py: int|
                    0 <= px < i && 0 <= py < h ==> #[trigger] pixel(self.data@, w, px, py)
                        == shaded(
                        color,
                        coverage(px, py, x as int, y as int, x_radius as int, y_radius as int),
                    ),
        {
            for j in 0..height
                invariant
                    self.width == old(self).width == width,
                    self.height == old(self).height == height,
                    w == width,
                    h == height,
                    0 <= i < w,
                    0 <= h,
                    self.data@.len() == 4 * (w * h) == size,
                    red == red_of(color),
                    green == green_of(color),
                    blue == blue_of(color),
                    alpha == OPAQUE,
                    forall|px: int, py: int|
                        (0 <= px < i && 0 <= py < h) || (px == i && 0 <= py < j)
                            ==> #[trigger] pixel(self.data@, w, px, py) == shaded(
                            color,
                            coverage(px, py, x as int, y as int, x_radius as int, y_radius as int),
                        ),
            {
                let count: u32 = pixel_coverage(i, j, x, y, x_radius, y_radius);
                proof {
                    lemma_pixel_in_bounds(w, h, i as int, j as int);
                }
                let index: usize = i as usize + j as usize * width as usize;
                let ghost before = self.data@;
                self.data[index * 4] = shade_channel(red, count);
                self.data[index * 4 + 1] = shade_channel(green, count);
                self.data[index * 4 + 2] = shade_channel(blue, count);
                self.data[index * 4 + 3] = shade_channel(alpha, count);
                assert forall|px: int, py: int|
                    (0 <= px < i && 0 <= py < h) || (px == i && 0 <= py < j + 1)
                        implies #[trigger] pixel(self.data@, w, px, py) == shaded(
                    color,
                    coverage(px, py, x as int, y as int, x_radius as int, y_radius as int),
                ) by {
                    if px != i || py != j {
                        lemma_pixel_in_bounds(w, h, px, py);
                        if px + py * w == i + j * w {
                            lemma_pixel_index_injective(w, px, py, i as int, j as int);
                        }
                        assert(pixel(self.data@, w, px, py) == pixel(before, w, px, py));
                    }
                }
            }
        }
    }

    /// Draws the ellipse inscribed in the canvas: centre and radii are half the
    /// width and half the height, rounded down.
    pub fn ellipse_from_center(&mut self, color: u32)
        ensures
            final(self).width() == old(self).width(),
            final(self).height() == old(self).height(),
            is_ellipse(
                final(self)@,
                final(self).width() as int,
                final(self).height() as int,
                final(self).width() as int / 2,
                final(self).height() as int / 2,
                final(self).width() as int / 2,
                final(self).height() as int / 2,
                color,
            ),
    {
        proof {
            use_type_invariant(&*self);
        }
        let x: i32 = self.width / 2;
        let y: i32 = self.height / 2;
        let x_radius: i32 = self.width / 2;
        let y_radius: i32 = self.height / 2;
        self.ellipse(x, y, x_radius, y_radius, color);
    }
}

} // verus!
