//! How much of a pixel an ellipse covers, estimated on a 4 x 4 grid of samples.
//!
//! A pixel in column `px` spans `px .. px + 1`; its samples sit at
//! `px + (k + 1/2) / 4` for `k` in `0 .. 4`, and likewise along the rows. All
//! distances here are measured in eighths of a pixel, so that every sample
//! centre has integer coordinates and the membership test is exact.

use vstd::prelude::*;

verus! {

/// Samples taken per pixel: 4 along each axis.
pub const SAMPLES_PER_PIXEL: u32 = 16;

/// The square of `v`.
pub open spec fn sq(v: int) -> int {
    v * v
}

/// The signed distance, in eighths of a pixel, from `center` to sample `k` of
/// the pixel with index `pixel` along one axis.
pub open spec fn sample_offset(pixel: int, k: int, center: int) -> int {
    8 * (pixel - center) + 2 * k + 1
}

/// Whether a point at offset `(dx, dy)` eighths of a pixel from the centre lies
/// within the ellipse with semi-axes `rx` and `ry` pixels:
/// `(dx/8)^2 * ry^2 + (dy/8)^2 * rx^2 <= rx^2 * ry^2`, cleared of fractions.
pub open spec fn inside(dx: int, dy: int, rx: int, ry: int) -> bool {
    sq(dx) * sq(ry) + sq(dy) * sq(rx) <= 64 * (sq(rx) * sq(ry))
}

/// Whether sample `k` (`0 .. 16`, column-major within the pixel) of pixel
/// `(px, py)` lies within the ellipse centred at `(cx, cy)`.
pub open spec fn sample_inside(px: int, py: int, k: int, cx: int, cy: int, rx: int, ry: int) -> bool {
    inside(sample_offset(px, k / 4, cx), sample_offset(py, k % 4, cy), rx, ry)
}

/// How many of the first `n` samples of pixel `(px, py)` lie within the ellipse.
pub open spec fn samples_inside(
    px: int,
    py: int,
    cx: int,
    cy: int,
    rx: int,
    ry: int,
    n: int,
) -> int
    decreases n,
{
    if n <= 0 {
        0
    } else {
        samples_inside(px, py, cx, cy, rx, ry, n - 1) + if sample_inside(
            px,
            py,
            n - 1,
            cx,
            cy,
            rx,
            ry,
        ) {
            1int
        } else {
            0int
        }
    }
}

/// How many of the 16 samples of pixel `(px, py)` lie within the ellipse.
pub open spec fn coverage(px: int, py: int, cx: int, cy: int, rx: int, ry: int) -> int {
    samples_inside(px, py, cx, cy, rx, ry, 16)
}

/// A channel of a pixel of which `count` samples carry `channel` and the other
/// samples carry 0: the average over the 16 samples, rounded down.
pub open spec fn shade(channel: u8, count: int) -> u8 {
    (channel as int * count / 16) as u8
}

/// The count of covered samples never leaves `0 ..= n`.
pub proof fn lemma_samples_inside_bounds(
    px: int,
    py: int,
    cx: int,
    cy: int,
    rx: int,
    ry: int,
    n: int,
)
    requires
        0 <= n,
    ensures
        0 <= samples_inside(px, py, cx, cy, rx, ry, n) <= n,
    decreases n,
{
    if n > 0 {
        lemma_samples_inside_bounds(px, py, cx, cy, rx, ry, n - 1);
    }
}

proof fn lemma_square_of_magnitude(v: int, m: int)
    by (nonlinear_arith)
    requires
        m == v || m == -v,
        0 <= m < 0x8_0000_0000,
    ensures
        m * m == sq(v),
        0 <= m * m < 0x40_0000_0000_0000_0000,
{
}

proof fn lemma_product_bound(a: int, b: int, amax: int, bmax: int)
    by (nonlinear_arith)
    requires
        0 <= a <= amax,
        0 <= b <= bmax,
    ensures
        0 <= a * b <= amax * bmax,
{
}

proof fn lemma_split_product(whole: int, high: int, low: int, factor: int)
    by (nonlinear_arith)
    requires
        whole == 64 * high + low,
    ensures
        whole * factor == 64 * (high * factor) + low * factor,
{
}

/// The magnitude of an offset, as an unsigned number.
fn magnitude(v: i64) -> (m: u128)
    requires
        -0x8_0000_0000 < v < 0x8_0000_0000,
    ensures
        m == v || m == -v,
        0 <= m < 0x8_0000_0000,
{
    if v < 0 {
        (-v) as u128
    } else {
        v as u128
    }
}

/// Tests one sample against the ellipse, in exact integer arithmetic.
///
/// With `dx*dx = 64*gx + kx` and `dy*dy = 64*gy + ky`, the test
/// `dx^2 ry^2 + dy^2 rx^2 <= 64 rx^2 ry^2` becomes
/// `gx ry^2 + gy rx^2 + ceil((kx ry^2 + ky rx^2) / 64) <= rx^2 ry^2`,
/// every term of which fits in 128 bits.
fn sample_is_inside(dx: i64, dy: i64, rx: i32, ry: i32) -> (r: bool)
    requires
        -0x8_0000_0000 < dx < 0x8_0000_0000,
        -0x8_0000_0000 < dy < 0x8_0000_0000,
    ensures
        r == inside(dx as int, dy as int, rx as int, ry as int),
{
    let ax: u128 = magnitude(dx);
    let ay: u128 = magnitude(dy);
    let mx: u128 = magnitude(rx as i64);
    let my: u128 = magnitude(ry as i64);
    proof {
        lemma_square_of_magnitude(dx as int, ax as int);
        lemma_square_of_magnitude(dy as int, ay as int);
        lemma_square_of_magnitude(rx as int, mx as int);
        lemma_square_of_magnitude(ry as int, my as int);
        lemma_product_bound(mx as int, mx as int, 0x8000_0000, 0x8000_0000);
        lemma_product_bound(my as int, my as int, 0x8000_0000, 0x8000_0000);
    }
    let dx2: u128 = ax * ax;
    let dy2: u128 = ay * ay;
    let rx2: u128 = mx * mx;
    let ry2: u128 = my * my;
    let gx: u128 = dx2 / 64;
    let kx: u128 = dx2 % 64;
    let gy: u128 = dy2 / 64;
    let ky: u128 = dy2 % 64;
    proof {
        let r2max: int = 0x4000_0000_0000_0000;
        lemma_product_bound(gx as int, ry2 as int, 0xFFFF_FFFF_FFFF_FFFF, r2max);
        lemma_product_bound(gy as int, rx2 as int, 0xFFFF_FFFF_FFFF_FFFF, r2max);
        lemma_product_bound(kx as int, ry2 as int, 63, r2max);
        lemma_product_bound(ky as int, rx2 as int, 63, r2max);
        lemma_product_bound(rx2 as int, ry2 as int, r2max, r2max);
        lemma_split_product(dx2 as int, gx as int, kx as int, ry2 as int);
        lemma_split_product(dy2 as int, gy as int, ky as int, rx2 as int);
    }
    let whole: u128 = gx * ry2 + gy * rx2;
    let part: u128 = kx * ry2 + ky * rx2;
    let bound: u128 = rx2 * ry2;
    if whole > bound {
        false
    } else {
        (part + 63) / 64 <= bound - whole
    }
}

/// Counts the samples of pixel `(px, py)` that lie within the ellipse centred
/// at `(cx, cy)` with semi-axes `rx` and `ry`.
pub fn pixel_coverage(px: i32, py: i32, cx: i32, cy: i32, rx: i32, ry: i32) -> (count: u32)
    ensures
        count == coverage(px as int, py as int, cx as int, cy as int, rx as int, ry as int),
        count <= SAMPLES_PER_PIXEL,
{
    let ox: i64 = 8 * (px as i64 - cx as i64);
    let oy: i64 = 8 * (py as i64 - cy as i64);
    let mut count: u32 = 0;
    let mut si: i64 = 0;
    while si < 4
        invariant
            0 <= si <= 4,
            ox == 8 * (px - cx),
            oy == 8 * (py - cy),
            count == samples_inside(
                px as int,
                py as int,
                cx as int,
                cy as int,
                rx as int,
                ry as int,
                4 * si,
            ),
            count <= 4 * si,
        decreases 4 - si,
    {
        let mut sj: i64 = 0;
        while sj < 4
            invariant
                0 <= si < 4,
                0 <= sj <= 4,
                ox == 8 * (px - cx),
                oy == 8 * (py - cy),
                count == samples_inside(
                    px as int,
                    py as int,
                    cx as int,
                    cy as int,
                    rx as int,
                    ry as int,
                    4 * si + sj,
                ),
                count <= 4 * si + sj,
            decreases 4 - sj,
        {
            let dx: i64 = ox + 2 * si + 1;
            let dy: i64 = oy + 2 * sj + 1;
            assert((4 * si + sj) / 4 == si && (4 * si + sj) % 4 == sj);
            if sample_is_inside(dx, dy, rx, ry) {
                count = count + 1;
            }
            sj = sj + 1;
        }
        si = si + 1;
    }
    count
}

} // verus!
