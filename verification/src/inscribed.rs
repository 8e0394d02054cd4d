//! The ellipse inscribed in a canvas: centre and radii are half the width and
//! half the height, rounded down. Its middle is solid, the corners of the
//! canvas stay clear, and in between lies a blended edge.

use vstd::prelude::*;
use crate::color::{blue_of, green_of, red_of, OPAQUE};
use crate::coverage::{coverage, inside, sample_inside, sample_offset, sq};
use crate::shape::{
    lemma_both_radii_zero, lemma_coverage_extremes, lemma_inside_is_monotonic,
    lemma_one_radius_zero, lemma_shade_extremes, lemma_transpose,
};
use crate::texture::{is_ellipse, pixel, shaded, solid};

verus! {

proof fn lemma_square_grows(a: int, b: int)
    by (nonlinear_arith)
    requires
        0 <= a <= b || 0 <= -a <= b || 0 <= a <= -b || 0 <= -a <= -b,
    ensures
        sq(a) <= sq(b),
{
}

/// The sample of the centre pixel that is farthest from the centre is inside
/// unless a radius is 0 or both radii are 1.
proof fn lemma_centre_far_sample(rx: int, ry: int)
    requires
        1 <= rx,
        1 <= ry,
        3 <= rx + ry,
    ensures
        inside(7, 7, rx, ry),
{
    let a = sq(rx);
    let b = sq(ry);
    assert(sq(7) == 49) by (nonlinear_arith);
    assert(a >= 1 && b >= 1 && (a >= 4 || b >= 4)) by (nonlinear_arith)
        requires
            1 <= rx,
            1 <= ry,
            3 <= rx + ry,
            a == rx * rx,
            b == ry * ry,
    ;
    assert(49 * b + 49 * a <= 64 * (a * b)) by (nonlinear_arith)
        requires
            a >= 1,
            b >= 1,
            a >= 4 || b >= 4,
    ;
}

/// The sample of the corner pixel that is nearest to the centre is outside
/// once both radii are at least 3.
proof fn lemma_corner_near_sample(rx: int, ry: int)
    requires
        3 <= rx,
        3 <= ry,
    ensures
        !inside(8 * rx - 7, 8 * ry - 7, rx, ry),
{
    let p = rx * ry;
    let s = rx + ry;
    let t = 8 * p - 7 * s;
    let a2 = rx * rx;
    let b2 = ry * ry;
    // The test at the nearest sample, less its right-hand side, is t * t - 98 * p.
    assert(sq(8 * rx - 7) == 64 * a2 - 112 * rx + 49) by (nonlinear_arith)
        requires
            a2 == rx * rx,
    ;
    assert(sq(8 * ry - 7) == 64 * b2 - 112 * ry + 49) by (nonlinear_arith)
        requires
            b2 == ry * ry,
    ;
    assert((64 * a2 - 112 * rx + 49) * b2 == 64 * (a2 * b2) - 112 * (rx * b2) + 49 * b2)
        by (nonlinear_arith);
    assert((64 * b2 - 112 * ry + 49) * a2 == 64 * (a2 * b2) - 112 * (ry * a2) + 49 * a2)
        by (nonlinear_arith);
    assert(rx * b2 == p * ry) by (nonlinear_arith)
        requires
            p == rx * ry,
            b2 == ry * ry,
    ;
    assert(ry * a2 == p * rx) by (nonlinear_arith)
        requires
            p == rx * ry,
            a2 == rx * rx,
    ;
    assert(a2 * b2 == p * p) by (nonlinear_arith)
        requires
            p == rx * ry,
            a2 == rx * rx,
            b2 == ry * ry,
    ;
    assert(t * t == 64 * (p * p) - 112 * (p * s) + 49 * (s * s)) by (nonlinear_arith)
        requires
            t == 8 * p - 7 * s,
    ;
    assert(p * s == p * rx + p * ry) by (nonlinear_arith)
        requires
            s == rx + ry,
    ;
    assert(s * s == a2 + 2 * p + b2) by (nonlinear_arith)
        requires
            s == rx + ry,
            p == rx * ry,
            a2 == rx * rx,
            b2 == ry * ry,
    ;
    assert(sq(rx) == a2 && sq(ry) == b2);
    assert(sq(8 * rx - 7) * sq(ry) + sq(8 * ry - 7) * sq(rx) - 64 * (sq(rx) * sq(ry)) == t * t - 98
        * p);
    assert(p >= 3 * s - 9) by (nonlinear_arith)
        requires
            p == rx * ry,
            s == rx + ry,
            3 <= rx,
            3 <= ry,
    ;
    assert(3 * t >= 17 * p - 63);
    assert(p >= 9) by (nonlinear_arith)
        requires
            p == rx * ry,
            3 <= rx,
            3 <= ry,
    ;
    assert(t >= 30);
    assert(17 * (t * t) > 294 * t + 6174) by (nonlinear_arith)
        requires
            t >= 30,
    ;
    assert(1666 * p <= 294 * t + 6174);
    assert(17 * (t * t) > 1666 * p);
    assert(t * t > 98 * p);
}

/// Every pixel at or beyond a corner of the ellipse's bounding box is clear,
/// once both radii are at least 3.
pub proof fn lemma_beyond_the_corner(px: int, py: int, cx: int, cy: int, rx: int, ry: int)
    requires
        3 <= rx,
        3 <= ry,
        px <= cx - rx || cx + rx - 1 <= px,
        py <= cy - ry || cy + ry - 1 <= py,
    ensures
        coverage(px, py, cx, cy, rx, ry) == 0,
{
    lemma_corner_near_sample(rx, ry);
    assert forall|k: int| 0 <= k < 16 implies !sample_inside(px, py, k, cx, cy, rx, ry) by {
        let dx = sample_offset(px, k / 4, cx);
        let dy = sample_offset(py, k % 4, cy);
        lemma_square_grows(8 * rx - 7, dx);
        lemma_square_grows(8 * ry - 7, dy);
        if inside(dx, dy, rx, ry) {
            lemma_inside_is_monotonic(dx, dy, 8 * rx - 7, 8 * ry - 7, rx, ry);
        }
    }
    lemma_coverage_extremes(px, py, cx, cy, rx, ry);
}

/// The pixel at the centre of the inscribed ellipse is fully covered exactly
/// if both radii are at least 1 and not both are 1, or both are 0.
pub proof fn lemma_centre_coverage(rx: int, ry: int)
    requires
        0 <= rx,
        0 <= ry,
    ensures
        coverage(rx, ry, rx, ry, rx, ry) == 16 <==> (rx == 0 && ry == 0) || (1 <= rx && 1 <= ry
            && 3 <= rx + ry),
{
    lemma_coverage_extremes(rx, ry, rx, ry, rx, ry);
    if rx == 0 && ry == 0 {
        assert forall|k: int| 0 <= k < 16 implies sample_inside(rx, ry, k, rx, ry, rx, ry) by {
            lemma_both_radii_zero(sample_offset(rx, k / 4, rx), sample_offset(ry, k % 4, ry));
        }
    } else if rx == 0 || ry == 0 {
        lemma_one_radius_zero(1, 1, rx, ry);
        assert(!sample_inside(rx, ry, 0, rx, ry, rx, ry));
    } else if rx == 1 && ry == 1 {
        assert(!inside(7, 7, 1, 1)) by (nonlinear_arith);
        assert(!sample_inside(rx, ry, 15, rx, ry, rx, ry));
    } else {
        lemma_centre_far_sample(rx, ry);
        assert forall|k: int| 0 <= k < 16 implies sample_inside(rx, ry, k, rx, ry, rx, ry) by {
            let dx = sample_offset(rx, k / 4, rx);
            let dy = sample_offset(ry, k % 4, ry);
            lemma_square_grows(dx, 7);
            lemma_square_grows(dy, 7);
            lemma_inside_is_monotonic(7, 7, dx, dy, rx, ry);
        }
    }
}

/// The first pixel of the canvas is clear exactly if its sample nearest to the
/// centre is outside the inscribed ellipse, as it is once both radii are at
/// least 3.
pub proof fn lemma_corner_coverage(rx: int, ry: int)
    requires
        1 <= rx,
        1 <= ry,
    ensures
        coverage(0, 0, rx, ry, rx, ry) == 0 <==> !inside(8 * rx - 7, 8 * ry - 7, rx, ry),
        3 <= rx && 3 <= ry ==> coverage(0, 0, rx, ry, rx, ry) == 0,
{
    lemma_coverage_extremes(0, 0, rx, ry, rx, ry);
    if 3 <= rx && 3 <= ry {
        lemma_beyond_the_corner(0, 0, rx, ry, rx, ry);
    }
    assert(sq(7 - 8 * rx) == sq(8 * rx - 7) && sq(7 - 8 * ry) == sq(8 * ry - 7))
        by (nonlinear_arith);
    assert(sample_inside(0, 0, 15, rx, ry, rx, ry) == inside(7 - 8 * rx, 7 - 8 * ry, rx, ry));
    assert(inside(7 - 8 * rx, 7 - 8 * ry, rx, ry) == inside(8 * rx - 7, 8 * ry - 7, rx, ry));
    if !inside(8 * rx - 7, 8 * ry - 7, rx, ry) {
        assert forall|k: int| 0 <= k < 16 implies !sample_inside(0, 0, k, rx, ry, rx, ry) by {
            let dx = sample_offset(0, k / 4, rx);
            let dy = sample_offset(0, k % 4, ry);
            lemma_square_grows(8 * rx - 7, dx);
            lemma_square_grows(8 * ry - 7, dy);
            if inside(dx, dy, rx, ry) {
                lemma_inside_is_monotonic(dx, dy, 8 * rx - 7, 8 * ry - 7, rx, ry);
            }
        }
    }
}

/// Of the pixel in which the shorter axis of the inscribed ellipse meets the
/// edge of the canvas, the sample nearest to the centre is inside: it lies at
/// offset 1 along the longer axis and `8 * short - 7` along the shorter.
proof fn lemma_tip_sample(long: int, short: int)
    requires
        1 <= short <= long,
    ensures
        inside(1, 7 - 8 * short, long, short),
{
    let a = sq(long);
    let b = sq(short);
    assert(sq(1) == 1) by (nonlinear_arith);
    assert(sq(7 - 8 * short) == 64 * b - 112 * short + 49) by (nonlinear_arith)
        requires
            b == short * short,
    ;
    assert(b <= a) by (nonlinear_arith)
        requires
            1 <= short <= long,
            a == long * long,
            b == short * short,
    ;
    assert(short * a >= a && a >= 0) by (nonlinear_arith)
        requires
            1 <= short,
            a == long * long,
    ;
    assert((64 * b - 112 * short + 49) * a == 64 * (a * b) - 112 * (short * a) + 49 * a)
        by (nonlinear_arith);
}

/// Along the edge of the canvas that runs parallel to the longer axis, take
/// the pixel `m` pixels before the shorter axis and its neighbour towards that
/// axis. If the neighbour's first sample, its outermost, is inside the
/// inscribed ellipse, then so is the innermost sample of the pixel itself.
proof fn lemma_step_sample(m: int, long: int, short: int)
    requires
        1 <= m <= long,
        1 <= short <= long,
        inside(9 - 8 * m, 1 - 8 * short, long, short),
    ensures
        inside(7 - 8 * m, 7 - 8 * short, long, short),
{
    let a = sq(long);
    let b = sq(short);
    assert(sq(7 - 8 * m) == sq(9 - 8 * m) + 32 * (m - 1)) by (nonlinear_arith);
    assert(sq(1 - 8 * short) == sq(7 - 8 * short) + 96 * short - 48) by (nonlinear_arith);
    // 32 (m - 1) b <= 32 long b <= 32 short a <= (96 short - 48) a
    assert((m - 1) * b <= long * b) by (nonlinear_arith)
        requires
            m <= long,
            b == short * short,
    ;
    assert(long * b <= short * a) by (nonlinear_arith)
        requires
            1 <= short <= long,
            a == long * long,
            b == short * short,
    ;
    assert(32 * (short * a) <= (96 * short - 48) * a) by (nonlinear_arith)
        requires
            1 <= short,
            a == long * long,
    ;
    assert((sq(9 - 8 * m) + 32 * (m - 1)) * b == sq(9 - 8 * m) * b + 32 * ((m - 1) * b))
        by (nonlinear_arith);
    assert((sq(7 - 8 * short) + 96 * short - 48) * a == sq(7 - 8 * short) * a + (96 * short - 48)
        * a) by (nonlinear_arith);
}

/// Walking along the first row towards the axis of an ellipse that is at least
/// as wide as it is high: after a clear pixel comes a blended one.
proof fn lemma_walk_row(rx: int, ry: int, i: int) -> (x: int)
    requires
        1 <= ry <= rx,
        0 <= i < rx,
        coverage(i, 0, rx, ry, rx, ry) == 0,
    ensures
        i < x <= rx,
        0 < coverage(x, 0, rx, ry, rx, ry) < 16,
    decreases rx - i,
{
    lemma_coverage_extremes(i, 0, rx, ry, rx, ry);
    lemma_coverage_extremes(i + 1, 0, rx, ry, rx, ry);
    let next = coverage(i + 1, 0, rx, ry, rx, ry);
    if next == 16 {
        assert(sample_inside(i + 1, 0, 0, rx, ry, rx, ry));
        lemma_step_sample(rx - i, rx, ry);
        assert(sample_inside(i, 0, 15, rx, ry, rx, ry));
        i + 1
    } else if next == 0 {
        if i + 1 == rx {
            lemma_tip_sample(rx, ry);
            assert(sample_inside(rx, 0, 3, rx, ry, rx, ry));
        }
        lemma_walk_row(rx, ry, i + 1)
    } else {
        i + 1
    }
}

/// Walking down the first column towards the axis of an ellipse that is at
/// least as high as it is wide: after a clear pixel comes a blended one.
proof fn lemma_walk_column(rx: int, ry: int, j: int) -> (y: int)
    requires
        1 <= rx <= ry,
        0 <= j < ry,
        coverage(0, j, rx, ry, rx, ry) == 0,
    ensures
        j < y <= ry,
        0 < coverage(0, y, rx, ry, rx, ry) < 16,
    decreases ry - j,
{
    lemma_coverage_extremes(0, j, rx, ry, rx, ry);
    lemma_coverage_extremes(0, j + 1, rx, ry, rx, ry);
    let next = coverage(0, j + 1, rx, ry, rx, ry);
    if next == 16 {
        assert(sample_inside(0, j + 1, 0, rx, ry, rx, ry));
        lemma_transpose(1 - 8 * rx, 9 - 8 * (ry - j), rx, ry);
        lemma_step_sample(ry - j, ry, rx);
        lemma_transpose(7 - 8 * rx, 7 - 8 * (ry - j), rx, ry);
        assert(sample_inside(0, j, 15, rx, ry, rx, ry));
        j + 1
    } else if next == 0 {
        if j + 1 == ry {
            lemma_tip_sample(ry, rx);
            lemma_transpose(7 - 8 * rx, 1, rx, ry);
            assert(sample_inside(0, ry, 12, rx, ry, rx, ry));
        }
        lemma_walk_column(rx, ry, j + 1)
    } else {
        j + 1
    }
}

/// Once both radii are at least 3, some pixel of the canvas is covered in
/// part by the inscribed ellipse: neither clear nor solid.
pub proof fn lemma_blended_edge(width: int, height: int) -> (at: (int, int))
    requires
        3 <= width / 2,
        3 <= height / 2,
    ensures
        0 <= at.0 < width,
        0 <= at.1 < height,
        0 < coverage(at.0, at.1, width / 2, height / 2, width / 2, height / 2) < 16,
{
    let rx = width / 2;
    let ry = height / 2;
    lemma_beyond_the_corner(0, 0, rx, ry, rx, ry);
    if ry <= rx {
        (lemma_walk_row(rx, ry, 0), 0int)
    } else {
        (0int, lemma_walk_column(rx, ry, 0))
    }
}

/// `data` is a `width` x `height` image of the inscribed ellipse.
pub open spec fn is_inscribed_ellipse(data: Seq<u8>, width: int, height: int, color: u32) -> bool {
    is_ellipse(data, width, height, width / 2, height / 2, width / 2, height / 2, color)
}

/// The pixel at the centre of the inscribed ellipse is opaque and has the
/// drawing colour, on every canvas of at least 2 x 2 pixels but those of 2 or
/// 3 pixels both ways, and on the canvas of a single pixel.
pub proof fn lemma_centre_is_solid(data: Seq<u8>, width: int, height: int, color: u32)
    requires
        is_inscribed_ellipse(data, width, height, color),
        (width == 1 && height == 1) || (2 <= width && 2 <= height && (4 <= width || 4 <= height)),
    ensures
        pixel(data, width, width / 2, height / 2) == solid(color),
{
    lemma_centre_coverage(width / 2, height / 2);
    lemma_shade_extremes(red_of(color), 16);
    lemma_shade_extremes(green_of(color), 16);
    lemma_shade_extremes(blue_of(color), 16);
    lemma_shade_extremes(OPAQUE, 16);
    assert(pixel(data, width, width / 2, height / 2) == shaded(color, 16));
}

/// The four corners of the canvas are transparent black once both radii of
/// the inscribed ellipse are at least 3.
pub proof fn lemma_corners_are_clear(data: Seq<u8>, width: int, height: int, color: u32)
    requires
        is_inscribed_ellipse(data, width, height, color),
        3 <= width / 2,
        3 <= height / 2,
    ensures
        pixel(data, width, 0, 0) == (0u8, 0u8, 0u8, 0u8),
        pixel(data, width, width - 1, 0) == (0u8, 0u8, 0u8, 0u8),
        pixel(data, width, 0, height - 1) == (0u8, 0u8, 0u8, 0u8),
        pixel(data, width, width - 1, height - 1) == (0u8, 0u8, 0u8, 0u8),
{
    let rx = width / 2;
    let ry = height / 2;
    lemma_beyond_the_corner(0, 0, rx, ry, rx, ry);
    lemma_beyond_the_corner(width - 1, 0, rx, ry, rx, ry);
    lemma_beyond_the_corner(0, height - 1, rx, ry, rx, ry);
    lemma_beyond_the_corner(width - 1, height - 1, rx, ry, rx, ry);
    lemma_shade_extremes(red_of(color), 0);
    lemma_shade_extremes(green_of(color), 0);
    lemma_shade_extremes(blue_of(color), 0);
    lemma_shade_extremes(OPAQUE, 0);
    assert(pixel(data, width, 0, 0) == shaded(color, 0));
    assert(pixel(data, width, width - 1, 0) == shaded(color, 0));
    assert(pixel(data, width, 0, height - 1) == shaded(color, 0));
    assert(pixel(data, width, width - 1, height - 1) == shaded(color, 0));
}

/// Once both radii of the inscribed ellipse are at least 3, some pixel of the
/// canvas has an alpha strictly between 0 and 255.
pub proof fn lemma_edge_is_blended(data: Seq<u8>, width: int, height: int, color: u32) -> (at: (
    int,
    int,
))
    requires
        is_inscribed_ellipse(data, width, height, color),
        3 <= width / 2,
        3 <= height / 2,
    ensures
        0 <= at.0 < width,
        0 <= at.1 < height,
        0 < pixel(data, width, at.0, at.1).3 < 255,
{
    let at = lemma_blended_edge(width, height);
    let count = coverage(at.0, at.1, width / 2, height / 2, width / 2, height / 2);
    lemma_shade_extremes(OPAQUE, count);
    assert(pixel(data, width, at.0, at.1) == shaded(color, count));
    at
}

} // verus!
