//! What holds of the membership test and of the coverage of a pixel, whatever
//! the ellipse.

use vstd::prelude::*;
use crate::coverage::{
    coverage, inside, sample_inside, sample_offset, samples_inside, shade, sq,
};

verus! {

/// An ellipse depends on its radii through their magnitudes only.
pub proof fn lemma_negative_radius(dx: int, dy: int, rx: int, ry: int)
    ensures
        inside(dx, dy, -rx, ry) == inside(dx, dy, rx, ry),
        inside(dx, dy, rx, -ry) == inside(dx, dy, rx, ry),
        inside(dx, dy, -rx, -ry) == inside(dx, dy, rx, ry),
{
    assert(sq(-rx) == sq(rx)) by (nonlinear_arith);
    assert(sq(-ry) == sq(ry)) by (nonlinear_arith);
}

/// The membership test treats the two axes alike.
pub proof fn lemma_transpose(dx: int, dy: int, rx: int, ry: int)
    ensures
        inside(dy, dx, ry, rx) == inside(dx, dy, rx, ry),
{
    assert(sq(rx) * sq(ry) == sq(ry) * sq(rx)) by (nonlinear_arith);
}

/// A point nearer to the centre along both axes than a point of the ellipse
/// belongs to the ellipse too.
pub proof fn lemma_inside_is_monotonic(dx: int, dy: int, ex: int, ey: int, rx: int, ry: int)
    requires
        sq(ex) <= sq(dx),
        sq(ey) <= sq(dy),
        inside(dx, dy, rx, ry),
    ensures
        inside(ex, ey, rx, ry),
{
    assert(0 <= sq(rx) && 0 <= sq(ry)) by (nonlinear_arith);
    assert(sq(ex) * sq(ry) <= sq(dx) * sq(ry)) by (nonlinear_arith)
        requires
            sq(ex) <= sq(dx),
            0 <= sq(ry),
    ;
    assert(sq(ey) * sq(rx) <= sq(dy) * sq(rx)) by (nonlinear_arith)
        requires
            sq(ey) <= sq(dy),
            0 <= sq(rx),
    ;
}

/// With exactly one radius 0 the ellipse has no point off its other axis, so
/// it holds no sample: a sample is never on an axis through the centre.
pub proof fn lemma_one_radius_zero(dx: int, dy: int, rx: int, ry: int)
    requires
        (rx == 0) != (ry == 0),
        dx != 0,
        dy != 0,
    ensures
        !inside(dx, dy, rx, ry),
{
    assert(dx != 0 ==> sq(dx) > 0) by (nonlinear_arith);
    assert(dy != 0 ==> sq(dy) > 0) by (nonlinear_arith);
    assert(rx != 0 ==> sq(rx) > 0) by (nonlinear_arith);
    assert(ry != 0 ==> sq(ry) > 0) by (nonlinear_arith);
    assert(sq(0) == 0);
    if rx == 0 {
        assert(sq(dx) * sq(ry) > 0) by (nonlinear_arith)
            requires
                sq(dx) > 0,
                sq(ry) > 0,
        ;
        assert(sq(dy) * sq(rx) == 0) by (nonlinear_arith)
            requires
                sq(rx) == 0,
        ;
        assert(sq(rx) * sq(ry) == 0) by (nonlinear_arith)
            requires
                sq(rx) == 0,
        ;
    } else {
        assert(sq(dy) * sq(rx) > 0) by (nonlinear_arith)
            requires
                sq(dy) > 0,
                sq(rx) > 0,
        ;
        assert(sq(dx) * sq(ry) == 0) by (nonlinear_arith)
            requires
                sq(ry) == 0,
        ;
        assert(sq(rx) * sq(ry) == 0) by (nonlinear_arith)
            requires
                sq(ry) == 0,
        ;
    }
}

/// With both radii 0 the test compares 0 with 0, and every point passes.
pub proof fn lemma_both_radii_zero(dx: int, dy: int)
    ensures
        inside(dx, dy, 0, 0),
{
    assert(sq(0) == 0);
    assert(sq(dx) * 0 == 0 && sq(dy) * 0 == 0) by (nonlinear_arith);
}

/// Among the first `n` samples, one that is inside makes the count positive
/// and one that is outside keeps it below `n`.
pub proof fn lemma_count_of_one_sample(
    px: int,
    py: int,
    cx: int,
    cy: int,
    rx: int,
    ry: int,
    n: int,
    k: int,
)
    requires
        0 <= k < n,
    ensures
        0 <= samples_inside(px, py, cx, cy, rx, ry, n) <= n,
        sample_inside(px, py, k, cx, cy, rx, ry) ==> samples_inside(px, py, cx, cy, rx, ry, n)
            >= 1,
        !sample_inside(px, py, k, cx, cy, rx, ry) ==> samples_inside(px, py, cx, cy, rx, ry, n)
            <= n - 1,
    decreases n,
{
    crate::coverage::lemma_samples_inside_bounds(px, py, cx, cy, rx, ry, n - 1);
    if k < n - 1 {
        lemma_count_of_one_sample(px, py, cx, cy, rx, ry, n - 1, k);
    }
}

/// If all of the first `n` samples are inside the count is `n`; if none is,
/// the count is 0.
pub proof fn lemma_count_of_like_samples(
    px: int,
    py: int,
    cx: int,
    cy: int,
    rx: int,
    ry: int,
    n: int,
)
    requires
        0 <= n,
    ensures
        (forall|k: int| 0 <= k < n ==> sample_inside(px, py, k, cx, cy, rx, ry))
            ==> samples_inside(px, py, cx, cy, rx, ry, n) == n,
        (forall|k: int| 0 <= k < n ==> !sample_inside(px, py, k, cx, cy, rx, ry))
            ==> samples_inside(px, py, cx, cy, rx, ry, n) == 0,
    decreases n,
{
    if n > 0 {
        lemma_count_of_like_samples(px, py, cx, cy, rx, ry, n - 1);
    }
}

/// A pixel has coverage 16 exactly if all its samples are inside, and
/// coverage 0 exactly if none is.
pub proof fn lemma_coverage_extremes(px: int, py: int, cx: int, cy: int, rx: int, ry: int)
    ensures
        0 <= coverage(px, py, cx, cy, rx, ry) <= 16,
        coverage(px, py, cx, cy, rx, ry) == 16 <==> (forall|k: int|
            0 <= k < 16 ==> sample_inside(px, py, k, cx, cy, rx, ry)),
        coverage(px, py, cx, cy, rx, ry) == 0 <==> (forall|k: int|
            0 <= k < 16 ==> !sample_inside(px, py, k, cx, cy, rx, ry)),
{
    crate::coverage::lemma_samples_inside_bounds(px, py, cx, cy, rx, ry, 16);
    lemma_count_of_like_samples(px, py, cx, cy, rx, ry, 16);
    assert forall|k: int| 0 <= k < 16 implies (coverage(px, py, cx, cy, rx, ry) == 16
        ==> sample_inside(px, py, k, cx, cy, rx, ry)) && (coverage(px, py, cx, cy, rx, ry) == 0
        ==> !sample_inside(px, py, k, cx, cy, rx, ry)) by {
        lemma_count_of_one_sample(px, py, cx, cy, rx, ry, 16, k);
    }
}

proof fn lemma_count_with_negative_radius(
    px: int,
    py: int,
    cx: int,
    cy: int,
    rx: int,
    ry: int,
    n: int,
)
    ensures
        samples_inside(px, py, cx, cy, -rx, ry, n) == samples_inside(px, py, cx, cy, rx, ry, n),
        samples_inside(px, py, cx, cy, rx, -ry, n) == samples_inside(px, py, cx, cy, rx, ry, n),
        samples_inside(px, py, cx, cy, -rx, -ry, n) == samples_inside(px, py, cx, cy, rx, ry, n),
    decreases n,
{
    if n > 0 {
        lemma_count_with_negative_radius(px, py, cx, cy, rx, ry, n - 1);
        lemma_negative_radius(
            sample_offset(px, (n - 1) / 4, cx),
            sample_offset(py, (n - 1) % 4, cy),
            rx,
            ry,
        );
    }
}

/// An ellipse covers every pixel as the ellipse with the magnitudes of its
/// radii does.
pub proof fn lemma_coverage_with_negative_radius(
    px: int,
    py: int,
    cx: int,
    cy: int,
    rx: int,
    ry: int,
)
    ensures
        coverage(px, py, cx, cy, -rx, ry) == coverage(px, py, cx, cy, rx, ry),
        coverage(px, py, cx, cy, rx, -ry) == coverage(px, py, cx, cy, rx, ry),
        coverage(px, py, cx, cy, -rx, -ry) == coverage(px, py, cx, cy, rx, ry),
{
    lemma_count_with_negative_radius(px, py, cx, cy, rx, ry, 16);
}

/// An ellipse of which exactly one radius is 0 covers no pixel; with both
/// radii 0 the test passes everywhere and every pixel is covered in full.
pub proof fn lemma_coverage_with_radius_zero(px: int, py: int, cx: int, cy: int, rx: int, ry: int)
    requires
        rx == 0 || ry == 0,
    ensures
        rx == 0 && ry == 0 ==> coverage(px, py, cx, cy, rx, ry) == 16,
        rx != 0 || ry != 0 ==> coverage(px, py, cx, cy, rx, ry) == 0,
{
    lemma_coverage_extremes(px, py, cx, cy, rx, ry);
    if rx == 0 && ry == 0 {
        assert forall|k: int| 0 <= k < 16 implies sample_inside(px, py, k, cx, cy, rx, ry) by {
            lemma_both_radii_zero(sample_offset(px, k / 4, cx), sample_offset(py, k % 4, cy));
        }
    } else {
        assert forall|k: int| 0 <= k < 16 implies !sample_inside(px, py, k, cx, cy, rx, ry) by {
            lemma_one_radius_zero(
                sample_offset(px, k / 4, cx),
                sample_offset(py, k % 4, cy),
                rx,
                ry,
            );
        }
    }
}

/// A pixel of coverage 16 takes the drawing colour with full alpha, a pixel of
/// coverage 0 is transparent black, and any other pixel has an alpha strictly
/// between 0 and 255.
pub proof fn lemma_shade_extremes(channel: u8, count: int)
    requires
        0 <= count <= 16,
    ensures
        shade(channel, 16) == channel,
        shade(channel, 0) == 0,
        0 < count < 16 ==> 0 < shade(255, count) < 255,
        shade(255, count) == 255 <==> count == 16,
        shade(255, count) == 0 <==> count == 0,
{
    assert(channel as int * 16 / 16 == channel as int);
    assert(channel as int * 0 == 0);
}

} // verus!
