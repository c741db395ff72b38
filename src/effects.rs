//! Redaction effects confined to a rectangle: pixelation (block averages)
//! and box blur (window averages read from an untouched snapshot).

use crate::geometry::{clamp_int, max_int, min_int, span, Rect};
use crate::pixels::{lemma_image_ext, lemma_paint_at, lemma_remap_at, remap, Image, ImageView, Rgba};
use vstd::arithmetic::div_mod::{
    lemma_div_is_ordered, lemma_div_pos_is_pos, lemma_fundamental_div_mod_converse_div,
};
use vstd::prelude::*;

verus! {

/// Largest blur radius; larger requests are cut down to it.
pub const MAX_BLUR_RADIUS: u32 = 12;

/// Sum of channel `ch` over the pixels `x0 ..< x1` of row `y`.
pub open spec fn row_sum(img: ImageView, y: int, x0: int, x1: int, ch: int) -> int
    decreases x1 - x0,
{
    if x1 <= x0 {
        0
    } else {
        row_sum(img, y, x0, x1 - 1, ch) + img.at(x1 - 1, y).channel(ch)
    }
}

/// Sum of channel `ch` over the box `[x0, x1) × [y0, y1)`.
pub open spec fn box_sum(img: ImageView, x0: int, x1: int, y0: int, y1: int, ch: int) -> int
    decreases y1 - y0,
{
    if y1 <= y0 {
        0
    } else {
        box_sum(img, x0, x1, y0, y1 - 1, ch) + row_sum(img, y1 - 1, x0, x1, ch)
    }
}

/// The channel-wise mean of a non-empty box, each channel rounded down.
pub open spec fn box_mean(img: ImageView, x0: int, x1: int, y0: int, y1: int) -> Rgba {
    let n = (x1 - x0) * (y1 - y0);
    Rgba {
        r: (box_sum(img, x0, x1, y0, y1, 0) / n) as u8,
        g: (box_sum(img, x0, x1, y0, y1, 1) / n) as u8,
        b: (box_sum(img, x0, x1, y0, y1, 2) / n) as u8,
        a: (box_sum(img, x0, x1, y0, y1, 3) / n) as u8,
    }
}

proof fn lemma_channel_bound(p: Rgba, ch: int)
    ensures
        0 <= p.channel(ch) <= 255,
{
}

pub proof fn lemma_row_sum_bound(img: ImageView, y: int, x0: int, x1: int, ch: int)
    requires
        x0 <= x1,
    ensures
        0 <= row_sum(img, y, x0, x1, ch) <= 255 * (x1 - x0),
    decreases x1 - x0,
{
    if x1 > x0 {
        lemma_row_sum_bound(img, y, x0, x1 - 1, ch);
        lemma_channel_bound(img.at(x1 - 1, y), ch);
    }
}

pub proof fn lemma_box_sum_bound(img: ImageView, x0: int, x1: int, y0: int, y1: int, ch: int)
    requires
        x0 <= x1,
        y0 <= y1,
    ensures
        0 <= box_sum(img, x0, x1, y0, y1, ch) <= 255 * ((x1 - x0) * (y1 - y0)),
    decreases y1 - y0,
{
    if y1 > y0 {
        lemma_box_sum_bound(img, x0, x1, y0, y1 - 1, ch);
        lemma_row_sum_bound(img, y1 - 1, x0, x1, ch);
        assert((x1 - x0) * (y1 - y0) == (x1 - x0) * (y1 - 1 - y0) + (x1 - x0)) by (nonlinear_arith);
    } else {
        assert((x1 - x0) * (y1 - y0) == 0) by (nonlinear_arith)
            requires
                y1 == y0,
        ;
    }
}

/// Sums over a box depend only on the pixels inside it.
pub proof fn lemma_box_sum_local(a: ImageView, b: ImageView, x0: int, x1: int, y0: int, y1: int, ch: int)
    requires
        forall|x: int, y: int| x0 <= x < x1 && y0 <= y < y1 ==> #[trigger] a.at(x, y) == b.at(x, y),
    ensures
        box_sum(a, x0, x1, y0, y1, ch) == box_sum(b, x0, x1, y0, y1, ch),
    decreases y1 - y0,
{
    if y1 > y0 {
        lemma_box_sum_local(a, b, x0, x1, y0, y1 - 1, ch);
        lemma_row_sum_local(a, b, y1 - 1, x0, x1, ch);
    }
}

proof fn lemma_row_sum_local(a: ImageView, b: ImageView, y: int, x0: int, x1: int, ch: int)
    requires
        forall|x: int| x0 <= x < x1 ==> #[trigger] a.at(x, y) == b.at(x, y),
    ensures
        row_sum(a, y, x0, x1, ch) == row_sum(b, y, x0, x1, ch),
    decreases x1 - x0,
{
    if x1 > x0 {
        lemma_row_sum_local(a, b, y, x0, x1 - 1, ch);
    }
}

proof fn lemma_mean_fits(s: int, n: int)
    requires
        0 <= s <= 255 * n,
        0 < n,
    ensures
        0 <= s / n <= 255,
{
    lemma_div_pos_is_pos(s, n);
    lemma_div_is_ordered(s, 255 * n, n);
    vstd::arithmetic::div_mod::lemma_div_by_multiple(255, n);
}

/// The channel-wise mean of the pixels of a non-empty box.
pub fn box_average(img: &Image, x0: u32, x1: u32, y0: u32, y1: u32) -> (c: Rgba)
    requires
        img.wf(),
        x0 < x1 <= img@.width,
        y0 < y1 <= img@.height,
    ensures
        c == box_mean(img@, x0 as int, x1 as int, y0 as int, y1 as int),
{
    let mut sr: u128 = 0;
    let mut sg: u128 = 0;
    let mut sb: u128 = 0;
    let mut sa: u128 = 0;
    let mut y: u32 = y0;
    while y < y1
        invariant
            img.wf(),
            x0 < x1 <= img@.width,
            y0 <= y <= y1 <= img@.height,
            sr == box_sum(img@, x0 as int, x1 as int, y0 as int, y as int, 0),
            sg == box_sum(img@, x0 as int, x1 as int, y0 as int, y as int, 1),
            sb == box_sum(img@, x0 as int, x1 as int, y0 as int, y as int, 2),
            sa == box_sum(img@, x0 as int, x1 as int, y0 as int, y as int, 3),
        decreases y1 - y,
    {
        let mut rr: u128 = 0;
        let mut rg: u128 = 0;
        let mut rb: u128 = 0;
        let mut ra: u128 = 0;
        let mut x: u32 = x0;
        while x < x1
            invariant
                img.wf(),
                x0 <= x <= x1 <= img@.width,
                y0 <= y < y1 <= img@.height,
                rr == row_sum(img@, y as int, x0 as int, x as int, 0),
                rg == row_sum(img@, y as int, x0 as int, x as int, 1),
                rb == row_sum(img@, y as int, x0 as int, x as int, 2),
                ra == row_sum(img@, y as int, x0 as int, x as int, 3),
            decreases x1 - x,
        {
            proof {
                lemma_row_sum_bound(img@, y as int, x0 as int, x as int, 0);
                lemma_row_sum_bound(img@, y as int, x0 as int, x as int, 1);
                lemma_row_sum_bound(img@, y as int, x0 as int, x as int, 2);
                lemma_row_sum_bound(img@, y as int, x0 as int, x as int, 3);
            }
            let p = img.get_pixel(x, y);
            rr = rr + p.r as u128;
            rg = rg + p.g as u128;
            rb = rb + p.b as u128;
            ra = ra + p.a as u128;
            x = x + 1;
        }
        proof {
            lemma_box_sum_bound(img@, x0 as int, x1 as int, y0 as int, y as int, 0);
            lemma_box_sum_bound(img@, x0 as int, x1 as int, y0 as int, y as int, 1);
            lemma_box_sum_bound(img@, x0 as int, x1 as int, y0 as int, y as int, 2);
            lemma_box_sum_bound(img@, x0 as int, x1 as int, y0 as int, y as int, 3);
            lemma_row_sum_bound(img@, y as int, x0 as int, x1 as int, 0);
            lemma_row_sum_bound(img@, y as int, x0 as int, x1 as int, 1);
            lemma_row_sum_bound(img@, y as int, x0 as int, x1 as int, 2);
            lemma_row_sum_bound(img@, y as int, x0 as int, x1 as int, 3);
            assert(255 * ((x1 - x0) * (y - y0)) <= 255 * 0x1_0000_0000 * 0x1_0000_0000) by (nonlinear_arith)
                requires
                    0 <= x1 - x0 <= 0x1_0000_0000,
                    0 <= y - y0 <= 0x1_0000_0000,
            ;
        }
        sr = sr + rr;
        sg = sg + rg;
        sb = sb + rb;
        sa = sa + ra;
        y = y + 1;
    }
    assert((x1 - x0) * (y1 - y0) <= 0x1_0000_0000 * 0x1_0000_0000) by (nonlinear_arith)
        requires
            0 <= x1 - x0 <= 0x1_0000_0000,
            0 <= y1 - y0 <= 0x1_0000_0000,
    ;
    let n: u128 = (x1 - x0) as u128 * (y1 - y0) as u128;
    proof {
        assert(0 < (x1 - x0) * (y1 - y0)) by (nonlinear_arith)
            requires
                x0 < x1,
                y0 < y1,
        ;
        lemma_box_sum_bound(img@, x0 as int, x1 as int, y0 as int, y1 as int, 0);
        lemma_box_sum_bound(img@, x0 as int, x1 as int, y0 as int, y1 as int, 1);
        lemma_box_sum_bound(img@, x0 as int, x1 as int, y0 as int, y1 as int, 2);
        lemma_box_sum_bound(img@, x0 as int, x1 as int, y0 as int, y1 as int, 3);
        lemma_mean_fits(sr as int, n as int);
        lemma_mean_fits(sg as int, n as int);
        lemma_mean_fits(sb as int, n as int);
        lemma_mean_fits(sa as int, n as int);
    }
    Rgba { r: (sr / n) as u8, g: (sg / n) as u8, b: (sb / n) as u8, a: (sa / n) as u8 }
}


/// `d / b == j` exactly when `d` lies in the `j`-th run of `b` values.
proof fn lemma_div_range(d: int, b: int, j: int)
    requires
        0 <= d,
        0 < b,
    ensures
        (d / b == j) == (j * b <= d < j * b + b),
{
    vstd::arithmetic::div_mod::lemma_fundamental_div_mod(d, b);
    assert(b * (d / b) == (d / b) * b) by (nonlinear_arith);
    if j * b <= d < j * b + b {
        lemma_fundamental_div_mod_converse_div(d, b, j, d - j * b);
    }
}

/// The part of `rect` (normalized) that lies inside a `w × h` image, as
/// `(x0, y0, x1, y1)`; it is empty when `x1 <= x0` or `y1 <= y0`.
pub open spec fn effect_bounds(w: int, h: int, rect: Rect) -> (int, int, int, int) {
    let r = span(rect.min, rect.max);
    (clamp_int(r.min.x as int, 0, w), clamp_int(r.min.y as int, 0, h), clamp_int(r.max.x as int, 0, w), clamp_int(r.max.y as int, 0, h))
}

/// First coordinate of the `b`-wide cell, counted from `lo`, that holds `v`.
pub open spec fn cell_lo(v: int, lo: int, b: int) -> int {
    lo + ((v - lo) / b) * b
}

/// Pixelation of the region `[x0, x1) × [y0, y1)`: it is cut into `b × b`
/// cells from its top-left corner (cells at the far edges are cut short)
/// and every pixel of a cell takes the cell's mean colour.
pub open spec fn pixelate_spec(img: ImageView, x0: int, y0: int, x1: int, y1: int, b: int) -> ImageView {
    remap(img, |x: int, y: int| pixelated_at(img, x0, y0, x1, y1, b, x, y))
}

/// What pixelation leaves at pixel `(x, y)`.
pub open spec fn pixelated_at(img: ImageView, x0: int, y0: int, x1: int, y1: int, b: int, x: int, y: int) -> Rgba {
    if x0 <= x < x1 && y0 <= y < y1 {
        let cx = cell_lo(x, x0, b);
        let cy = cell_lo(y, y0, b);
        box_mean(img, cx, min_int(cx + b, x1), cy, min_int(cy + b, y1))
    } else {
        img.at(x, y)
    }
}

/// Pixelates the region `[x0, x1) × [y0, y1)` with `block × block` cells.
pub fn pixelate_region(img: &mut Image, x0: u32, y0: u32, x1: u32, y1: u32, block: u32)
    requires
        old(img).wf(),
        x1 <= old(img)@.width,
        y1 <= old(img)@.height,
        block >= 1,
    ensures
        final(img).wf(),
        final(img)@ == pixelate_spec(old(img)@, x0 as int, y0 as int, x1 as int, y1 as int, block as int),
{
    let ghost start = img@;
    let ghost b = block as int;
    let mut cy: u64 = y0 as u64;
    let ghost mut jy: int = 0;
    while cy < y1 as u64
        invariant
            img.wf(),
            img@.same_size(start),
            x1 <= start.width,
            y1 <= start.height,
            b == block,
            b >= 1,
            0 <= jy,
            cy == y0 + jy * b,
            jy == 0 || cy < y1 + b,
            forall|x: int, y: int|
                start.inside(x, y) ==> #[trigger] img@.at(x, y) == (if x0 <= x < x1 && y0 <= y < y1
                    && (y - y0) / b < jy {
                    pixelated_at(start, x0 as int, y0 as int, x1 as int, y1 as int, b, x, y)
                } else {
                    start.at(x, y)
                }),
        decreases y1 + b - cy,
    {
        let ey: u32 = if cy + (block as u64) < y1 as u64 { (cy + block as u64) as u32 } else { y1 };
        let mut cx: u64 = x0 as u64;
        let ghost mut jx: int = 0;
        while cx < x1 as u64
            invariant
                img.wf(),
                img@.same_size(start),
                x1 <= start.width,
                y1 <= start.height,
                b == block,
                b >= 1,
                0 <= jy,
                0 <= jx,
                cy == y0 + jy * b,
                cy < y1,
                ey == min_int(cy + b, y1 as int),
                cx == x0 + jx * b,
                jx == 0 || cx < x1 + b,
                forall|x: int, y: int|
                    start.inside(x, y) ==> #[trigger] img@.at(x, y) == (if x0 <= x < x1 && y0 <= y
                        < y1 && ((y - y0) / b < jy || ((y - y0) / b == jy && (x - x0) / b < jx)) {
                        pixelated_at(start, x0 as int, y0 as int, x1 as int, y1 as int, b, x, y)
                    } else {
                        start.at(x, y)
                    }),
            decreases x1 + b - cx,
        {
            let ex: u32 = if cx + (block as u64) < x1 as u64 { (cx + block as u64) as u32 } else { x1 };
            assert(ex == min_int(cx + b, x1 as int));
            proof {
                assert forall|x: int, y: int| cx <= x < ex && cy <= y < ey implies #[trigger] img@.at(x, y)
                    == start.at(x, y) by {
                    lemma_div_range(x - x0, b, jx);
                    lemma_div_range(y - y0, b, jy);
                    assert(jx * b <= x - x0);
                    assert(x - x0 < jx * b + b);
                }
                lemma_box_sum_local(img@, start, cx as int, ex as int, cy as int, ey as int, 0);
                lemma_box_sum_local(img@, start, cx as int, ex as int, cy as int, ey as int, 1);
                lemma_box_sum_local(img@, start, cx as int, ex as int, cy as int, ey as int, 2);
                lemma_box_sum_local(img@, start, cx as int, ex as int, cy as int, ey as int, 3);
            }
            let avg = box_average(img, cx as u32, ex, cy as u32, ey);
            assert(avg == box_mean(start, cx as int, ex as int, cy as int, ey as int));
            let ghost before = img@;
            img.fill_rect(cx as i128, cy as i128, ex as i128, ey as i128, avg);
            proof {
                assert forall|x: int, y: int| start.inside(x, y) implies #[trigger] img@.at(x, y) == (
                if x0 <= x < x1 && y0 <= y < y1 && ((y - y0) / b < jy || ((y - y0) / b == jy && (x
                    - x0) / b < jx + 1)) {
                    pixelated_at(start, x0 as int, y0 as int, x1 as int, y1 as int, b, x, y)
                } else {
                    start.at(x, y)
                }) by {
                    lemma_paint_at(
                        before,
                        |qx: int, qy: int| cx <= qx < ex && cy <= qy < ey,
                        avg,
                        x,
                        y,
                    );
                    if x0 <= x < x1 && y0 <= y < y1 {
                        lemma_div_range(x - x0, b, jx);
                        lemma_div_range(y - y0, b, jy);
                        if (x - x0) / b == jx && (y - y0) / b == jy {
                            assert(cell_lo(x, x0 as int, b) == cx);
                            assert(cell_lo(y, y0 as int, b) == cy);
                            assert(pixelated_at(start, x0 as int, y0 as int, x1 as int, y1 as int, b, x, y) == box_mean(
                                start,
                                cx as int,
                                min_int(cx + b, x1 as int),
                                cy as int,
                                min_int(cy + b, y1 as int),
                            ));
                            assert(pixelated_at(start, x0 as int, y0 as int, x1 as int, y1 as int, b, x, y) == avg);
                        }
                    }
                }
            }
            cx = cx + block as u64;
            proof {
                jx = jx + 1;
                assert(cx == x0 + jx * b) by (nonlinear_arith)
                    requires
                        cx == x0 + (jx - 1) * b + b,
                ;
            }
        }
        proof {
            assert forall|x: int, y: int| start.inside(x, y) implies #[trigger] img@.at(x, y) == (if x0
                <= x < x1 && y0 <= y < y1 && (y - y0) / b < jy + 1 {
                pixelated_at(start, x0 as int, y0 as int, x1 as int, y1 as int, b, x, y)
            } else {
                start.at(x, y)
            }) by {
                if x0 <= x < x1 && y0 <= y < y1 {
                    lemma_div_range(x - x0, b, jx);
                    lemma_div_range(y - y0, b, jy);
                    vstd::arithmetic::div_mod::lemma_fundamental_div_mod(x - x0, b);
                    lemma_div_pos_is_pos(x - x0, b);
                    if (x - x0) / b >= jx {
                        assert(((x - x0) / b) * b >= jx * b) by (nonlinear_arith)
                            requires
                                (x - x0) / b >= jx,
                                b >= 1,
                        ;
                        assert(b * ((x - x0) / b) == ((x - x0) / b) * b) by (nonlinear_arith);
                    }
                }
            }
        }
        cy = cy + block as u64;
        proof {
            jy = jy + 1;
            assert(cy == y0 + jy * b) by (nonlinear_arith)
                requires
                    cy == y0 + (jy - 1) * b + b,
            ;
        }
    }
    proof {
        let target = pixelate_spec(start, x0 as int, y0 as int, x1 as int, y1 as int, b);
        assert forall|x: int, y: int| img@.inside(x, y) implies #[trigger] img@.at(x, y) == target.at(
            x,
            y,
        ) by {
            lemma_remap_at(
                start,
                |x: int, y: int| pixelated_at(start, x0 as int, y0 as int, x1 as int, y1 as int, b, x, y),
                x,
                y,
            );
            if x0 <= x < x1 && y0 <= y < y1 {
                lemma_div_pos_is_pos(y - y0, b);
                vstd::arithmetic::div_mod::lemma_fundamental_div_mod(y - y0, b);
                if (y - y0) / b >= jy {
                    assert(((y - y0) / b) * b >= jy * b) by (nonlinear_arith)
                        requires
                            (y - y0) / b >= jy,
                            b >= 1,
                    ;
                    assert(b * ((y - y0) / b) == ((y - y0) / b) * b) by (nonlinear_arith);
                }
            }
        }
        lemma_image_ext(img@, target);
    }
}


/// The blur window along one axis for coordinate `v` of a region
/// `[lo, hi)`: from `v - r` up to `v + r`, clipped to the region; as a
/// half-open range.
pub open spec fn blur_window(v: int, r: int, lo: int, hi: int) -> (int, int) {
    (max_int(v - r, lo), min_int(v + r, hi - 1) + 1)
}

/// The radius a blur uses: at least one, at most `MAX_BLUR_RADIUS`.
pub open spec fn blur_strength(radius: int) -> int {
    min_int(max_int(radius, 1), MAX_BLUR_RADIUS as int)
}

/// What the box blur leaves at pixel `(x, y)`: inside the region, the mean
/// of the window around it in `img`, the image as it was before the pass.
pub open spec fn blurred_at(img: ImageView, x0: int, y0: int, x1: int, y1: int, r: int, x: int, y: int) -> Rgba {
    if x0 <= x < x1 && y0 <= y < y1 {
        let (wx0, wx1) = blur_window(x, r, x0, x1);
        let (wy0, wy1) = blur_window(y, r, y0, y1);
        box_mean(img, wx0, wx1, wy0, wy1)
    } else {
        img.at(x, y)
    }
}

/// Box blur of the region `[x0, x1) × [y0, y1)` with radius `r`.
pub open spec fn blur_spec(img: ImageView, x0: int, y0: int, x1: int, y1: int, r: int) -> ImageView {
    remap(img, |x: int, y: int| blurred_at(img, x0, y0, x1, y1, r, x, y))
}

/// Blurs the region `[x0, x1) × [y0, y1)` with a box of radius `radius`,
/// reading every window from a copy taken before the first write.
pub fn blur_region(img: &mut Image, x0: u32, y0: u32, x1: u32, y1: u32, radius: u32)
    requires
        old(img).wf(),
        x1 <= old(img)@.width,
        y1 <= old(img)@.height,
    ensures
        final(img).wf(),
        final(img)@ == blur_spec(old(img)@, x0 as int, y0 as int, x1 as int, y1 as int, radius as int),
{
    let snapshot = img.duplicate();
    let ghost start = img@;
    let ghost r = radius as int;
    let mut y: u32 = y0;
    while y < y1
        invariant
            img.wf(),
            snapshot.wf(),
            snapshot@ == start,
            img@.same_size(start),
            x1 <= start.width,
            y1 <= start.height,
            r == radius,
            y0 <= y,
            forall|px: int, py: int|
                start.inside(px, py) ==> #[trigger] img@.at(px, py) == (if x0 <= px < x1 && y0 <= py
                    < y {
                    blurred_at(start, x0 as int, y0 as int, x1 as int, y1 as int, r, px, py)
                } else {
                    start.at(px, py)
                }),
        decreases y1 - y,
    {
        let wy0: u32 = if y >= radius && y - radius >= y0 { y - radius } else { y0 };
        let wy1: u32 = if (y as u64) + (radius as u64) < (y1 as u64) - 1 { y + radius + 1 } else { y1 };
        let mut x: u32 = x0;
        while x < x1
            invariant
                img.wf(),
                snapshot.wf(),
                snapshot@ == start,
                img@.same_size(start),
                x1 <= start.width,
                y1 <= start.height,
                r == radius,
                y0 <= y < y1,
                x0 <= x,
                (wy0 as int, wy1 as int) == blur_window(y as int, r, y0 as int, y1 as int),
                forall|px: int, py: int|
                    start.inside(px, py) ==> #[trigger] img@.at(px, py) == (if x0 <= px < x1 && ((y0
                        <= py < y) || (x0 <= px < x && py == y)) {
                        blurred_at(start, x0 as int, y0 as int, x1 as int, y1 as int, r, px, py)
                    } else {
                        start.at(px, py)
                    }),
            decreases x1 - x,
        {
            let wx0: u32 = if x >= radius && x - radius >= x0 { x - radius } else { x0 };
            let wx1: u32 = if (x as u64) + (radius as u64) < (x1 as u64) - 1 { x + radius + 1 } else { x1 };
            let avg = box_average(&snapshot, wx0, wx1, wy0, wy1);
            let ghost before = img@;
            img.put_pixel(x, y, avg);
            proof {
                assert forall|px: int, py: int| start.inside(px, py) implies #[trigger] img@.at(px, py)
                    == (if x0 <= px < x1 && ((y0 <= py < y) || (x0 <= px < x + 1 && py == y)) {
                    blurred_at(start, x0 as int, y0 as int, x1 as int, y1 as int, r, px, py)
                } else {
                    start.at(px, py)
                }) by {
                    lemma_paint_at(before, |qx: int, qy: int| qx == x && qy == y, avg, px, py);
                }
            }
            x = x + 1;
        }
        y = y + 1;
    }
    proof {
        let target = blur_spec(start, x0 as int, y0 as int, x1 as int, y1 as int, r);
        assert forall|px: int, py: int| img@.inside(px, py) implies #[trigger] img@.at(px, py) == target.at(
            px,
            py,
        ) by {
            lemma_remap_at(
                start,
                |x: int, y: int| blurred_at(start, x0 as int, y0 as int, x1 as int, y1 as int, r, x, y),
                px,
                py,
            );
        }
        lemma_image_ext(img@, target);
    }
}

fn clamp_coord(v: i32, hi: u32) -> (r: u32)
    ensures
        r == clamp_int(v as int, 0, hi as int),
{
    if v < 0 {
        0
    } else if v as u32 > hi {
        hi
    } else {
        v as u32
    }
}

proof fn lemma_row_sum_uniform(img: ImageView, y: int, x0: int, x1: int, ch: int, c: Rgba)
    requires
        x0 <= x1,
        forall|x: int| x0 <= x < x1 ==> #[trigger] img.at(x, y) == c,
    ensures
        row_sum(img, y, x0, x1, ch) == (x1 - x0) * c.channel(ch),
    decreases x1 - x0,
{
    if x1 > x0 {
        lemma_row_sum_uniform(img, y, x0, x1 - 1, ch, c);
        assert((x1 - x0) * c.channel(ch) == (x1 - 1 - x0) * c.channel(ch) + c.channel(ch))
            by (nonlinear_arith);
    } else {
        assert((x1 - x0) * c.channel(ch) == 0) by (nonlinear_arith)
            requires
                x1 == x0,
        ;
    }
}

proof fn lemma_box_sum_uniform(img: ImageView, x0: int, x1: int, y0: int, y1: int, ch: int, c: Rgba)
    requires
        x0 <= x1,
        y0 <= y1,
        forall|x: int, y: int| x0 <= x < x1 && y0 <= y < y1 ==> #[trigger] img.at(x, y) == c,
    ensures
        box_sum(img, x0, x1, y0, y1, ch) == ((x1 - x0) * (y1 - y0)) * c.channel(ch),
    decreases y1 - y0,
{
    if y1 > y0 {
        lemma_box_sum_uniform(img, x0, x1, y0, y1 - 1, ch, c);
        lemma_row_sum_uniform(img, y1 - 1, x0, x1, ch, c);
        assert(((x1 - x0) * (y1 - y0)) * c.channel(ch) == ((x1 - x0) * (y1 - 1 - y0)) * c.channel(ch)
            + (x1 - x0) * c.channel(ch)) by (nonlinear_arith);
    } else {
        assert(((x1 - x0) * (y1 - y0)) * c.channel(ch) == 0) by (nonlinear_arith)
            requires
                y1 == y0,
        ;
    }
}

/// The mean of a non-empty box of one colour is that colour.
pub proof fn lemma_box_mean_uniform(img: ImageView, x0: int, x1: int, y0: int, y1: int, c: Rgba)
    requires
        x0 < x1,
        y0 < y1,
        forall|x: int, y: int| x0 <= x < x1 && y0 <= y < y1 ==> #[trigger] img.at(x, y) == c,
    ensures
        box_mean(img, x0, x1, y0, y1) == c,
{
    let n = (x1 - x0) * (y1 - y0);
    assert(n > 0) by (nonlinear_arith)
        requires
            x0 < x1,
            y0 < y1,
            n == (x1 - x0) * (y1 - y0),
    ;
    lemma_box_sum_uniform(img, x0, x1, y0, y1, 0, c);
    lemma_box_sum_uniform(img, x0, x1, y0, y1, 1, c);
    lemma_box_sum_uniform(img, x0, x1, y0, y1, 2, c);
    lemma_box_sum_uniform(img, x0, x1, y0, y1, 3, c);
    vstd::arithmetic::div_mod::lemma_div_by_multiple(c.r as int, n);
    vstd::arithmetic::div_mod::lemma_div_by_multiple(c.g as int, n);
    vstd::arithmetic::div_mod::lemma_div_by_multiple(c.b as int, n);
    vstd::arithmetic::div_mod::lemma_div_by_multiple(c.a as int, n);
    assert(n * c.r == c.r * n && n * c.g == c.g * n && n * c.b == c.b * n && n * c.a == c.a * n)
        by (nonlinear_arith);
}

/// Pixelating a region of one colour leaves the image as it was, for any
/// block size: every cell's mean is that colour.
pub proof fn lemma_pixelate_uniform(img: ImageView, x0: int, y0: int, x1: int, y1: int, b: int, c: Rgba)
    requires
        img.wf(),
        0 <= x0,
        0 <= y0,
        x1 <= img.width,
        y1 <= img.height,
        b >= 1,
        forall|x: int, y: int| x0 <= x < x1 && y0 <= y < y1 ==> #[trigger] img.at(x, y) == c,
    ensures
        pixelate_spec(img, x0, y0, x1, y1, b) == img,
{
    let target = pixelate_spec(img, x0, y0, x1, y1, b);
    assert forall|x: int, y: int| target.inside(x, y) implies #[trigger] target.at(x, y) == img.at(x, y) by {
        lemma_remap_at(img, |x: int, y: int| pixelated_at(img, x0, y0, x1, y1, b, x, y), x, y);
        if x0 <= x < x1 && y0 <= y < y1 {
            let jx = (x - x0) / b;
            let jy = (y - y0) / b;
            lemma_div_range(x - x0, b, jx);
            lemma_div_range(y - y0, b, jy);
            lemma_div_pos_is_pos(x - x0, b);
            lemma_div_pos_is_pos(y - y0, b);
            assert(0 <= jx * b && 0 <= jy * b) by (nonlinear_arith)
                requires
                    0 <= jx,
                    0 <= jy,
                    b >= 1,
            ;
            let cx = cell_lo(x, x0, b);
            let cy = cell_lo(y, y0, b);
            lemma_box_mean_uniform(img, cx, min_int(cx + b, x1), cy, min_int(cy + b, y1), c);
        }
    }
    lemma_image_ext(target, img);
}

/// Blur windows never leave the region they blur: along each axis the
/// window of a pixel `v` of the region `[lo, hi)` lies within `[lo, hi)`
/// and spans at most `2r + 1` pixels; at the region's edge it spans only
/// `min(r, hi - lo - 1) + 1` pixels, fewer than an interior pixel's
/// `2r + 1`.
pub proof fn lemma_blur_window_clipped(v: int, r: int, lo: int, hi: int)
    requires
        r >= 1,
        lo <= v < hi,
    ensures
        lo <= blur_window(v, r, lo, hi).0 <= v < blur_window(v, r, lo, hi).1 <= hi,
        blur_window(v, r, lo, hi).1 - blur_window(v, r, lo, hi).0 <= 2 * r + 1,
        v == lo ==> blur_window(v, r, lo, hi).1 - blur_window(v, r, lo, hi).0 == min_int(r, hi - lo - 1) + 1,
        v == lo ==> blur_window(v, r, lo, hi).1 - blur_window(v, r, lo, hi).0 < 2 * r + 1,
        lo + r <= v && v + r < hi ==> blur_window(v, r, lo, hi).1 - blur_window(v, r, lo, hi).0 == 2 * r + 1,
{
}

/// The part of `rect` that lies inside a `w × h` image.
pub fn effect_bounds_of(w: u32, h: u32, rect: Rect) -> (r: (u32, u32, u32, u32))
    ensures
        (r.0 as int, r.1 as int, r.2 as int, r.3 as int) == effect_bounds(w as int, h as int, rect),
        r.2 <= w,
        r.3 <= h,
{
    let n = Rect::from_two_pos(rect.min, rect.max);
    (clamp_coord(n.min.x, w), clamp_coord(n.min.y, h), clamp_coord(n.max.x, w), clamp_coord(n.max.y, h))
}

/// Pixelation of the part of `rect` inside the image; blocks are at least
/// two pixels wide.
pub open spec fn pixelate_rect_spec(img: ImageView, rect: Rect, block: int) -> ImageView {
    let (x0, y0, x1, y1) = effect_bounds(img.width as int, img.height as int, rect);
    pixelate_spec(img, x0, y0, x1, y1, max_int(block, 2))
}

/// Box blur of the part of `rect` inside the image, with the radius held
/// between one and `MAX_BLUR_RADIUS`.
pub open spec fn blur_rect_spec(img: ImageView, rect: Rect, radius: int) -> ImageView {
    let (x0, y0, x1, y1) = effect_bounds(img.width as int, img.height as int, rect);
    blur_spec(img, x0, y0, x1, y1, blur_strength(radius))
}

fn clamp_radius(radius: u32) -> (r: u32)
    ensures
        r == blur_strength(radius as int),
{
    if radius < 1 {
        1
    } else if radius > MAX_BLUR_RADIUS {
        MAX_BLUR_RADIUS
    } else {
        radius
    }
}

/// Pixelates the part of `rect` inside the image.
pub fn apply_pixelate(img: &mut Image, rect: Rect, block: u32)
    requires
        old(img).wf(),
    ensures
        final(img).wf(),
        final(img)@ == pixelate_rect_spec(old(img)@, rect, block as int),
{
    let (x0, y0, x1, y1) = effect_bounds_of(img.width(), img.height(), rect);
    let b = if block < 2 { 2 } else { block };
    pixelate_region(img, x0, y0, x1, y1, b);
}

/// Blurs the part of `rect` inside the image.
pub fn apply_blur(img: &mut Image, rect: Rect, radius: u32)
    requires
        old(img).wf(),
    ensures
        final(img).wf(),
        final(img)@ == blur_rect_spec(old(img)@, rect, radius as int),
{
    let (x0, y0, x1, y1) = effect_bounds_of(img.width(), img.height(), rect);
    let r = clamp_radius(radius);
    blur_region(img, x0, y0, x1, y1, r);
}

/// Pixelates the whole image.
pub fn apply_pixelate_full(img: &mut Image, block: u32)
    requires
        old(img).wf(),
    ensures
        final(img).wf(),
        final(img)@ == pixelate_spec(
            old(img)@,
            0,
            0,
            old(img)@.width as int,
            old(img)@.height as int,
            max_int(block as int, 2),
        ),
{
    let b = if block < 2 { 2 } else { block };
    let w = img.width();
    let h = img.height();
    pixelate_region(img, 0, 0, w, h, b);
}

/// Blurs the whole image.
pub fn apply_blur_full(img: &mut Image, radius: u32)
    requires
        old(img).wf(),
    ensures
        final(img).wf(),
        final(img)@ == blur_spec(
            old(img)@,
            0,
            0,
            old(img)@.width as int,
            old(img)@.height as int,
            blur_strength(radius as int),
        ),
{
    let r = clamp_radius(radius);
    let w = img.width();
    let h = img.height();
    blur_region(img, 0, 0, w, h, r);
}

} // verus!


