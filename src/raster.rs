//! Pixel-level drawing primitives: thick lines, polylines, filled triangles
//! and discs, ellipse outlines and arrowheads.

use crate::geometry::{
    isqrt, isqrt_wide, max_int, min_int, round_div, round_div_i128, span, Pos, Rect,
};
use crate::pixels::{fill_box, lemma_image_ext, lemma_paint_at, paint, Image, ImageView, Rgba};
use vstd::prelude::*;

verus! {

/// `a * b` for factors small enough that no bound check is ever near.
fn mul_small(a: i128, b: i128) -> (r: i128)
    requires
        -0x100_0000_0000 <= a <= 0x100_0000_0000,
        -0x100_0000_0000 <= b <= 0x100_0000_0000,
    ensures
        r == a * b,
        -0x1_0000_0000_0000_0000_0000 <= r <= 0x1_0000_0000_0000_0000_0000,
{
    assert(-0x1_0000_0000_0000_0000_0000 <= a * b <= 0x1_0000_0000_0000_0000_0000)
        by (nonlinear_arith)
        requires
            -0x100_0000_0000 <= a <= 0x100_0000_0000,
            -0x100_0000_0000 <= b <= 0x100_0000_0000,
    ;
    a * b
}

/// The signed area test of the edge `a → b` against `p`.
pub open spec fn edge_function(ax: int, ay: int, bx: int, by: int, px: int, py: int) -> int {
    (px - ax) * (by - ay) - (py - ay) * (bx - ax)
}

/// The centre of pixel `(x, y)` lies in the closed triangle `a b c`.
/// Coordinates are doubled so that pixel centres are integers.
pub open spec fn in_triangle(a: Pos, b: Pos, c: Pos, x: int, y: int) -> bool {
    let px = 2 * x + 1;
    let py = 2 * y + 1;
    let w0 = edge_function(2 * b.x, 2 * b.y, 2 * c.x, 2 * c.y, px, py);
    let w1 = edge_function(2 * c.x, 2 * c.y, 2 * a.x, 2 * a.y, px, py);
    let w2 = edge_function(2 * a.x, 2 * a.y, 2 * b.x, 2 * b.y, px, py);
    (w0 >= 0 && w1 >= 0 && w2 >= 0) || (w0 <= 0 && w1 <= 0 && w2 <= 0)
}

/// The centre of pixel `(x, y)` lies within `radius` of `center`.
pub open spec fn in_disc(center: Pos, radius: int, x: int, y: int) -> bool {
    let dx = 2 * x + 1 - 2 * center.x;
    let dy = 2 * y + 1 - 2 * center.y;
    dx * dx + dy * dy <= 4 * (radius * radius)
}

/// A region tested pixel by pixel.
#[derive(Clone, Copy, Debug)]
pub enum Mask {
    Triangle { a: Pos, b: Pos, c: Pos },
    Disc { center: Pos, radius: u32 },
}

pub open spec fn mask_has(m: Mask, x: int, y: int) -> bool {
    match m {
        Mask::Triangle { a, b, c } => in_triangle(a, b, c, x, y),
        Mask::Disc { center, radius } => in_disc(center, radius as int, x, y),
    }
}

fn edge_i128(ax: i128, ay: i128, bx: i128, by: i128, px: i128, py: i128) -> (r: i128)
    requires
        -0x4_0000_0000 <= ax <= 0x4_0000_0000,
        -0x4_0000_0000 <= ay <= 0x4_0000_0000,
        -0x4_0000_0000 <= bx <= 0x4_0000_0000,
        -0x4_0000_0000 <= by <= 0x4_0000_0000,
        -0x4_0000_0000 <= px <= 0x4_0000_0000,
        -0x4_0000_0000 <= py <= 0x4_0000_0000,
    ensures
        r == edge_function(ax as int, ay as int, bx as int, by as int, px as int, py as int),
{
    mul_small(px - ax, by - ay) - mul_small(py - ay, bx - ax)
}

fn mask_test(m: Mask, x: i128, y: i128) -> (r: bool)
    requires
        0 <= x <= 0x1_0000_0000,
        0 <= y <= 0x1_0000_0000,
    ensures
        r == mask_has(m, x as int, y as int),
{
    let px = 2 * x + 1;
    let py = 2 * y + 1;
    match m {
        Mask::Triangle { a, b, c } => {
            let (ax, ay) = (2 * a.x as i128, 2 * a.y as i128);
            let (bx, by) = (2 * b.x as i128, 2 * b.y as i128);
            let (cx, cy) = (2 * c.x as i128, 2 * c.y as i128);
            let w0 = edge_i128(bx, by, cx, cy, px, py);
            let w1 = edge_i128(cx, cy, ax, ay, px, py);
            let w2 = edge_i128(ax, ay, bx, by, px, py);
            assert(w0 == edge_function(2 * b.x, 2 * b.y, 2 * c.x, 2 * c.y, 2 * x + 1, 2 * y + 1));
            assert(w1 == edge_function(2 * c.x, 2 * c.y, 2 * a.x, 2 * a.y, 2 * x + 1, 2 * y + 1));
            assert(w2 == edge_function(2 * a.x, 2 * a.y, 2 * b.x, 2 * b.y, 2 * x + 1, 2 * y + 1));
            (w0 >= 0 && w1 >= 0 && w2 >= 0) || (w0 <= 0 && w1 <= 0 && w2 <= 0)
        },
        Mask::Disc { center, radius } => {
            let dx = px - 2 * center.x as i128;
            let dy = py - 2 * center.y as i128;
            let rr = radius as i128;
            mul_small(dx, dx) + mul_small(dy, dy) <= 4 * mul_small(rr, rr)
        },
    }
}

/// Paints with `c` every pixel of the box `[x0, x1) × [y0, y1)` that the
/// mask holds, clipped to the image.
pub fn paint_mask(img: &mut Image, x0: i128, y0: i128, x1: i128, y1: i128, m: Mask, c: Rgba)
    requires
        old(img).wf(),
    ensures
        final(img).wf(),
        final(img)@ == paint(
            old(img)@,
            |x: int, y: int| x0 <= x < x1 && y0 <= y < y1 && mask_has(m, x, y),
            c,
        ),
{
    proof {
        img.lemma_wf();
    }
    let w = img.width() as i128;
    let h = img.height() as i128;
    let cx0: i128 = if x0 < 0 { 0 } else { x0 };
    let cy0: i128 = if y0 < 0 { 0 } else { y0 };
    let cx1: i128 = if x1 > w { w } else { x1 };
    let cy1: i128 = if y1 > h { h } else { y1 };
    let ghost start = img@;
    let mut y: i128 = cy0;
    while y < cy1
        invariant
            img.wf(),
            img@.same_size(start),
            start.width == w,
            start.height == h,
            w <= u32::MAX,
            h <= u32::MAX,
            cy0 <= y,
            y <= cy1 || y == cy0,
            0 <= cx0,
            0 <= cy0,
            cx1 <= w,
            cy1 <= h,
            cx0 == (if x0 < 0 { 0 } else { x0 }),
            cx1 == (if x1 > w { w } else { x1 }),
            cy0 == (if y0 < 0 { 0 } else { y0 }),
            cy1 == (if y1 > h { h } else { y1 }),
            forall|px: int, py: int|
                start.inside(px, py) ==> #[trigger] img@.at(px, py) == (if cx0 <= px < cx1 && cy0
                    <= py < y && mask_has(m, px, py) {
                    c
                } else {
                    start.at(px, py)
                }),
        decreases cy1 - y,
    {
        let mut x: i128 = cx0;
        while x < cx1
            invariant
                img.wf(),
                img@.same_size(start),
                start.width == w,
                start.height == h,
                w <= u32::MAX,
                h <= u32::MAX,
                cy0 <= y < cy1,
                cx0 <= x,
                x <= cx1 || x == cx0,
                0 <= cx0,
                0 <= cy0,
                cx1 <= w,
                cy1 <= h,
                forall|px: int, py: int|
                    start.inside(px, py) ==> #[trigger] img@.at(px, py) == (if ((cx0 <= px < cx1
                        && cy0 <= py < y) || (cx0 <= px < x && py == y)) && mask_has(m, px, py) {
                        c
                    } else {
                        start.at(px, py)
                    }),
            decreases cx1 - x,
        {
            if mask_test(m, x, y) {
                let ghost before = img@;
                img.put_pixel(x as u32, y as u32, c);
                proof {
                    assert forall|px: int, py: int| start.inside(px, py) implies #[trigger] img@.at(
                        px,
                        py,
                    ) == (if ((cx0 <= px < cx1 && cy0 <= py < y) || (cx0 <= px < x + 1 && py
                        == y)) && mask_has(m, px, py) {
                        c
                    } else {
                        start.at(px, py)
                    }) by {
                        lemma_paint_at(before, |qx: int, qy: int| qx == x && qy == y, c, px, py);
                    }
                }
            }
            x = x + 1;
        }
        y = y + 1;
    }
    proof {
        let set = |qx: int, qy: int| x0 <= qx < x1 && y0 <= qy < y1 && mask_has(m, qx, qy);
        let target = paint(start, set, c);
        assert forall|px: int, py: int| img@.inside(px, py) implies #[trigger] img@.at(px, py)
            == target.at(px, py) by {
            lemma_paint_at(start, set, c, px, py);
        }
        lemma_image_ext(img@, target);
    }
}


pub open spec fn abs_int(v: int) -> int {
    if v < 0 {
        -v
    } else {
        v
    }
}

/// Half-width of the square stamped along a line of width `size`.
pub open spec fn stamp_radius(size: int) -> int {
    (max_int(size, 1) + 1) / 2
}

/// Number of unit steps along the segment `a → b` (at least one).
pub open spec fn line_steps(a: Pos, b: Pos) -> int {
    max_int(max_int(abs_int(b.x - a.x), abs_int(b.y - a.y)), 1)
}

/// The `i`-th interpolated point of the segment, rounded to a pixel.
pub open spec fn line_point(a: Pos, b: Pos, i: int) -> (int, int) {
    let n = line_steps(a, b);
    (round_div(a.x * n + (b.x - a.x) * i, n), round_div(a.y * n + (b.y - a.y) * i, n))
}

/// The first `k` square stamps of the thick line `a → b`.
pub open spec fn line_stamps(img: ImageView, a: Pos, b: Pos, c: Rgba, size: int, k: nat) -> ImageView
    decreases k,
{
    if k == 0 {
        img
    } else {
        let prev = line_stamps(img, a, b, c, size, (k - 1) as nat);
        let p = line_point(a, b, k - 1);
        let r = stamp_radius(size);
        fill_box(prev, p.0 - r, p.1 - r, p.0 + r + 1, p.1 + r + 1, c)
    }
}

/// A thick line: a square of half-width `stamp_radius(size)` stamped at
/// every step from `a` to `b`, both ends included.
pub open spec fn line_spec(img: ImageView, a: Pos, b: Pos, c: Rgba, size: int) -> ImageView {
    line_stamps(img, a, b, c, size, (line_steps(a, b) + 1) as nat)
}

pub proof fn lemma_line_size(img: ImageView, a: Pos, b: Pos, c: Rgba, size: int, k: nat)
    ensures
        line_stamps(img, a, b, c, size, k).same_size(img),
    decreases k,
{
    if k > 0 {
        lemma_line_size(img, a, b, c, size, (k - 1) as nat);
    }
}

/// Draws a thick line from `start` to `end`.
pub fn draw_line(img: &mut Image, start: Pos, end: Pos, color: Rgba, size: u32)
    requires
        old(img).wf(),
    ensures
        final(img).wf(),
        final(img)@ == line_spec(old(img)@, start, end, color, size as int),
{
    let r: i128 = if size < 1 {
        1
    } else {
        (size as i128 + 1) / 2
    };
    let dx = end.x as i128 - start.x as i128;
    let dy = end.y as i128 - start.y as i128;
    let adx = if dx < 0 { -dx } else { dx };
    let ady = if dy < 0 { -dy } else { dy };
    let m = if adx >= ady { adx } else { ady };
    let steps: i128 = if m < 1 { 1 } else { m };
    assert(steps == line_steps(start, end));
    assert(r == stamp_radius(size as int));
    let ghost start_img = img@;
    let mut i: i128 = 0;
    while i <= steps
        invariant
            0 <= i <= steps + 1,
            1 <= steps <= 0x1_0000_0000,
            steps == line_steps(start, end),
            dx == end.x - start.x,
            dy == end.y - start.y,
            r == stamp_radius(size as int),
            0 < r <= 0x8000_0000,
            img.wf(),
            img@ == line_stamps(start_img, start, end, color, size as int, i as nat),
        decreases steps + 1 - i,
    {
        let nx = mul_small(start.x as i128, steps) + mul_small(dx, i);
        let ny = mul_small(start.y as i128, steps) + mul_small(dy, i);
        let x = round_div_i128(nx, steps);
        let y = round_div_i128(ny, steps);
        assert((x as int, y as int) == line_point(start, end, i as int));
        img.fill_rect(x - r, y - r, x + r + 1, y + r + 1, color);
        i = i + 1;
    }
}

/// The first `k` segments of the polyline through `pts`.
pub open spec fn polyline_upto(img: ImageView, pts: Seq<Pos>, c: Rgba, size: int, k: nat) -> ImageView
    decreases k,
{
    if k == 0 {
        img
    } else {
        line_spec(polyline_upto(img, pts, c, size, (k - 1) as nat), pts[k - 1], pts[k as int], c, size)
    }
}

/// Thick lines joining each point of `pts` to the next, in order.
pub open spec fn polyline_spec(img: ImageView, pts: Seq<Pos>, c: Rgba, size: int) -> ImageView {
    if pts.len() < 2 {
        img
    } else {
        polyline_upto(img, pts, c, size, (pts.len() - 1) as nat)
    }
}

pub proof fn lemma_polyline_size(img: ImageView, pts: Seq<Pos>, c: Rgba, size: int, k: nat)
    ensures
        polyline_upto(img, pts, c, size, k).same_size(img),
    decreases k,
{
    if k > 0 {
        lemma_polyline_size(img, pts, c, size, (k - 1) as nat);
        let prev = polyline_upto(img, pts, c, size, (k - 1) as nat);
        lemma_line_size(prev, pts[k - 1], pts[k as int], c, size, (line_steps(pts[k - 1], pts[k as int]) + 1) as nat);
    }
}

/// Draws a thick line through consecutive points of `pts`.
pub fn draw_polyline(img: &mut Image, pts: &Vec<Pos>, color: Rgba, size: u32)
    requires
        old(img).wf(),
    ensures
        final(img).wf(),
        final(img)@ == polyline_spec(old(img)@, pts@, color, size as int),
{
    if pts.len() < 2 {
        return ;
    }
    let ghost start_img = img@;
    let mut k: usize = 1;
    while k < pts.len()
        invariant
            1 <= k <= pts.len(),
            img.wf(),
            img@ == polyline_upto(start_img, pts@, color, size as int, (k - 1) as nat),
        decreases pts.len() - k,
    {
        draw_line(img, pts[k - 1], pts[k], color, size);
        k = k + 1;
    }
}

pub open spec fn min3(a: int, b: int, c: int) -> int {
    min_int(min_int(a, b), c)
}

pub open spec fn max3(a: int, b: int, c: int) -> int {
    max_int(max_int(a, b), c)
}

/// A filled triangle: every pixel of the bounding box whose centre passes
/// the edge-function test. A degenerate triangle paints nothing.
pub open spec fn triangle_spec(img: ImageView, a: Pos, b: Pos, c: Pos, color: Rgba) -> ImageView {
    if edge_function(a.x as int, a.y as int, b.x as int, b.y as int, c.x as int, c.y as int) == 0 {
        img
    } else {
        paint(
            img,
            |x: int, y: int|
                min3(a.x as int, b.x as int, c.x as int) <= x < max3(a.x as int, b.x as int, c.x as int)
                    && min3(a.y as int, b.y as int, c.y as int) <= y < max3(a.y as int, b.y as int, c.y as int)
                    && in_triangle(a, b, c, x, y),
            color,
        )
    }
}

fn min3_i128(a: i128, b: i128, c: i128) -> (r: i128)
    ensures
        r == min3(a as int, b as int, c as int),
{
    let m = if a <= b { a } else { b };
    if m <= c { m } else { c }
}

fn max3_i128(a: i128, b: i128, c: i128) -> (r: i128)
    ensures
        r == max3(a as int, b as int, c as int),
{
    let m = if a >= b { a } else { b };
    if m >= c { m } else { c }
}

/// Fills the triangle `a b c`.
pub fn fill_triangle(img: &mut Image, a: Pos, b: Pos, c: Pos, color: Rgba)
    requires
        old(img).wf(),
    ensures
        final(img).wf(),
        final(img)@ == triangle_spec(old(img)@, a, b, c, color),
{
    let area = edge_i128(a.x as i128, a.y as i128, b.x as i128, b.y as i128, c.x as i128, c.y as i128);
    if area == 0 {
        return ;
    }
    let x0 = min3_i128(a.x as i128, b.x as i128, c.x as i128);
    let x1 = max3_i128(a.x as i128, b.x as i128, c.x as i128);
    let y0 = min3_i128(a.y as i128, b.y as i128, c.y as i128);
    let y1 = max3_i128(a.y as i128, b.y as i128, c.y as i128);
    let ghost before = img@;
    paint_mask(img, x0, y0, x1, y1, Mask::Triangle { a, b, c }, color);
    proof {
        let s1 = |x: int, y: int|
            x0 <= x < x1 && y0 <= y < y1 && mask_has(Mask::Triangle { a, b, c }, x, y);
        let s2 = |x: int, y: int|
            min3(a.x as int, b.x as int, c.x as int) <= x < max3(a.x as int, b.x as int, c.x as int)
                && min3(a.y as int, b.y as int, c.y as int) <= y < max3(a.y as int, b.y as int, c.y as int)
                && in_triangle(a, b, c, x, y);
        assert(s1 =~= s2);
    }
}

/// Fills the quadrilateral `a b c d` as the triangles `a b c` and `a c d`.
pub fn fill_quad(img: &mut Image, a: Pos, b: Pos, c: Pos, d: Pos, color: Rgba)
    requires
        old(img).wf(),
    ensures
        final(img).wf(),
        final(img)@ == triangle_spec(triangle_spec(old(img)@, a, b, c, color), a, c, d, color),
{
    fill_triangle(img, a, b, c, color);
    fill_triangle(img, a, c, d, color);
}

/// A filled disc: every pixel whose centre lies within `radius` of
/// `center`.
pub open spec fn disc_spec(img: ImageView, center: Pos, radius: int, color: Rgba) -> ImageView {
    paint(
        img,
        |x: int, y: int|
            center.x - radius <= x < center.x + radius && center.y - radius <= y < center.y + radius
                && in_disc(center, radius, x, y),
        color,
    )
}

/// Fills the disc of `radius` around `center`.
pub fn draw_filled_circle(img: &mut Image, center: Pos, radius: u32, color: Rgba)
    requires
        old(img).wf(),
    ensures
        final(img).wf(),
        final(img)@ == disc_spec(old(img)@, center, radius as int, color),
{
    let r = radius as i128;
    let ghost before = img@;
    paint_mask(
        img,
        center.x as i128 - r,
        center.y as i128 - r,
        center.x as i128 + r,
        center.y as i128 + r,
        Mask::Disc { center, radius },
        color,
    );
    proof {
        let s1 = |x: int, y: int|
            center.x - r <= x < center.x + r && center.y - r <= y < center.y + r && mask_has(
                Mask::Disc { center, radius },
                x,
                y,
            );
        let s2 = |x: int, y: int|
            center.x - radius <= x < center.x + radius && center.y - radius <= y < center.y
                + radius && in_disc(center, radius as int, x, y);
        assert(s1 =~= s2);
    }
}


/// Segments of the polygon that outlines an ellipse.
pub const ELLIPSE_SEGMENTS: usize = 80;

/// `4096 · sin(k · π / 40)` rounded, for `k` in `0 ..= 20`.
pub open spec fn quarter_sine(k: int) -> int {
    if k <= 0 {
        0
    } else if k == 1 {
        321
    } else if k == 2 {
        641
    } else if k == 3 {
        956
    } else if k == 4 {
        1266
    } else if k == 5 {
        1567
    } else if k == 6 {
        1860
    } else if k == 7 {
        2140
    } else if k == 8 {
        2408
    } else if k == 9 {
        2660
    } else if k == 10 {
        2896
    } else if k == 11 {
        3115
    } else if k == 12 {
        3314
    } else if k == 13 {
        3492
    } else if k == 14 {
        3650
    } else if k == 15 {
        3784
    } else if k == 16 {
        3896
    } else if k == 17 {
        3983
    } else if k == 18 {
        4046
    } else if k == 19 {
        4083
    } else {
        4096
    }
}

fn quarter_sine_exec(k: i128) -> (r: i128)
    ensures
        r == quarter_sine(k as int),
{
    if k <= 0 {
        0
    } else if k == 1 {
        321
    } else if k == 2 {
        641
    } else if k == 3 {
        956
    } else if k == 4 {
        1266
    } else if k == 5 {
        1567
    } else if k == 6 {
        1860
    } else if k == 7 {
        2140
    } else if k == 8 {
        2408
    } else if k == 9 {
        2660
    } else if k == 10 {
        2896
    } else if k == 11 {
        3115
    } else if k == 12 {
        3314
    } else if k == 13 {
        3492
    } else if k == 14 {
        3650
    } else if k == 15 {
        3784
    } else if k == 16 {
        3896
    } else if k == 17 {
        3983
    } else if k == 18 {
        4046
    } else if k == 19 {
        4083
    } else {
        4096
    }
}

/// `4096 · cos(2πk / 80)`, for `k` in `0 ..= 80`.
pub open spec fn unit_cos(k: int) -> int {
    if k <= 20 {
        quarter_sine(20 - k)
    } else if k <= 40 {
        -quarter_sine(k - 20)
    } else if k <= 60 {
        -quarter_sine(60 - k)
    } else {
        quarter_sine(k - 60)
    }
}

/// `4096 · sin(2πk / 80)`, for `k` in `0 ..= 80`.
pub open spec fn unit_sin(k: int) -> int {
    if k <= 20 {
        quarter_sine(k)
    } else if k <= 40 {
        quarter_sine(40 - k)
    } else if k <= 60 {
        -quarter_sine(k - 40)
    } else {
        -quarter_sine(80 - k)
    }
}

/// The `k`-th point around the ellipse inscribed in `rect`, starting at the
/// right-most point and turning towards larger `y`.
pub open spec fn ellipse_point(rect: Rect, k: int) -> Pos {
    Pos {
        x: crate::geometry::to_i32(
            round_div((rect.min.x + rect.max.x) * 4096 + (rect.max.x - rect.min.x) * unit_cos(k), 8192),
        ),
        y: crate::geometry::to_i32(
            round_div((rect.min.y + rect.max.y) * 4096 + (rect.max.y - rect.min.y) * unit_sin(k), 8192),
        ),
    }
}

/// The closed polygon of `ELLIPSE_SEGMENTS + 1` points around the ellipse
/// inscribed in `rect` (the last point repeats the first).
pub open spec fn ellipse_outline(rect: Rect) -> Seq<Pos> {
    Seq::new((ELLIPSE_SEGMENTS + 1) as nat, |k: int| ellipse_point(rect, k))
}

/// Points sampled around the ellipse inscribed in `rect`.
pub fn ellipse_points(rect: Rect) -> (pts: Vec<Pos>)
    ensures
        pts@ == ellipse_outline(rect),
{
    let mut pts: Vec<Pos> = Vec::with_capacity(ELLIPSE_SEGMENTS + 1);
    let mut k: i128 = 0;
    while k <= ELLIPSE_SEGMENTS as i128
        invariant
            0 <= k <= ELLIPSE_SEGMENTS + 1,
            pts@.len() == k,
            forall|j: int| 0 <= j < k ==> pts@[j] == ellipse_point(rect, j),
        decreases ELLIPSE_SEGMENTS + 1 - k,
    {
        let (cos, sin) = if k <= 20 {
            (quarter_sine_exec(20 - k), quarter_sine_exec(k))
        } else if k <= 40 {
            (-quarter_sine_exec(k - 20), quarter_sine_exec(40 - k))
        } else if k <= 60 {
            (-quarter_sine_exec(60 - k), -quarter_sine_exec(k - 40))
        } else {
            (quarter_sine_exec(k - 60), -quarter_sine_exec(80 - k))
        };
        let x0 = rect.min.x as i128;
        let x1 = rect.max.x as i128;
        let y0 = rect.min.y as i128;
        let y1 = rect.max.y as i128;
        let nx = mul_small(x0 + x1, 4096) + mul_small(x1 - x0, cos);
        let ny = mul_small(y0 + y1, 4096) + mul_small(y1 - y0, sin);
        let p = Pos {
            x: crate::geometry::clamp_to_i32(round_div_i128(nx, 8192)),
            y: crate::geometry::clamp_to_i32(round_div_i128(ny, 8192)),
        };
        assert(p == ellipse_point(rect, k as int));
        pts.push(p);
        k = k + 1;
    }
    assert(pts@ =~= ellipse_outline(rect));
    pts
}

/// The outline of the ellipse inscribed in the box spanned by `start` and
/// `end`.
pub open spec fn ellipse_spec(img: ImageView, start: Pos, end: Pos, c: Rgba, size: int) -> ImageView {
    polyline_spec(img, ellipse_outline(span(start, end)), c, size)
}

/// Draws the outline of the ellipse inscribed in the box spanned by `start`
/// and `end`.
pub fn draw_ellipse(img: &mut Image, start: Pos, end: Pos, color: Rgba, size: u32)
    requires
        old(img).wf(),
    ensures
        final(img).wf(),
        final(img)@ == ellipse_spec(old(img)@, start, end, color, size as int),
{
    let rect = Rect::from_two_pos(start, end);
    let pts = ellipse_points(rect);
    draw_polyline(img, &pts, color, size);
}

/// Length of the segment `a → b`, rounded down, and at least one.
pub open spec fn seg_len(a: Pos, b: Pos) -> int {
    let dx = b.x - a.x;
    let dy = b.y - a.y;
    max_int(isqrt((dx * dx + dy * dy) as nat) as int, 1)
}

/// Arrowhead corners `(base, left, right)` for the arrow `start → end`.
/// The head is `clamp(4·size, 10, 0.8·len)` long and
/// `clamp(3·size, 6, 0.6·len)` wide; lengths are kept five times larger so
/// that the fractions stay exact until the final rounding.
pub open spec fn arrow_head(start: Pos, end: Pos, size: int) -> (Pos, Pos, Pos) {
    let dx = end.x - start.x;
    let dy = end.y - start.y;
    let len = seg_len(start, end);
    let head5 = min_int(5 * max_int(4 * size, 10), 4 * len);
    let width5 = min_int(5 * max_int(3 * size, 6), 3 * len);
    let bx = crate::geometry::to_i32(end.x - round_div(dx * head5, 5 * len));
    let by = crate::geometry::to_i32(end.y - round_div(dy * head5, 5 * len));
    let ox = round_div(-dy * width5, 10 * len);
    let oy = round_div(dx * width5, 10 * len);
    (
        Pos { x: bx, y: by },
        Pos { x: crate::geometry::to_i32(bx + ox), y: crate::geometry::to_i32(by + oy) },
        Pos { x: crate::geometry::to_i32(bx - ox), y: crate::geometry::to_i32(by - oy) },
    )
}

/// Computes the arrowhead corners `(base, left, right)`.
pub fn arrow_head_points(start: Pos, end: Pos, size: u32) -> (r: (Pos, Pos, Pos))
    ensures
        r == arrow_head(start, end, size as int),
{
    let dx = end.x as i128 - start.x as i128;
    let dy = end.y as i128 - start.y as i128;
    let sq = mul_small(dx, dx) + mul_small(dy, dy);
    assert(0 <= dx * dx && 0 <= dy * dy) by (nonlinear_arith);
    assert(dx * dx <= 0x1_0000_0000_0000_0000 && dy * dy <= 0x1_0000_0000_0000_0000)
        by (nonlinear_arith)
        requires
            -0x1_0000_0000 <= dx <= 0x1_0000_0000,
            -0x1_0000_0000 <= dy <= 0x1_0000_0000,
    ;
    let root = isqrt_wide(sq as u128) as i128;
    let len: i128 = if root < 1 { 1 } else { root };
    assert(len == seg_len(start, end));
    let s = size as i128;
    let h_a: i128 = if 4 * s >= 10 { 4 * s } else { 10 };
    let head5: i128 = if 5 * h_a <= 4 * len { 5 * h_a } else { 4 * len };
    let w_a: i128 = if 3 * s >= 6 { 3 * s } else { 6 };
    let width5: i128 = if 5 * w_a <= 3 * len { 5 * w_a } else { 3 * len };
    let bx = crate::geometry::clamp_to_i32(end.x as i128 - round_div_i128(mul_small(dx, head5), 5 * len));
    let by = crate::geometry::clamp_to_i32(end.y as i128 - round_div_i128(mul_small(dy, head5), 5 * len));
    let ox = round_div_i128(mul_small(-dy, width5), 10 * len);
    let oy = round_div_i128(mul_small(dx, width5), 10 * len);
    (
        Pos { x: bx, y: by },
        Pos { x: crate::geometry::clamp_to_i32(bx as i128 + ox), y: crate::geometry::clamp_to_i32(by as i128 + oy) },
        Pos { x: crate::geometry::clamp_to_i32(bx as i128 - ox), y: crate::geometry::clamp_to_i32(by as i128 - oy) },
    )
}

/// The filled arrowhead of the arrow `start → end`: the triangle from the
/// tip to the two base corners.
pub open spec fn arrow_head_spec(img: ImageView, start: Pos, end: Pos, c: Rgba, size: int) -> ImageView {
    let (_base, left, right) = arrow_head(start, end, size);
    triangle_spec(img, end, left, right, c)
}

/// Fills the arrowhead of the arrow `start → end`.
pub fn draw_arrow_head_image(img: &mut Image, start: Pos, end: Pos, color: Rgba, size: u32)
    requires
        old(img).wf(),
    ensures
        final(img).wf(),
        final(img)@ == arrow_head_spec(old(img)@, start, end, color, size as int),
{
    let (_base, left, right) = arrow_head_points(start, end, size);
    fill_triangle(img, end, left, right, color);
}

/// Perceptual luminance below the midpoint:
/// `0.2126 R + 0.7152 G + 0.0722 B < 128`, in exact integer form.
pub open spec fn is_dark(c: Rgba) -> bool {
    2126 * (c.r as int) + 7152 * (c.g as int) + 722 * (c.b as int) < 1_280_000
}

pub fn color_is_dark(c: Rgba) -> (r: bool)
    ensures
        r == is_dark(c),
{
    2126 * (c.r as u32) + 7152 * (c.g as u32) + 722 * (c.b as u32) < 1_280_000
}

pub open spec fn white() -> Rgba {
    Rgba { r: 255, g: 255, b: 255, a: 255 }
}

pub open spec fn black() -> Rgba {
    Rgba { r: 0, g: 0, b: 0, a: 255 }
}

/// The foreground and the ring colours that stand out against `c`: white
/// on black for a dark colour, black on white otherwise.
pub open spec fn contrast_of(c: Rgba) -> (Rgba, Rgba) {
    if is_dark(c) {
        (white(), black())
    } else {
        (black(), white())
    }
}

pub fn circlecount_contrast_colors(c: Rgba) -> (r: (Rgba, Rgba))
    ensures
        r == contrast_of(c),
{
    let white = Rgba { r: 255, g: 255, b: 255, a: 255 };
    let black = Rgba { r: 0, g: 0, b: 0, a: 255 };
    if color_is_dark(c) {
        (white, black)
    } else {
        (black, white)
    }
}

/// `c` with its alpha channel replaced.
pub fn with_alpha(c: Rgba, alpha: u8) -> (r: Rgba)
    ensures
        r == (Rgba { r: c.r, g: c.g, b: c.b, a: alpha }),
{
    Rgba { r: c.r, g: c.g, b: c.b, a: alpha }
}

} // verus!


