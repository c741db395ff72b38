//! Compositing: replaying an ordered shape list onto a copy of the base
//! image, and the callout bubble that only shapes draw.

use crate::effects::{apply_blur, apply_pixelate, blur_rect_spec, pixelate_rect_spec, MAX_BLUR_RADIUS};
use crate::geometry::{clamp_to_i32, isqrt_wide, max_int, min_int, round_div, round_div_i128, span, to_i32, Pos, Rect};
use crate::glyphs::{draw_text_bitmap, text_spec};
use crate::pixels::{Image, ImageView, Rgba};
use crate::raster::{
    arrow_head, arrow_head_points, arrow_head_spec, circlecount_contrast_colors, contrast_of,
    disc_spec, draw_arrow_head_image, draw_ellipse, draw_filled_circle, draw_line, draw_polyline,
    ellipse_spec, fill_quad, line_spec, polyline_spec, seg_len, triangle_spec,
};
use crate::shapes::{CircleCountShape, EffectKind, Shape};
use vstd::prelude::*;

verus! {

/// Added to a callout's brush size to give its bubble radius.
pub const CIRCLECOUNT_THICKNESS_OFFSET: u32 = 15;

/// Width of the contrasting ring around a callout bubble.
pub const CIRCLECOUNT_PADDING: u32 = 2;

pub open spec fn bubble_radius(size: int) -> int {
    size + CIRCLECOUNT_THICKNESS_OFFSET
}

pub fn circlecount_bubble_size(size: u16) -> (r: u32)
    ensures
        r == bubble_radius(size as int),
{
    size as u32 + CIRCLECOUNT_THICKNESS_OFFSET
}

pub open spec fn digit_char(d: int) -> char {
    if d == 0 {
        '0'
    } else if d == 1 {
        '1'
    } else if d == 2 {
        '2'
    } else if d == 3 {
        '3'
    } else if d == 4 {
        '4'
    } else if d == 5 {
        '5'
    } else if d == 6 {
        '6'
    } else if d == 7 {
        '7'
    } else if d == 8 {
        '8'
    } else {
        '9'
    }
}

/// The decimal digits of `n`, most significant first.
pub open spec fn decimal(n: nat) -> Seq<char>
    decreases n,
{
    if n < 10 {
        seq![digit_char(n as int)]
    } else {
        decimal(n / 10).push(digit_char((n % 10) as int))
    }
}

fn digit(d: u32) -> (c: char)
    ensures
        c == digit_char(d as int),
{
    if d == 0 {
        '0'
    } else if d == 1 {
        '1'
    } else if d == 2 {
        '2'
    } else if d == 3 {
        '3'
    } else if d == 4 {
        '4'
    } else if d == 5 {
        '5'
    } else if d == 6 {
        '6'
    } else if d == 7 {
        '7'
    } else if d == 8 {
        '8'
    } else {
        '9'
    }
}

/// The decimal digits of `n`.
pub fn decimal_digits(n: u32) -> (r: Vec<char>)
    ensures
        r@ == decimal(n as nat),
        1 <= r@.len(),
    decreases n,
{
    if n < 10 {
        let mut v: Vec<char> = Vec::new();
        v.push(digit(n));
        assert(v@ =~= seq![digit_char(n as int)]);
        v
    } else {
        let mut v = decimal_digits(n / 10);
        v.push(digit(n % 10));
        proof {
            lemma_decimal_len(n as nat);
        }
        v
    }
}

proof fn lemma_decimal_len(n: nat)
    ensures
        1 <= decimal(n).len(),
    decreases n,
{
    if n >= 10 {
        lemma_decimal_len(n / 10);
    }
}

/// Scale of a label of `n` characters in a bubble of radius `bubble`: the
/// largest that keeps the label within `1.4 · bubble` both ways, but at
/// least one.
pub open spec fn label_scale(bubble: int, n: int) -> int {
    let limit = bubble * 7 / 5;
    max_int(min_int(limit / (6 * n - 1), limit / 7), 1)
}

/// Width and height of a label of `n` characters at `scale`: five lit
/// columns per character, one blank column between characters, seven rows.
pub open spec fn label_size(n: int, scale: int) -> (int, int) {
    ((6 * n - 1) * scale, 7 * scale)
}

pub fn circlecount_text_scale(bubble: u32, n: usize) -> (s: u32)
    requires
        1 <= n,
    ensures
        s == label_scale(bubble as int, n as int),
{
    let limit: u128 = bubble as u128 * 7 / 5;
    let a = limit / (6 * n as u128 - 1);
    let b = limit / 7;
    let m = if a <= b { a } else { b };
    if m < 1 {
        1
    } else {
        m as u32
    }
}

/// The corners of the leader wedge of a callout: the bubble centre pushed
/// `bubble` to either side, across the direction of the pointer.
pub open spec fn leader_corners(center: Pos, pointer: Pos, bubble: int) -> (Pos, Pos) {
    let dx = pointer.x - center.x;
    let dy = pointer.y - center.y;
    let len = seg_len(center, pointer);
    let ox = round_div(-dy * bubble, len);
    let oy = round_div(dx * bubble, len);
    (Pos { x: to_i32(center.x + ox), y: to_i32(center.y + oy) }, Pos { x: to_i32(center.x - ox), y: to_i32(center.y - oy) })
}

/// The pointer lies farther than `bubble` from the centre.
pub open spec fn leader_visible(center: Pos, pointer: Pos, bubble: int) -> bool {
    let dx = pointer.x - center.x;
    let dy = pointer.y - center.y;
    dx * dx + dy * dy > bubble * bubble
}

/// The leader wedge of a callout, drawn only when the pointer lies outside
/// the bubble.
pub open spec fn leader_spec(img: ImageView, cc: CircleCountShape) -> ImageView {
    let bubble = bubble_radius(cc.size as int);
    if leader_visible(cc.center, cc.pointer, bubble) {
        let (p1, p2) = leader_corners(cc.center, cc.pointer, bubble);
        triangle_spec(triangle_spec(img, cc.center, p1, cc.pointer, cc.color), cc.center, cc.pointer, p2, cc.color)
    } else {
        img
    }
}

/// The number of a callout, centred on the bubble.
pub open spec fn label_spec(img: ImageView, cc: CircleCountShape, c: Rgba) -> ImageView {
    let label = decimal(cc.count as nat);
    let scale = label_scale(bubble_radius(cc.size as int), label.len() as int);
    let (tw, th) = label_size(label.len() as int, scale);
    text_spec(img, to_i32(cc.center.x - tw / 2) as int, to_i32(cc.center.y - th / 2) as int, label, c, scale)
}

/// The contrasting ring of a callout with its one-pixel outline.
pub open spec fn ring_spec(img: ImageView, cc: CircleCountShape, contrast: Rgba, anti: Rgba) -> ImageView {
    let outer = bubble_radius(cc.size as int) + CIRCLECOUNT_PADDING;
    ellipse_spec(
        disc_spec(img, cc.center, outer, anti),
        Pos { x: to_i32(cc.center.x - outer), y: to_i32(cc.center.y - outer) },
        Pos { x: to_i32(cc.center.x + outer), y: to_i32(cc.center.y + outer) },
        contrast,
        1,
    )
}

/// A callout: the leader wedge (when the pointer is outside the bubble),
/// a contrasting ring with its outline, the bubble, and its number centred
/// in the contrasting colour.
pub open spec fn circle_count_spec(img: ImageView, cc: CircleCountShape) -> ImageView {
    let (contrast, anti) = contrast_of(cc.color);
    let ringed = ring_spec(leader_spec(img, cc), cc, contrast, anti);
    label_spec(disc_spec(ringed, cc.center, bubble_radius(cc.size as int), cc.color), cc, contrast)
}

fn draw_leader(img: &mut Image, cc: &CircleCountShape)
    requires
        old(img).wf(),
    ensures
        final(img).wf(),
        final(img)@ == leader_spec(old(img)@, *cc),
{
    let bubble = circlecount_bubble_size(cc.size);
    let dx = cc.pointer.x as i128 - cc.center.x as i128;
    let dy = cc.pointer.y as i128 - cc.center.y as i128;
    assert(0 <= dx * dx <= 0x1_0000_0000_0000_0000 && 0 <= dy * dy <= 0x1_0000_0000_0000_0000)
        by (nonlinear_arith)
        requires
            -0x1_0000_0000 <= dx <= 0x1_0000_0000,
            -0x1_0000_0000 <= dy <= 0x1_0000_0000,
    ;
    let sq = dx * dx + dy * dy;
    let bb = bubble as i128;
    assert(0 <= bb * bb <= 0x4_0000_0000) by (nonlinear_arith)
        requires
            0 <= bb <= 0x2_0000,
    ;
    if sq > bb * bb {
        let root = isqrt_wide(sq as u128) as i128;
        let len: i128 = if root < 1 { 1 } else { root };
        assert(len == seg_len(cc.center, cc.pointer));
        assert(-0x1_0000_0000_0000_0000_0000 <= -dy * bb <= 0x1_0000_0000_0000_0000_0000
            && -0x1_0000_0000_0000_0000_0000 <= dx * bb <= 0x1_0000_0000_0000_0000_0000)
            by (nonlinear_arith)
            requires
                -0x1_0000_0000 <= dx <= 0x1_0000_0000,
                -0x1_0000_0000 <= dy <= 0x1_0000_0000,
                0 <= bb <= 0x2_0000,
        ;
        let ox = round_div_i128(-dy * bb, len);
        let oy = round_div_i128(dx * bb, len);
        let p1 = Pos { x: clamp_to_i32(cc.center.x as i128 + ox), y: clamp_to_i32(cc.center.y as i128 + oy) };
        let p2 = Pos { x: clamp_to_i32(cc.center.x as i128 - ox), y: clamp_to_i32(cc.center.y as i128 - oy) };
        assert((p1, p2) == leader_corners(cc.center, cc.pointer, bubble as int));
        fill_quad(img, cc.center, p1, cc.pointer, p2, cc.color);
    }
}

fn draw_ring(img: &mut Image, cc: &CircleCountShape, contrast: Rgba, anti: Rgba)
    requires
        old(img).wf(),
    ensures
        final(img).wf(),
        final(img)@ == ring_spec(old(img)@, *cc, contrast, anti),
{
    let outer = circlecount_bubble_size(cc.size) + CIRCLECOUNT_PADDING;
    draw_filled_circle(img, cc.center, outer, anti);
    let o = outer as i128;
    let corner0 = Pos { x: clamp_to_i32(cc.center.x as i128 - o), y: clamp_to_i32(cc.center.y as i128 - o) };
    let corner1 = Pos { x: clamp_to_i32(cc.center.x as i128 + o), y: clamp_to_i32(cc.center.y as i128 + o) };
    draw_ellipse(img, corner0, corner1, contrast, 1);
}

fn draw_label(img: &mut Image, cc: &CircleCountShape, c: Rgba)
    requires
        old(img).wf(),
    ensures
        final(img).wf(),
        final(img)@ == label_spec(old(img)@, *cc, c),
{
    let bubble = circlecount_bubble_size(cc.size);
    let label = decimal_digits(cc.count);
    let scale = circlecount_text_scale(bubble, label.len());
    let n = label.len() as i128;
    assert(0 <= (6 * n - 1) * scale <= 6 * 0x1_0000_0000_0000_0000 * 0x1_0000_0000) by (nonlinear_arith)
        requires
            1 <= n <= 0x1_0000_0000_0000_0000,
            0 <= scale <= 0x1_0000_0000,
    ;
    let tw = (6 * n - 1) * scale as i128;
    let th = 7 * scale as i128;
    let tx = clamp_to_i32(cc.center.x as i128 - tw / 2);
    let ty = clamp_to_i32(cc.center.y as i128 - th / 2);
    draw_text_bitmap(img, tx, ty, &label, c, scale);
}

/// Draws a numbered callout.
pub fn draw_circle_count_image(img: &mut Image, cc: &CircleCountShape)
    requires
        old(img).wf(),
    ensures
        final(img).wf(),
        final(img)@ == circle_count_spec(old(img)@, *cc),
{
    let (contrast, anti) = circlecount_contrast_colors(cc.color);
    draw_leader(img, cc);
    draw_ring(img, cc, contrast, anti);
    draw_filled_circle(img, cc.center, circlecount_bubble_size(cc.size), cc.color);
    draw_label(img, cc, contrast);
}

/// Scale of a text label drawn with brush `size`: `size / 6` rounded, at
/// least one.
pub open spec fn text_scale(size: int) -> int {
    max_int((size + 3) / 6, 1)
}

/// Pixelation block for an effect of strength `size`: at least four.
pub open spec fn pixelate_block(size: int) -> int {
    max_int(size, 4)
}

/// Blur radius for an effect of strength `size`: at least two, at most
/// `MAX_BLUR_RADIUS`.
pub open spec fn blur_radius(size: int) -> int {
    min_int(max_int(size, 2), MAX_BLUR_RADIUS as int)
}

/// The four corners of the box spanned by two points, clockwise from the
/// top-left.
pub open spec fn box_corners(a: Pos, b: Pos) -> (Pos, Pos, Pos, Pos) {
    let r = span(a, b);
    (r.min, Pos { x: r.max.x, y: r.min.y }, r.max, Pos { x: r.min.x, y: r.max.y })
}

/// What drawing one shape does to an image. Effects read the image as the
/// shapes before them left it.
pub open spec fn shape_spec(img: ImageView, s: Shape, with_effects: bool) -> ImageView {
    match s {
        Shape::Stroke(st) => polyline_spec(img, st.points@, st.color, st.size as int),
        Shape::Line(l) => line_spec(img, l.start, l.end, l.color, l.size as int),
        Shape::Arrow(a) => {
            let (base, _l, _r) = arrow_head(a.start, a.end, a.size as int);
            arrow_head_spec(line_spec(img, a.start, base, a.color, a.size as int), a.start, a.end, a.color, a.size as int)
        },
        Shape::Rect(r) => {
            let (tl, tr, br, bl) = box_corners(r.start, r.end);
            let s = r.size as int;
            line_spec(line_spec(line_spec(line_spec(img, tl, tr, r.color, s), tr, br, r.color, s), br, bl, r.color, s), bl, tl, r.color, s)
        },
        Shape::Circle(c) => ellipse_spec(img, c.start, c.end, c.color, c.size as int),
        Shape::CircleCount(cc) => circle_count_spec(img, cc),
        Shape::Text(t) => text_spec(img, t.pos.x as int, t.pos.y as int, t.text@, t.color, text_scale(t.size as int)),
        Shape::Effect(e) => {
            if !with_effects {
                img
            } else {
                match e.kind {
                    EffectKind::Pixelate => pixelate_rect_spec(img, span(e.start, e.end), pixelate_block(e.size as int)),
                    EffectKind::Blur => blur_rect_spec(img, span(e.start, e.end), blur_radius(e.size as int)),
                }
            }
        },
    }
}

/// The first `k` shapes replayed in order onto `base`.
pub open spec fn render_upto(base: ImageView, shapes: Seq<Shape>, with_effects: bool, k: nat) -> ImageView
    decreases k,
{
    if k == 0 {
        base
    } else {
        shape_spec(render_upto(base, shapes, with_effects, (k - 1) as nat), shapes[k - 1], with_effects)
    }
}

/// Every shape replayed in list order onto `base`.
pub open spec fn render_spec(base: ImageView, shapes: Seq<Shape>, with_effects: bool) -> ImageView {
    render_upto(base, shapes, with_effects, shapes.len())
}

/// Draws one shape; effect shapes only when `with_effects` holds.
pub fn draw_shape(img: &mut Image, shape: &Shape, with_effects: bool)
    requires
        old(img).wf(),
    ensures
        final(img).wf(),
        final(img)@ == shape_spec(old(img)@, *shape, with_effects),
{
    match shape {
        Shape::Stroke(st) => draw_polyline(img, &st.points, st.color, st.size as u32),
        Shape::Line(l) => draw_line(img, l.start, l.end, l.color, l.size as u32),
        Shape::Arrow(a) => {
            let (base, _l, _r) = arrow_head_points(a.start, a.end, a.size as u32);
            draw_line(img, a.start, base, a.color, a.size as u32);
            draw_arrow_head_image(img, a.start, a.end, a.color, a.size as u32);
        },
        Shape::Rect(r) => {
            let b = Rect::from_two_pos(r.start, r.end);
            let tl = b.min;
            let tr = Pos { x: b.max.x, y: b.min.y };
            let br = b.max;
            let bl = Pos { x: b.min.x, y: b.max.y };
            let s = r.size as u32;
            draw_line(img, tl, tr, r.color, s);
            draw_line(img, tr, br, r.color, s);
            draw_line(img, br, bl, r.color, s);
            draw_line(img, bl, tl, r.color, s);
        },
        Shape::Circle(c) => draw_ellipse(img, c.start, c.end, c.color, c.size as u32),
        Shape::CircleCount(cc) => draw_circle_count_image(img, cc),
        Shape::Text(t) => {
            let q = (t.size as u32 + 3) / 6;
            let scale = if q < 1 { 1 } else { q };
            draw_text_bitmap(img, t.pos.x, t.pos.y, &t.text, t.color, scale);
        },
        Shape::Effect(e) => {
            if with_effects {
                let rect = Rect::from_two_pos(e.start, e.end);
                match e.kind {
                    EffectKind::Pixelate => {
                        let block = if e.size < 4 { 4 } else { e.size as u32 };
                        apply_pixelate(img, rect, block);
                    },
                    EffectKind::Blur => {
                        let r0 = if e.size < 2 { 2 } else { e.size as u32 };
                        let radius = if r0 > MAX_BLUR_RADIUS { MAX_BLUR_RADIUS } else { r0 };
                        apply_blur(img, rect, radius);
                    },
                }
            }
        },
    }
}

/// A fresh copy of `base` with every shape drawn on it in list order.
pub fn render_shapes(base: &Image, shapes: &Vec<Shape>, with_effects: bool) -> (img: Image)
    requires
        base.wf(),
    ensures
        img.wf(),
        img@ == render_spec(base@, shapes@, with_effects),
{
    let mut img = base.duplicate();
    let mut k: usize = 0;
    while k < shapes.len()
        invariant
            0 <= k <= shapes.len(),
            img.wf(),
            img@ == render_upto(base@, shapes@, with_effects, k as nat),
        decreases shapes.len() - k,
    {
        draw_shape(&mut img, &shapes[k], with_effects);
        k = k + 1;
    }
    img
}

proof fn lemma_polyline_spec_size(img: ImageView, pts: Seq<Pos>, c: Rgba, size: int)
    ensures
        polyline_spec(img, pts, c, size).same_size(img),
{
    if pts.len() >= 2 {
        crate::raster::lemma_polyline_size(img, pts, c, size, (pts.len() - 1) as nat);
    }
}

proof fn lemma_line_spec_size(img: ImageView, a: Pos, b: Pos, c: Rgba, size: int)
    ensures
        line_spec(img, a, b, c, size).same_size(img),
{
    crate::raster::lemma_line_size(img, a, b, c, size, (crate::raster::line_steps(a, b) + 1) as nat);
}

proof fn lemma_text_spec_size(img: ImageView, x: int, y: int, text: Seq<char>, c: Rgba, scale: int)
    ensures
        text_spec(img, x, y, text, c, scale).same_size(img),
{
    crate::glyphs::lemma_text_size(img, x, y, text, c, scale, text.len());
}

/// Drawing a shape keeps the image's size.
pub proof fn lemma_shape_size(img: ImageView, s: Shape, with_effects: bool)
    ensures
        shape_spec(img, s, with_effects).same_size(img),
{
    match s {
        Shape::Stroke(st) => lemma_polyline_spec_size(img, st.points@, st.color, st.size as int),
        Shape::Line(l) => lemma_line_spec_size(img, l.start, l.end, l.color, l.size as int),
        Shape::Arrow(a) => {
            let (base, _l, _r) = arrow_head(a.start, a.end, a.size as int);
            lemma_line_spec_size(img, a.start, base, a.color, a.size as int);
        },
        Shape::Rect(r) => {
            let (tl, tr, br, bl) = box_corners(r.start, r.end);
            let s = r.size as int;
            let i1 = line_spec(img, tl, tr, r.color, s);
            let i2 = line_spec(i1, tr, br, r.color, s);
            let i3 = line_spec(i2, br, bl, r.color, s);
            lemma_line_spec_size(img, tl, tr, r.color, s);
            lemma_line_spec_size(i1, tr, br, r.color, s);
            lemma_line_spec_size(i2, br, bl, r.color, s);
            lemma_line_spec_size(i3, bl, tl, r.color, s);
        },
        Shape::Circle(c) => lemma_polyline_spec_size(
            img,
            crate::raster::ellipse_outline(span(c.start, c.end)),
            c.color,
            c.size as int,
        ),
        Shape::CircleCount(cc) => {
            let (contrast, anti) = contrast_of(cc.color);
            let l = leader_spec(img, cc);
            let outer = bubble_radius(cc.size as int) + CIRCLECOUNT_PADDING;
            let d = disc_spec(l, cc.center, outer, anti);
            lemma_polyline_spec_size(
                d,
                crate::raster::ellipse_outline(
                    span(
                        Pos { x: to_i32(cc.center.x - outer), y: to_i32(cc.center.y - outer) },
                        Pos { x: to_i32(cc.center.x + outer), y: to_i32(cc.center.y + outer) },
                    ),
                ),
                contrast,
                1,
            );
            let ringed = ring_spec(l, cc, contrast, anti);
            let inner = disc_spec(ringed, cc.center, bubble_radius(cc.size as int), cc.color);
            let label = decimal(cc.count as nat);
            let scale = label_scale(bubble_radius(cc.size as int), label.len() as int);
            let (tw, th) = label_size(label.len() as int, scale);
            lemma_text_spec_size(
                inner,
                to_i32(cc.center.x - tw / 2) as int,
                to_i32(cc.center.y - th / 2) as int,
                label,
                contrast,
                scale,
            );
        },
        Shape::Text(t) => lemma_text_spec_size(img, t.pos.x as int, t.pos.y as int, t.text@, t.color, text_scale(t.size as int)),
        Shape::Effect(_) => {},
    }
}

/// Rendering keeps the base image's size.
pub proof fn lemma_render_size(base: ImageView, shapes: Seq<Shape>, with_effects: bool, k: nat)
    ensures
        render_upto(base, shapes, with_effects, k).same_size(base),
    decreases k,
{
    if k > 0 {
        lemma_render_size(base, shapes, with_effects, (k - 1) as nat);
        lemma_shape_size(render_upto(base, shapes, with_effects, (k - 1) as nat), shapes[k - 1], with_effects);
    }
}

/// Rendering is a function of the base image and the shape list alone:
/// two renders of the same inputs are identical.
pub proof fn lemma_render_deterministic(base1: ImageView, shapes1: Seq<Shape>, base2: ImageView, shapes2: Seq<Shape>, with_effects: bool)
    requires
        base1 == base2,
        shapes1 == shapes2,
    ensures
        render_spec(base1, shapes1, with_effects) == render_spec(base2, shapes2, with_effects),
{
}

} // verus!
