//! Placement of the editor's chrome in screen space: the tool buttons laid
//! out around the crop region, and boxes shifted back inside the image.

use crate::geometry::{clamp_int, max_int, min_int, to_i32, clamp_to_i32, Pos, Rect};
use vstd::prelude::*;

verus! {

/// The crop region (image pixels) as shown on screen: image coordinates
/// divided by the scale, offset by the image's screen origin.
pub open spec fn screen_rect_of(sel: Rect, origin: Pos, scale: int) -> Rect {
    Rect {
        min: Pos { x: to_i32(origin.x + (sel.min.x as int) / scale), y: to_i32(origin.y + (sel.min.y as int) / scale) },
        max: Pos { x: to_i32(origin.x + (sel.max.x as int) / scale), y: to_i32(origin.y + (sel.max.y as int) / scale) },
    }
}

pub fn selection_screen_rect(sel: Rect, origin: Pos, scale: u16) -> (r: Rect)
    requires
        scale >= 1,
    ensures
        r == screen_rect_of(sel, origin, scale as int),
{
    let s = scale as i64;
    Rect {
        min: Pos {
            x: clamp_to_i32(origin.x as i128 + (div_floor(sel.min.x as i64, s) as i128)),
            y: clamp_to_i32(origin.y as i128 + (div_floor(sel.min.y as i64, s) as i128)),
        },
        max: Pos {
            x: clamp_to_i32(origin.x as i128 + (div_floor(sel.max.x as i64, s) as i128)),
            y: clamp_to_i32(origin.y as i128 + (div_floor(sel.max.y as i64, s) as i128)),
        },
    }
}

/// Division rounding towards negative infinity.
fn div_floor(a: i64, b: i64) -> (q: i64)
    requires
        1 <= b <= 0x1_0000,
        -0x1_0000_0000 <= a <= 0x1_0000_0000,
    ensures
        q == a / b,
{
    if a >= 0 {
        a / b
    } else {
        let n = -a;
        let q = (n + b - 1) / b;
        proof {
            let (ai, bi, ni) = (a as int, b as int, n as int);
            vstd::arithmetic::div_mod::lemma_fundamental_div_mod(ai, bi);
            vstd::arithmetic::div_mod::lemma_fundamental_div_mod(ni + bi - 1, bi);
            assert(-(ai / bi) == (ni + bi - 1) / bi) by (nonlinear_arith)
                requires
                    bi * (ai / bi) + ai % bi == ai,
                    0 <= ai % bi < bi,
                    bi * ((ni + bi - 1) / bi) + (ni + bi - 1) % bi == ni + bi - 1,
                    0 <= (ni + bi - 1) % bi < bi,
                    ni == -ai,
                    bi >= 1,
            ;
        }
        -q
    }
}

/// `count` button positions in a row at height `y`, centred on
/// `center_x`, pushed back so that the row ends within `bounds`.
pub open spec fn row_spec(center_x: int, y: int, count: int, bw: int, bh: int, spacing: int, bounds: Rect) -> Seq<Pos> {
    let total = count * bw + max_int(count - 1, 0) * spacing;
    let start = clamp_int(center_x - total / 2, bounds.min.x as int, bounds.max.x - total);
    Seq::new(count as nat, |i: int| Pos { x: to_i32(start + i * (bw + spacing)), y: to_i32(y) })
}

/// `count` button positions in a column at `x`, centred on `center_y`,
/// pushed back so that the column ends within `bounds`.
pub open spec fn col_spec(center_y: int, x: int, count: int, bw: int, bh: int, spacing: int, bounds: Rect) -> Seq<Pos> {
    let total = count * bh + max_int(count - 1, 0) * spacing;
    let start = clamp_int(center_y - total / 2, bounds.min.y as int, bounds.max.y - total);
    Seq::new(count as nat, |i: int| Pos { x: to_i32(x), y: to_i32(start + i * (bh + spacing)) })
}

fn line_positions(center: i64, across: i64, count: u64, len: i64, spacing: i64, lo: i64, hi: i64, horizontal: bool) -> (r: Vec<Pos>)
    requires
        -0x1_0000_0000 <= center <= 0x1_0000_0000,
        -0x1_0000_0000 <= across <= 0x1_0000_0000,
        count <= 0x1_0000,
        0 <= len <= 0x1_0000,
        0 <= spacing <= 0x1_0000,
        -0x1_0000_0000 <= lo <= 0x1_0000_0000,
        -0x1_0000_0000 <= hi <= 0x1_0000_0000,
    ensures
        r@.len() == count,
        ({
            let total = count * len + max_int(count - 1, 0) * spacing;
            let start = clamp_int(center - total / 2, lo as int, hi - total);
            forall|i: int| 0 <= i < count ==> #[trigger] r@[i] == (if horizontal {
                Pos { x: to_i32(start + i * (len + spacing)), y: to_i32(across as int) }
            } else {
                Pos { x: to_i32(across as int), y: to_i32(start + i * (len + spacing)) }
            })
        }),
{
    assert(0 <= count * len <= 0x1_0000 * 0x1_0000 && 0 <= count * spacing <= 0x1_0000 * 0x1_0000)
        by (nonlinear_arith)
        requires
            count <= 0x1_0000,
            0 <= len <= 0x1_0000,
            0 <= spacing <= 0x1_0000,
    ;
    let gaps: i64 = if count >= 1 { count as i64 - 1 } else { 0 };
    assert(0 <= gaps * spacing <= count * spacing) by (nonlinear_arith)
        requires
            0 <= gaps <= count,
            0 <= spacing,
    ;
    let total: i64 = count as i64 * len + gaps * spacing;
    let want = center - total / 2;
    let top = hi - total;
    let start: i64 = if want < lo { lo } else if want > top { top } else { want };
    let mut r: Vec<Pos> = Vec::new();
    let mut i: u64 = 0;
    while i < count
        invariant
            0 <= i <= count,
            count <= 0x1_0000,
            r@.len() == i,
            -0x3_0000_0000 <= start <= 0x3_0000_0000,
            0 <= len + spacing <= 0x2_0000,
            forall|j: int| 0 <= j < i ==> #[trigger] r@[j] == (if horizontal {
                Pos { x: to_i32(start + j * (len + spacing)), y: to_i32(across as int) }
            } else {
                Pos { x: to_i32(across as int), y: to_i32(start + j * (len + spacing)) }
            }),
        decreases count - i,
    {
        assert(0 <= i * (len + spacing) <= 0x1_0000 * 0x2_0000) by (nonlinear_arith)
            requires
                0 <= i <= 0x1_0000,
                0 <= len + spacing <= 0x2_0000,
        ;
        let along = clamp_to_i32(start as i128 + (i as i128) * ((len + spacing) as i128));
        let fixed = clamp_to_i32(across as i128);
        if horizontal {
            r.push(Pos { x: along, y: fixed });
        } else {
            r.push(Pos { x: fixed, y: along });
        }
        i = i + 1;
    }
    r
}

/// Buttons in a row: `count` of them at height `y`, centred on `center_x`
/// and kept within `bounds`.
pub fn row_positions(center_x: i32, y: i32, count: u16, bw: u16, bh: u16, spacing: u16, bounds: Rect) -> (r: Vec<Pos>)
    ensures
        r@ == row_spec(center_x as int, y as int, count as int, bw as int, bh as int, spacing as int, bounds),
{
    let r = line_positions(center_x as i64, y as i64, count as u64, bw as i64, spacing as i64, bounds.min.x as i64, bounds.max.x as i64, true);
    assert(r@ =~= row_spec(center_x as int, y as int, count as int, bw as int, bh as int, spacing as int, bounds));
    r
}

/// Buttons in a column: `count` of them at `x`, centred on `center_y` and
/// kept within `bounds`.
pub fn col_positions(center_y: i32, x: i32, count: u16, bw: u16, bh: u16, spacing: u16, bounds: Rect) -> (r: Vec<Pos>)
    ensures
        r@ == col_spec(center_y as int, x as int, count as int, bw as int, bh as int, spacing as int, bounds),
{
    let r = line_positions(center_y as i64, x as i64, count as u64, bh as i64, spacing as i64, bounds.min.y as i64, bounds.max.y as i64, false);
    assert(r@ =~= col_spec(center_y as int, x as int, count as int, bw as int, bh as int, spacing as int, bounds));
    r
}

/// How many buttons of length `len` (plus `spacing`) fit along `extent`.
pub open spec fn fit(extent: int, len: int, spacing: int) -> int {
    max_int((extent + spacing) / (len + spacing), 0)
}

/// The four sides tried in turn, each taking what it can of the buttons
/// still to place: below the region, right of it, above it, left of it.
/// A side is used only when its row or column lies within `bounds`, and
/// holds no more buttons than fit along the region (at least one) and
/// along the bounds. When no side takes any, one row is put at the
/// region's bottom edge, clamped into the bounds.
/// How many buttons go on each side, in the order below, right, above,
/// left, and how many are left over.
pub open spec fn side_counts(sel: Rect, bounds: Rect, bw: int, bh: int, spacing: int, count: int) -> (int, int, int, int, int) {
    let fit_row = fit(bounds.span_x(), bw, spacing);
    let fit_col = fit(bounds.span_y(), bh, spacing);
    let by_w = max_int((max_int(sel.span_x(), bw) + spacing) / (bw + spacing), 1);
    let by_h = max_int((max_int(sel.span_y(), bh) + spacing) / (bh + spacing), 1);
    let y1 = sel.max.y + spacing;
    let n1 = if y1 >= bounds.min.y && y1 + bh <= bounds.max.y { min_int(min_int(count, by_w), fit_row) } else { 0 };
    let left1 = count - n1;
    let x2 = sel.max.x + spacing;
    let n2 = if left1 > 0 && x2 >= bounds.min.x && x2 + bw <= bounds.max.x { min_int(min_int(left1, by_h), fit_col) } else { 0 };
    let left2 = left1 - n2;
    let y3 = sel.min.y - spacing - bh;
    let n3 = if left2 > 0 && y3 >= bounds.min.y && y3 + bh <= bounds.max.y { min_int(min_int(left2, by_w), fit_row) } else { 0 };
    let left3 = left2 - n3;
    let x4 = sel.min.x - spacing - bw;
    let n4 = if left3 > 0 && x4 >= bounds.min.x && x4 + bw <= bounds.max.x { min_int(min_int(left3, by_h), fit_col) } else { 0 };
    (n1, n2, n3, n4, left3 - n4)
}

/// The four sides tried in turn, each taking what it can of the buttons
/// still to place: below the region, right of it, above it, left of it.
/// A side is used only when its row or column lies within `bounds`, and
/// holds no more buttons than fit along the region (at least one) and
/// along the bounds. When no side takes any, one row is put at the
/// region's bottom edge, clamped into the bounds. Buttons of no size with
/// no spacing get no places.
pub open spec fn layout_spec(sel: Rect, bounds: Rect, bw: int, bh: int, spacing: int, count: int) -> Seq<Pos> {
    let fit_row = fit(bounds.span_x(), bw, spacing);
    let fit_col = fit(bounds.span_y(), bh, spacing);
    let cx = (sel.min.x + sel.max.x) / 2;
    let cy = (sel.min.y + sel.max.y) / 2;
    if bw + spacing == 0 || bh + spacing == 0 || (fit_row == 0 && fit_col == 0) {
        Seq::empty()
    } else {
        let (n1, n2, n3, n4, rest) = side_counts(sel, bounds, bw, bh, spacing, count);
        let placed = row_spec(cx, sel.max.y + spacing, n1, bw, bh, spacing, bounds)
            + col_spec(cy, sel.max.x + spacing, n2, bw, bh, spacing, bounds)
            + row_spec(cx, sel.min.y - spacing - bh, n3, bw, bh, spacing, bounds)
            + col_spec(cy, sel.min.x - spacing - bw, n4, bw, bh, spacing, bounds);
        if rest > 0 && placed.len() == 0 {
            let y = clamp_int(sel.max.y - bh, bounds.min.y as int, bounds.max.y - bh);
            row_spec(cx, y, min_int(rest, max_int(fit_row, 1)), bw, bh, spacing, bounds)
        } else {
            placed
        }
    }
}

fn fit_count(extent: i64, len: i64, spacing: i64) -> (n: i64)
    requires
        -0x2_0000_0000 <= extent <= 0x2_0000_0000,
        1 <= len + spacing,
        0 <= len <= 0x1_0000,
        0 <= spacing <= 0x1_0000,
    ensures
        n == fit(extent as int, len as int, spacing as int),
        0 <= n <= 0x2_0001_0000,
{
    let q = div_floor_wide(extent + spacing, len + spacing);
    if q < 0 {
        0
    } else {
        q
    }
}

fn div_floor_wide(a: i64, b: i64) -> (q: i64)
    requires
        1 <= b <= 0x2_0000,
        -0x3_0000_0000 <= a <= 0x3_0000_0000,
    ensures
        q == a / b,
        a >= 0 ==> 0 <= q <= a,
        a < 0 ==> q < 0,
{
    if a >= 0 {
        proof {
            vstd::arithmetic::div_mod::lemma_div_is_ordered_by_denominator(a as int, 1, b as int);
            vstd::arithmetic::div_mod::lemma_div_pos_is_pos(a as int, b as int);
        }
        a / b
    } else {
        let n = -a;
        let q = (n + b - 1) / b;
        proof {
            let (ai, bi, ni) = (a as int, b as int, n as int);
            vstd::arithmetic::div_mod::lemma_fundamental_div_mod(ai, bi);
            vstd::arithmetic::div_mod::lemma_fundamental_div_mod(ni + bi - 1, bi);
            assert(-(ai / bi) == (ni + bi - 1) / bi) by (nonlinear_arith)
                requires
                    bi * (ai / bi) + ai % bi == ai,
                    0 <= ai % bi < bi,
                    bi * ((ni + bi - 1) / bi) + (ni + bi - 1) % bi == ni + bi - 1,
                    0 <= (ni + bi - 1) % bi < bi,
                    ni == -ai,
                    bi >= 1,
            ;
            vstd::arithmetic::div_mod::lemma_div_is_ordered(bi, ni + bi - 1, bi);
            vstd::arithmetic::div_mod::lemma_div_by_multiple(1, bi);
            vstd::arithmetic::div_mod::lemma_div_is_ordered_by_denominator(ni + bi - 1, 1, bi);
        }
        -q
    }
}

fn min3_i64(a: i64, b: i64, c: i64) -> (r: i64)
    ensures
        r == min_int(min_int(a as int, b as int), c as int),
{
    let m = if a <= b { a } else { b };
    if m <= c { m } else { c }
}

fn side_take(ok: bool, left: i64, by: i64, fit: i64) -> (n: i64)
    ensures
        n == (if ok {
            min_int(min_int(left as int, by as int), fit as int)
        } else {
            0
        }),
{
    if ok {
        min3_i64(left, by, fit)
    } else {
        0
    }
}

fn along_region(extent: i64, len: i64, sp: i64) -> (n: i64)
    requires
        -0x1_0000_0000 <= extent <= 0x1_0000_0000,
        0 <= len <= 0x1_0000,
        0 <= sp <= 0x1_0000,
        len + sp >= 1,
    ensures
        n == max_int((max_int(extent as int, len as int) + sp) / (len + sp), 1),
        n >= 1,
{
    let e = if extent >= len { extent } else { len };
    let q = div_floor_wide(e + sp, len + sp);
    if q >= 1 {
        q
    } else {
        1
    }
}

#[verifier::rlimit(40)]
fn side_counts_exec(sel: Rect, bounds: Rect, bw: i64, bh: i64, sp: i64, count: i64, fit_row: i64, fit_col: i64) -> (r: (i64, i64, i64, i64, i64))
    requires
        0 <= bw <= 0x1_0000,
        0 <= bh <= 0x1_0000,
        0 <= sp <= 0x1_0000,
        bw + sp >= 1,
        bh + sp >= 1,
        0 <= count <= 0x1_0000,
        fit_row == fit(bounds.span_x(), bw as int, sp as int),
        fit_col == fit(bounds.span_y(), bh as int, sp as int),
        0 <= fit_row <= 0x2_0001_0000,
        0 <= fit_col <= 0x2_0001_0000,
    ensures
        (r.0 as int, r.1 as int, r.2 as int, r.3 as int, r.4 as int) == side_counts(sel, bounds, bw as int, bh as int, sp as int, count as int),
        0 <= r.0 <= 0x1_0000,
        0 <= r.1 <= 0x1_0000,
        0 <= r.2 <= 0x1_0000,
        0 <= r.3 <= 0x1_0000,
{
    let by_w = along_region(sel.width(), bw, sp);
    let by_h = along_region(sel.height(), bh, sp);
    let y1 = sel.max.y as i64 + sp;
    let n1 = side_take(y1 >= bounds.min.y as i64 && y1 + bh <= bounds.max.y as i64, count, by_w, fit_row);
    let left1 = count - n1;
    let x2 = sel.max.x as i64 + sp;
    let n2 = side_take(left1 > 0 && x2 >= bounds.min.x as i64 && x2 + bw <= bounds.max.x as i64, left1, by_h, fit_col);
    let left2 = left1 - n2;
    let y3 = sel.min.y as i64 - sp - bh;
    let n3 = side_take(left2 > 0 && y3 >= bounds.min.y as i64 && y3 + bh <= bounds.max.y as i64, left2, by_w, fit_row);
    let left3 = left2 - n3;
    let x4 = sel.min.x as i64 - sp - bw;
    let n4 = side_take(left3 > 0 && x4 >= bounds.min.x as i64 && x4 + bw <= bounds.max.x as i64, left3, by_h, fit_col);
    (n1, n2, n3, n4, left3 - n4)
}

/// Positions for `count` tool buttons of `bw × bh` around the crop region
/// `sel`, inside `bounds` (all in screen pixels).
pub fn layout_tool_buttons(sel: Rect, bounds: Rect, bw: u16, bh: u16, spacing: u16, count: u16) -> (r: Vec<Pos>)
    ensures
        r@ == layout_spec(sel, bounds, bw as int, bh as int, spacing as int, count as int),
{
    let (bw, bh, sp) = (bw as i64, bh as i64, spacing as i64);
    if bw + sp == 0 || bh + sp == 0 {
        return Vec::new();
    }
    let fit_row = fit_count(bounds.width(), bw, sp);
    let fit_col = fit_count(bounds.height(), bh, sp);
    if fit_row == 0 && fit_col == 0 {
        return Vec::new();
    }
    let cx = div_floor_wide(sel.min.x as i64 + sel.max.x as i64, 2);
    let cy = div_floor_wide(sel.min.y as i64 + sel.max.y as i64, 2);
    let (n1, n2, n3, n4, rest) = side_counts_exec(sel, bounds, bw, bh, sp, count as i64, fit_row, fit_col);
    let y1 = sel.max.y as i64 + sp;
    let x2 = sel.max.x as i64 + sp;
    let y3 = sel.min.y as i64 - sp - bh;
    let x4 = sel.min.x as i64 - sp - bw;
    let mut out = line_positions(cx, y1, n1 as u64, bw, sp, bounds.min.x as i64, bounds.max.x as i64, true);
    let mut s2 = line_positions(cy, x2, n2 as u64, bh, sp, bounds.min.y as i64, bounds.max.y as i64, false);
    let mut s3 = line_positions(cx, y3, n3 as u64, bw, sp, bounds.min.x as i64, bounds.max.x as i64, true);
    let mut s4 = line_positions(cy, x4, n4 as u64, bh, sp, bounds.min.y as i64, bounds.max.y as i64, false);
    proof {
        assert(out@ =~= row_spec(cx as int, y1 as int, n1 as int, bw as int, bh as int, sp as int, bounds));
        assert(s2@ =~= col_spec(cy as int, x2 as int, n2 as int, bw as int, bh as int, sp as int, bounds));
        assert(s3@ =~= row_spec(cx as int, y3 as int, n3 as int, bw as int, bh as int, sp as int, bounds));
        assert(s4@ =~= col_spec(cy as int, x4 as int, n4 as int, bw as int, bh as int, sp as int, bounds));
    }
    let ghost placed = out@ + s2@ + s3@ + s4@;
    out.append(&mut s2);
    out.append(&mut s3);
    out.append(&mut s4);
    assert(out@ =~= placed);
    if rest > 0 && out.len() == 0 {
        let lo = bounds.min.y as i64;
        let hi = bounds.max.y as i64 - bh;
        let want = sel.max.y as i64 - bh;
        let y = if want < lo { lo } else if want > hi { hi } else { want };
        let cap = if fit_row >= 1 { fit_row } else { 1 };
        let n = if rest <= cap { rest } else { cap };
        let r = line_positions(cx, y, n as u64, bw, sp, bounds.min.x as i64, bounds.max.x as i64, true);
        assert(r@ =~= row_spec(cx as int, y as int, n as int, bw as int, bh as int, sp as int, bounds));
        return r;
    }
    out
}

/// `r` moved back inside `bounds` along each axis, first off the far
/// edge, then off the near one (the near edge wins when both are crossed).
pub open spec fn shift_in_far_first(r: Rect, bounds: Rect) -> Rect {
    let dx1 = if r.max.x > bounds.max.x { bounds.max.x - r.max.x } else { 0 };
    let dy1 = if r.max.y > bounds.max.y { bounds.max.y - r.max.y } else { 0 };
    let dx2 = if r.min.x + dx1 < bounds.min.x { bounds.min.x - (r.min.x + dx1) } else { 0 };
    let dy2 = if r.min.y + dy1 < bounds.min.y { bounds.min.y - (r.min.y + dy1) } else { 0 };
    Rect {
        min: Pos { x: to_i32(r.min.x + dx1 + dx2), y: to_i32(r.min.y + dy1 + dy2) },
        max: Pos { x: to_i32(r.max.x + dx1 + dx2), y: to_i32(r.max.y + dy1 + dy2) },
    }
}

fn shift_axis(lo: i64, hi: i64, blo: i64, bhi: i64) -> (d: i64)
    requires
        -0x1_0000_0000 <= lo <= 0x1_0000_0000,
        -0x1_0000_0000 <= hi <= 0x1_0000_0000,
        -0x1_0000_0000 <= blo <= 0x1_0000_0000,
        -0x1_0000_0000 <= bhi <= 0x1_0000_0000,
    ensures
        d == (if hi > bhi { bhi - hi } else { 0 }) + (if lo + (if hi > bhi { bhi - hi } else { 0 }) < blo {
            blo - (lo + (if hi > bhi { bhi - hi } else { 0 }))
        } else {
            0
        }),
{
    let d1 = if hi > bhi { bhi - hi } else { 0 };
    let d2 = if lo + d1 < blo { blo - (lo + d1) } else { 0 };
    d1 + d2
}

/// Moves a box of `size` anchored at `min` back inside `bounds`: used for
/// the selection HUD and the text entry box.
pub fn fit_box(min: Pos, w: u16, h: u16, bounds: Rect) -> (r: Rect)
    ensures
        r == shift_in_far_first(
            Rect { min, max: Pos { x: to_i32(min.x + w), y: to_i32(min.y + h) } },
            bounds,
        ),
{
    let max = Pos { x: clamp_to_i32(min.x as i128 + w as i128), y: clamp_to_i32(min.y as i128 + h as i128) };
    let dx = shift_axis(min.x as i64, max.x as i64, bounds.min.x as i64, bounds.max.x as i64);
    let dy = shift_axis(min.y as i64, max.y as i64, bounds.min.y as i64, bounds.max.y as i64);
    Rect {
        min: Pos { x: clamp_to_i32((min.x as i64 + dx) as i128), y: clamp_to_i32((min.y as i64 + dy) as i128) },
        max: Pos { x: clamp_to_i32((max.x as i64 + dx) as i128), y: clamp_to_i32((max.y as i64 + dy) as i128) },
    }
}


/// `r` moved back inside `bounds` along each axis, first off the near
/// edge, then off the far one (the far edge wins when both are crossed).
pub open spec fn shift_in_near_first(r: Rect, bounds: Rect) -> Rect {
    let dx1 = if r.min.x < bounds.min.x { bounds.min.x - r.min.x } else { 0 };
    let dx2 = if r.max.x + dx1 > bounds.max.x { bounds.max.x - (r.max.x + dx1) } else { 0 };
    let dy1 = if r.min.y < bounds.min.y { bounds.min.y - r.min.y } else { 0 };
    let dy2 = if r.max.y + dy1 > bounds.max.y { bounds.max.y - (r.max.y + dy1) } else { 0 };
    Rect {
        min: Pos { x: to_i32(r.min.x + dx1 + dx2), y: to_i32(r.min.y + dy1 + dy2) },
        max: Pos { x: to_i32(r.max.x + dx1 + dx2), y: to_i32(r.max.y + dy1 + dy2) },
    }
}

/// Two closed rectangles share at least a point.
pub open spec fn touches(a: Rect, b: Rect) -> bool {
    a.min.x <= b.max.x && b.min.x <= a.max.x && a.min.y <= b.max.y && b.min.y <= a.max.y
}

/// The `k`-th place tried for the tool controls panel, before shifting:
/// below the region at its right edge, below at its left edge, above at
/// the right edge, above at the left edge.
pub open spec fn panel_candidate(sel: Rect, pw: int, ph: int, spacing: int, k: int) -> Pos {
    let right = sel.max.x - pw;
    let below = sel.max.y + spacing;
    let above = sel.min.y - ph - spacing;
    Pos {
        x: to_i32(if k == 0 || k == 2 { right } else { sel.min.x as int }),
        y: to_i32(if k < 2 { below } else { above }),
    }
}

pub open spec fn panel_box(p: Pos, pw: int, ph: int) -> Rect {
    Rect { min: p, max: Pos { x: to_i32(p.x + pw), y: to_i32(p.y + ph) } }
}

/// The panel at candidate `k`, shifted into the image, is usable: it still
/// meets the image and meets none of the buttons.
pub open spec fn panel_fits(sel: Rect, image: Rect, pw: int, ph: int, spacing: int, buttons: Seq<Rect>, k: int) -> bool {
    let r = shift_in_near_first(panel_box(panel_candidate(sel, pw, ph, spacing, k), pw, ph), image);
    touches(r, image) && forall|i: int| 0 <= i < buttons.len() ==> !touches(#[trigger] buttons[i], r)
}

/// Where the tool controls panel goes: the first usable candidate from
/// `k` on; failing all, the first candidate shifted left, right and up
/// into the image.
pub open spec fn panel_from(sel: Rect, image: Rect, pw: int, ph: int, spacing: int, buttons: Seq<Rect>, k: int) -> Pos
    decreases 4 - k,
{
    if k >= 4 {
        let r = panel_box(panel_candidate(sel, pw, ph, spacing, 0), pw, ph);
        let dx1 = if r.min.x < image.min.x { image.min.x - r.min.x } else { 0 };
        let dx2 = if r.max.x + dx1 > image.max.x { image.max.x - (r.max.x + dx1) } else { 0 };
        let dy = if r.max.y > image.max.y { image.max.y - r.max.y } else { 0 };
        Pos { x: to_i32(r.min.x + dx1 + dx2), y: to_i32(r.min.y + dy) }
    } else if panel_fits(sel, image, pw, ph, spacing, buttons, k) {
        shift_in_near_first(panel_box(panel_candidate(sel, pw, ph, spacing, k), pw, ph), image).min
    } else {
        panel_from(sel, image, pw, ph, spacing, buttons, k + 1)
    }
}

fn near_first_axis(lo: i64, hi: i64, blo: i64, bhi: i64) -> (d: i64)
    requires
        -0x1_0000_0000 <= lo <= 0x1_0000_0000,
        -0x1_0000_0000 <= hi <= 0x1_0000_0000,
        -0x1_0000_0000 <= blo <= 0x1_0000_0000,
        -0x1_0000_0000 <= bhi <= 0x1_0000_0000,
    ensures
        d == (if lo < blo { blo - lo } else { 0 }) + (if hi + (if lo < blo { blo - lo } else { 0 }) > bhi {
            bhi - (hi + (if lo < blo { blo - lo } else { 0 }))
        } else {
            0
        }),
{
    let d1 = if lo < blo { blo - lo } else { 0 };
    let d2 = if hi + d1 > bhi { bhi - (hi + d1) } else { 0 };
    d1 + d2
}

fn touches_exec(a: &Rect, b: &Rect) -> (r: bool)
    ensures
        r == touches(*a, *b),
{
    a.min.x <= b.max.x && b.min.x <= a.max.x && a.min.y <= b.max.y && b.min.y <= a.max.y
}

fn panel_at(sel: Rect, image: Rect, pw: u16, ph: u16, spacing: u16, k: u8) -> (r: Rect)
    requires
        k < 4,
    ensures
        r == shift_in_near_first(panel_box(panel_candidate(sel, pw as int, ph as int, spacing as int, k as int), pw as int, ph as int), image),
{
    let right = sel.max.x as i128 - pw as i128;
    let below = sel.max.y as i128 + spacing as i128;
    let above = sel.min.y as i128 - ph as i128 - spacing as i128;
    let p = Pos {
        x: clamp_to_i32(if k == 0 || k == 2 { right } else { sel.min.x as i128 }),
        y: clamp_to_i32(if k < 2 { below } else { above }),
    };
    let q = Pos { x: clamp_to_i32(p.x as i128 + pw as i128), y: clamp_to_i32(p.y as i128 + ph as i128) };
    let dx = near_first_axis(p.x as i64, q.x as i64, image.min.x as i64, image.max.x as i64);
    let dy = near_first_axis(p.y as i64, q.y as i64, image.min.y as i64, image.max.y as i64);
    Rect {
        min: Pos { x: clamp_to_i32((p.x as i64 + dx) as i128), y: clamp_to_i32((p.y as i64 + dy) as i128) },
        max: Pos { x: clamp_to_i32((q.x as i64 + dx) as i128), y: clamp_to_i32((q.y as i64 + dy) as i128) },
    }
}

/// The top-left corner of the tool controls panel (`pw × ph`) for the
/// crop region `sel` on screen: the first of four places around the region
/// that, once shifted into the image, still meets the image and overlaps
/// no tool button.
pub fn place_tool_controls(sel: Rect, image: Rect, pw: u16, ph: u16, spacing: u16, buttons: &Vec<Rect>) -> (p: Pos)
    ensures
        p == panel_from(sel, image, pw as int, ph as int, spacing as int, buttons@, 0),
{
    let mut k: u8 = 0;
    while k < 4
        invariant
            k <= 4,
            panel_from(sel, image, pw as int, ph as int, spacing as int, buttons@, 0) == panel_from(
                sel,
                image,
                pw as int,
                ph as int,
                spacing as int,
                buttons@,
                k as int,
            ),
        decreases 4 - k,
    {
        let r = panel_at(sel, image, pw, ph, spacing, k);
        if touches_exec(&r, &image) {
            let mut clear = true;
            let mut i: usize = 0;
            while i < buttons.len()
                invariant
                    0 <= i <= buttons@.len(),
                    clear == forall|j: int| 0 <= j < i ==> !touches(#[trigger] buttons@[j], r),
                decreases buttons@.len() - i,
            {
                if touches_exec(&buttons[i], &r) {
                    clear = false;
                }
                i = i + 1;
            }
            if clear {
                return r.min;
            }
        }
        k = k + 1;
    }
    let p = Pos { x: clamp_to_i32(sel.max.x as i128 - pw as i128), y: clamp_to_i32(sel.max.y as i128 + spacing as i128) };
    let q = Pos { x: clamp_to_i32(p.x as i128 + pw as i128), y: clamp_to_i32(p.y as i128 + ph as i128) };
    let dx = near_first_axis(p.x as i64, q.x as i64, image.min.x as i64, image.max.x as i64);
    let dy: i64 = if q.y > image.max.y { image.max.y as i64 - q.y as i64 } else { 0 };
    Pos { x: clamp_to_i32((p.x as i64 + dx) as i128), y: clamp_to_i32((p.y as i64 + dy) as i128) }
}

} // verus!

