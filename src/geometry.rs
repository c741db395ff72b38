//! Points and rectangles in image pixel space, corner hit-testing and the
//! integer helpers (rounded division, square root) the rasterizer needs.

use vstd::prelude::*;

verus! {

/// A point in image pixel space.
#[derive(Clone, Copy, Debug, PartialEq, Eq, Structural)]
pub struct Pos {
    pub x: i32,
    pub y: i32,
}

impl Pos {
    pub fn new(x: i32, y: i32) -> (p: Pos)
        ensures
            p == (Pos { x, y }),
    {
        Pos { x, y }
    }
}

/// An axis-aligned rectangle given by two corners. It is normalized when
/// `min` is at most `max` on both axes.
#[derive(Clone, Copy, Debug, PartialEq, Eq, Structural)]
pub struct Rect {
    pub min: Pos,
    pub max: Pos,
}

pub open spec fn min_int(a: int, b: int) -> int {
    if a <= b {
        a
    } else {
        b
    }
}

pub open spec fn max_int(a: int, b: int) -> int {
    if a >= b {
        a
    } else {
        b
    }
}

pub open spec fn clamp_int(v: int, lo: int, hi: int) -> int {
    if v < lo {
        lo
    } else if v > hi {
        hi
    } else {
        v
    }
}

fn min_i32(a: i32, b: i32) -> (r: i32)
    ensures
        r == min_int(a as int, b as int),
{
    if a <= b {
        a
    } else {
        b
    }
}

fn max_i32(a: i32, b: i32) -> (r: i32)
    ensures
        r == max_int(a as int, b as int),
{
    if a >= b {
        a
    } else {
        b
    }
}

/// The rectangle spanned by two points, normalized.
pub open spec fn span(a: Pos, b: Pos) -> Rect {
    Rect {
        min: Pos { x: min_int(a.x as int, b.x as int) as i32, y: min_int(a.y as int, b.y as int) as i32 },
        max: Pos { x: max_int(a.x as int, b.x as int) as i32, y: max_int(a.y as int, b.y as int) as i32 },
    }
}

impl Rect {
    pub open spec fn is_normal(self) -> bool {
        self.min.x <= self.max.x && self.min.y <= self.max.y
    }

    /// Inclusive containment: points on the border are inside.
    pub open spec fn has(self, p: Pos) -> bool {
        self.min.x <= p.x <= self.max.x && self.min.y <= p.y <= self.max.y
    }

    /// Lies within `[0, w] × [0, h]`.
    pub open spec fn within(self, w: int, h: int) -> bool {
        0 <= self.min.x && 0 <= self.min.y && self.max.x <= w && self.max.y <= h
    }

    pub open spec fn span_x(self) -> int {
        self.max.x - self.min.x
    }

    pub open spec fn span_y(self) -> int {
        self.max.y - self.min.y
    }

    pub fn from_min_max(min: Pos, max: Pos) -> (r: Rect)
        ensures
            r == (Rect { min, max }),
    {
        Rect { min, max }
    }

    /// The rectangle spanned by two points, normalized.
    pub fn from_two_pos(a: Pos, b: Pos) -> (r: Rect)
        ensures
            r == span(a, b),
            r.is_normal(),
    {
        Rect {
            min: Pos { x: min_i32(a.x, b.x), y: min_i32(a.y, b.y) },
            max: Pos { x: max_i32(a.x, b.x), y: max_i32(a.y, b.y) },
        }
    }

    pub fn contains(&self, p: Pos) -> (r: bool)
        ensures
            r == self.has(p),
    {
        self.min.x <= p.x && p.x <= self.max.x && self.min.y <= p.y && p.y <= self.max.y
    }

    /// The overlap of two rectangles: the larger of the minimums and the
    /// smaller of the maximums. It is not normalized when they do not meet.
    pub fn intersect(&self, other: &Rect) -> (r: Rect)
        ensures
            r.min.x == max_int(self.min.x as int, other.min.x as int),
            r.min.y == max_int(self.min.y as int, other.min.y as int),
            r.max.x == min_int(self.max.x as int, other.max.x as int),
            r.max.y == min_int(self.max.y as int, other.max.y as int),
    {
        Rect {
            min: Pos { x: max_i32(self.min.x, other.min.x), y: max_i32(self.min.y, other.min.y) },
            max: Pos { x: min_i32(self.max.x, other.max.x), y: min_i32(self.max.y, other.max.y) },
        }
    }

    pub fn width(&self) -> (w: i64)
        ensures
            w == self.span_x(),
    {
        self.max.x as i64 - self.min.x as i64
    }

    pub fn height(&self) -> (h: i64)
        ensures
            h == self.span_y(),
    {
        self.max.y as i64 - self.min.y as i64
    }
}

/// The same rectangle with `min` and `max` swapped where inverted.
pub fn normalize_rect(rect: Rect) -> (r: Rect)
    ensures
        r == span(rect.min, rect.max),
        r.is_normal(),
{
    Rect::from_two_pos(rect.min, rect.max)
}

/// One of the four corner handles of a selection.
#[derive(Clone, Copy, Debug, PartialEq, Eq, Structural)]
pub enum SelectionCorner {
    TopLeft,
    TopRight,
    BottomLeft,
    BottomRight,
}

pub open spec fn corner_pos(rect: Rect, corner: SelectionCorner) -> Pos {
    match corner {
        SelectionCorner::TopLeft => rect.min,
        SelectionCorner::TopRight => Pos { x: rect.max.x, y: rect.min.y },
        SelectionCorner::BottomLeft => Pos { x: rect.min.x, y: rect.max.y },
        SelectionCorner::BottomRight => rect.max,
    }
}

/// `p` lies within distance `radius` of `q`.
pub open spec fn near(p: Pos, q: Pos, radius: int) -> bool {
    (p.x - q.x) * (p.x - q.x) + (p.y - q.y) * (p.y - q.y) <= radius * radius
}

/// The first corner, in the order top-left, top-right, bottom-left,
/// bottom-right, within `radius` of `pos`.
pub open spec fn corner_hit(rect: Rect, pos: Pos, radius: int) -> Option<SelectionCorner> {
    if near(pos, corner_pos(rect, SelectionCorner::TopLeft), radius) {
        Some(SelectionCorner::TopLeft)
    } else if near(pos, corner_pos(rect, SelectionCorner::TopRight), radius) {
        Some(SelectionCorner::TopRight)
    } else if near(pos, corner_pos(rect, SelectionCorner::BottomLeft), radius) {
        Some(SelectionCorner::BottomLeft)
    } else if near(pos, corner_pos(rect, SelectionCorner::BottomRight), radius) {
        Some(SelectionCorner::BottomRight)
    } else {
        None
    }
}

fn is_near(p: Pos, q: Pos, radius: u32) -> (r: bool)
    ensures
        r == near(p, q, radius as int),
{
    let dx = p.x as i128 - q.x as i128;
    let dy = p.y as i128 - q.y as i128;
    let rr = radius as i128;
    assert(0 <= dx * dx <= 0x1_0000_0000_0000_0000) by (nonlinear_arith)
        requires
            -0x1_0000_0000 <= dx <= 0x1_0000_0000,
    ;
    assert(0 <= dy * dy <= 0x1_0000_0000_0000_0000) by (nonlinear_arith)
        requires
            -0x1_0000_0000 <= dy <= 0x1_0000_0000,
    ;
    assert(0 <= rr * rr <= 0x1_0000_0000_0000_0000) by (nonlinear_arith)
        requires
            0 <= rr <= 0x1_0000_0000,
    ;
    dx * dx + dy * dy <= rr * rr
}

/// Which corner handle of `rect`, if any, `pos` is on.
pub fn hit_corner(rect: Rect, pos: Pos, radius: u32) -> (r: Option<SelectionCorner>)
    ensures
        r == corner_hit(rect, pos, radius as int),
{
    if is_near(pos, rect.min, radius) {
        Some(SelectionCorner::TopLeft)
    } else if is_near(pos, Pos { x: rect.max.x, y: rect.min.y }, radius) {
        Some(SelectionCorner::TopRight)
    } else if is_near(pos, Pos { x: rect.min.x, y: rect.max.y }, radius) {
        Some(SelectionCorner::BottomLeft)
    } else if is_near(pos, rect.max, radius) {
        Some(SelectionCorner::BottomRight)
    } else {
        None
    }
}

/// `v` clamped into the range of `i32`.
pub open spec fn to_i32(v: int) -> i32 {
    clamp_int(v, i32::MIN as int, i32::MAX as int) as i32
}

pub fn clamp_to_i32(v: i128) -> (r: i32)
    ensures
        r == to_i32(v as int),
{
    if v < i32::MIN as i128 {
        i32::MIN
    } else if v > i32::MAX as i128 {
        i32::MAX
    } else {
        v as i32
    }
}

/// `n / d` rounded to the nearest integer, halves away from zero.
pub open spec fn round_div(n: int, d: int) -> int {
    if n >= 0 {
        (2 * n + d) / (2 * d)
    } else {
        -((-2 * n + d) / (2 * d))
    }
}

pub fn round_div_i128(n: i128, d: i128) -> (r: i128)
    requires
        0 < d < 0x1_0000_0000_0000_0000_0000_0000_0000,
        -0x1_0000_0000_0000_0000_0000_0000_0000 < n < 0x1_0000_0000_0000_0000_0000_0000_0000,
    ensures
        r == round_div(n as int, d as int),
        -(2 * (n as int) + d) <= r <= 2 * (n as int) + d || -(-2 * (n as int) + d) <= r <= -2
            * (n as int) + d,
{
    proof {
        if n >= 0 {
            vstd::arithmetic::div_mod::lemma_div_is_ordered_by_denominator(2 * n + d, 1, 2 * d);
            vstd::arithmetic::div_mod::lemma_div_pos_is_pos(2 * n + d, 2 * d);
        } else {
            vstd::arithmetic::div_mod::lemma_div_is_ordered_by_denominator(-2 * n + d, 1, 2 * d);
            vstd::arithmetic::div_mod::lemma_div_pos_is_pos(-2 * n + d, 2 * d);
        }
    }
    if n >= 0 {
        (2 * n + d) / (2 * d)
    } else {
        let m: i128 = 0 - n;
        0 - (2 * m + d) / (2 * d)
    }
}

/// The integer square root: the largest `r` with `r * r <= n`.
pub open spec fn isqrt(n: nat) -> nat
    decreases n,
{
    if n == 0 {
        0
    } else {
        let r = isqrt((n - 1) as nat);
        if (r + 1) * (r + 1) <= n {
            r + 1
        } else {
            r
        }
    }
}

pub proof fn lemma_isqrt(n: nat)
    ensures
        isqrt(n) * isqrt(n) <= n < (isqrt(n) + 1) * (isqrt(n) + 1),
    decreases n,
{
    if n == 0 {
        assert(isqrt(0) == 0);
        let s = isqrt(n);
        assert(s == 0);
        assert(s * s == 0 && (s + 1) * (s + 1) == 1) by (nonlinear_arith)
            requires
                s == 0,
        ;
    } else {
        lemma_isqrt((n - 1) as nat);
        let r = isqrt((n - 1) as nat);
        assert(isqrt(n) == if (r + 1) * (r + 1) <= n {
            r + 1
        } else {
            r
        });
        if (r + 1) * (r + 1) <= n {
            assert(n < (r + 2) * (r + 2)) by (nonlinear_arith)
                requires
                    n - 1 < (r + 1) * (r + 1),
                    r >= 0,
            ;
            assert(isqrt(n) == r + 1);
        } else {
            assert(r * r <= n);
            assert(isqrt(n) == r);
        }
    }
}

proof fn lemma_isqrt_unique(n: nat, r: nat)
    requires
        r * r <= n < (r + 1) * (r + 1),
    ensures
        r == isqrt(n),
{
    lemma_isqrt(n);
    let s = isqrt(n);
    if r < s {
        assert((r + 1) * (r + 1) <= s * s) by (nonlinear_arith)
            requires
                r + 1 <= s,
                r >= 0,
        ;
    } else if s < r {
        assert((s + 1) * (s + 1) <= r * r) by (nonlinear_arith)
            requires
                s + 1 <= r,
                s >= 0,
        ;
    }
}

/// Integer square root of `n`, by bisection.
pub fn isqrt_wide(n: u128) -> (r: u128)
    requires
        n <= 0x4_0000_0000_0000_0000,
    ensures
        r == isqrt(n as nat),
        r * r <= n < (r + 1) * (r + 1),
        r <= 0x2_0000_0000,
{
    let mut lo: u128 = 0;
    let mut hi: u128 = 0x2_0000_0001;
    assert(n < hi * hi) by (nonlinear_arith)
        requires
            hi == 0x2_0000_0001,
            n <= 0x4_0000_0000_0000_0000,
    ;
    while hi - lo > 1
        invariant
            lo < hi <= 0x2_0000_0001,
            lo * lo <= n,
            n < hi * hi,
        decreases hi - lo,
    {
        let mid = lo + (hi - lo) / 2;
        assert(mid * mid <= 0x4_0000_0004_0000_0001) by (nonlinear_arith)
            requires
                mid <= 0x2_0000_0001,
        ;
        if mid * mid <= n {
            lo = mid;
        } else {
            hi = mid;
        }
    }
    proof {
        assert(hi == lo + 1);
        lemma_isqrt_unique(n as nat, lo as nat);
    }
    lo
}

} // verus!
