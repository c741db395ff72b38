//! The crop-region state machine: one rectangle in image space, created,
//! moved or resized by dragging, always kept inside the image.

use crate::geometry::{
    clamp_int, corner_hit, hit_corner, max_int, min_int, normalize_rect, span, Pos, Rect,
    SelectionCorner,
};
use vstd::prelude::*;

verus! {

/// Where the primary pointer button is in its press / hold / release cycle.
#[derive(Clone, Copy, Debug, PartialEq, Eq, Structural)]
pub enum PointerPhase {
    /// Went down this frame.
    Pressed,
    /// Is held down.
    Held,
    /// Went up this frame.
    Released,
    /// Up, and was up.
    Idle,
}

/// The drag in progress.
#[derive(Clone, Copy, Debug, PartialEq, Eq, Structural)]
pub enum SelectionDrag {
    /// Spanning a new rectangle from `start`.
    Creating { start: Pos },
    /// Moving the rectangle, grabbed at `offset` from its top-left corner.
    Moving { offset: Pos },
    /// Dragging one corner.
    Resizing { corner: SelectionCorner },
}

/// The pointer shape over the canvas.
#[derive(Clone, Copy, Debug, PartialEq, Eq, Structural)]
pub enum CursorIcon {
    Default,
    Crosshair,
    Grab,
    Grabbing,
    ResizeNwSe,
    ResizeNeSw,
}

/// The crop region and the drag acting on it.
#[derive(Clone, Copy, Debug, PartialEq, Eq, Structural)]
pub struct Selection {
    pub rect: Option<Rect>,
    pub drag: Option<SelectionDrag>,
}

/// The image as a rectangle: `[0, w] × [0, h]`.
pub open spec fn image_rect(w: int, h: int) -> Rect {
    Rect { min: Pos { x: 0, y: 0 }, max: Pos { x: w as i32, y: h as i32 } }
}

/// `rect` with one corner moved to `p`.
pub open spec fn with_corner(rect: Rect, corner: SelectionCorner, p: Pos) -> Rect {
    match corner {
        SelectionCorner::TopLeft => Rect { min: p, max: rect.max },
        SelectionCorner::TopRight => Rect { min: Pos { x: rect.min.x, y: p.y }, max: Pos { x: p.x, y: rect.max.y } },
        SelectionCorner::BottomLeft => Rect { min: Pos { x: p.x, y: rect.min.y }, max: Pos { x: rect.max.x, y: p.y } },
        SelectionCorner::BottomRight => Rect { min: rect.min, max: p },
    }
}

/// The overlap of two rectangles (larger minimums, smaller maximums).
pub open spec fn overlap(a: Rect, b: Rect) -> Rect {
    Rect {
        min: Pos { x: max_int(a.min.x as int, b.min.x as int) as i32, y: max_int(a.min.y as int, b.min.y as int) as i32 },
        max: Pos { x: min_int(a.max.x as int, b.max.x as int) as i32, y: min_int(a.max.y as int, b.max.y as int) as i32 },
    }
}

/// `rect` translated so that `p - offset` is its top-left corner, then
/// pushed back inside `[0, w] × [0, h]`; its size is kept.
pub open spec fn moved(rect: Rect, offset: Pos, p: Pos, w: int, h: int) -> Rect {
    let sx = rect.max.x - rect.min.x;
    let sy = rect.max.y - rect.min.y;
    let x = clamp_int(p.x - offset.x, 0, max_int(w - sx, 0));
    let y = clamp_int(p.y - offset.y, 0, max_int(h - sy, 0));
    Rect { min: Pos { x: x as i32, y: y as i32 }, max: Pos { x: (x + sx) as i32, y: (y + sy) as i32 } }
}

impl Selection {
    /// The region, if any, is normalized and inside `[0, w] × [0, h]`.
    pub open spec fn wf(self, w: int, h: int) -> bool {
        &&& 0 <= w <= i32::MAX
        &&& 0 <= h <= i32::MAX
        &&& (self.rect matches Some(r) ==> r.is_normal() && r.within(w, h))
        &&& (self.drag matches Some(SelectionDrag::Creating { start }) ==> image_rect(w, h).has(start))
    }

    /// The state after one pointer event at `p` (already inside the image),
    /// with corner handles of `radius`.
    pub open spec fn step(self, phase: PointerPhase, p: Pos, w: int, h: int, radius: int) -> Selection {
        match phase {
            PointerPhase::Pressed => match self.rect {
                Some(r) => match corner_hit(r, p, radius) {
                    Some(c) => Selection { rect: self.rect, drag: Some(SelectionDrag::Resizing { corner: c }) },
                    None => if r.has(p) {
                        Selection {
                            rect: self.rect,
                            drag: Some(SelectionDrag::Moving { offset: Pos { x: (p.x - r.min.x) as i32, y: (p.y - r.min.y) as i32 } }),
                        }
                    } else {
                        Selection { rect: Some(span(p, p)), drag: Some(SelectionDrag::Creating { start: p }) }
                    },
                },
                None => Selection { rect: Some(span(p, p)), drag: Some(SelectionDrag::Creating { start: p }) },
            },
            PointerPhase::Held => match self.drag {
                Some(SelectionDrag::Creating { start }) => Selection {
                    rect: Some(overlap(span(start, p), image_rect(w, h))),
                    drag: self.drag,
                },
                Some(SelectionDrag::Moving { offset }) => match self.rect {
                    Some(r) => Selection { rect: Some(moved(r, offset, p, w, h)), drag: self.drag },
                    None => self,
                },
                Some(SelectionDrag::Resizing { corner }) => match self.rect {
                    Some(r) => {
                        let n = overlap(span(with_corner(r, corner, p).min, with_corner(r, corner, p).max), image_rect(w, h));
                        Selection { rect: Some(span(n.min, n.max)), drag: self.drag }
                    },
                    None => self,
                },
                None => self,
            },
            PointerPhase::Released => Selection {
                rect: match self.rect {
                    Some(r) => if r.span_x() < 1 || r.span_y() < 1 {
                        None
                    } else {
                        Some(r)
                    },
                    None => None,
                },
                drag: None,
            },
            PointerPhase::Idle => self,
        }
    }

    /// No region and no drag.
    pub fn new() -> (s: Selection)
        ensures
            s.rect is None,
            s.drag is None,
    {
        Selection { rect: None, drag: None }
    }

    /// Applies one pointer event at `p`.
    pub fn handle_selection_input(&mut self, phase: PointerPhase, p: Pos, w: i32, h: i32, radius: u32)
        requires
            old(self).wf(w as int, h as int),
            image_rect(w as int, h as int).has(p),
        ensures
            final(self).wf(w as int, h as int),
            *final(self) == old(self).step(phase, p, w as int, h as int, radius as int),
            phase == PointerPhase::Released ==> final(self).drag is None,
            phase == PointerPhase::Released ==> (final(self).rect matches Some(r) ==> r.span_x() >= 1
                && r.span_y() >= 1),
    {
        let image = Rect { min: Pos { x: 0, y: 0 }, max: Pos { x: w, y: h } };
        match phase {
            PointerPhase::Pressed => {
                match self.rect {
                    Some(r) => {
                        match hit_corner(r, p, radius) {
                            Some(c) => {
                                self.drag = Some(SelectionDrag::Resizing { corner: c });
                            },
                            None => {
                                if r.contains(p) {
                                    self.drag = Some(SelectionDrag::Moving { offset: Pos { x: p.x - r.min.x, y: p.y - r.min.y } });
                                } else {
                                    self.drag = Some(SelectionDrag::Creating { start: p });
                                    self.rect = Some(Rect::from_two_pos(p, p));
                                }
                            },
                        }
                    },
                    None => {
                        self.drag = Some(SelectionDrag::Creating { start: p });
                        self.rect = Some(Rect::from_two_pos(p, p));
                    },
                }
            },
            PointerPhase::Held => {
                match self.drag {
                    Some(SelectionDrag::Creating { start }) => {
                        let r = Rect::from_two_pos(start, p);
                        self.rect = Some(r.intersect(&image));
                    },
                    Some(SelectionDrag::Moving { offset }) => {
                        match self.rect {
                            Some(r) => {
                                let sx = r.max.x as i64 - r.min.x as i64;
                                let sy = r.max.y as i64 - r.min.y as i64;
                                let mx = if w as i64 - sx > 0 { w as i64 - sx } else { 0 };
                                let my = if h as i64 - sy > 0 { h as i64 - sy } else { 0 };
                                let tx = p.x as i64 - offset.x as i64;
                                let ty = p.y as i64 - offset.y as i64;
                                let x = if tx < 0 { 0 } else if tx > mx { mx } else { tx };
                                let y = if ty < 0 { 0 } else if ty > my { my } else { ty };
                                self.rect = Some(Rect {
                                    min: Pos { x: x as i32, y: y as i32 },
                                    max: Pos { x: (x + sx) as i32, y: (y + sy) as i32 },
                                });
                            },
                            None => {},
                        }
                    },
                    Some(SelectionDrag::Resizing { corner }) => {
                        match self.rect {
                            Some(r) => {
                                let mut moved = r;
                                match corner {
                                    SelectionCorner::TopLeft => {
                                        moved.min = p;
                                    },
                                    SelectionCorner::TopRight => {
                                        moved.min.y = p.y;
                                        moved.max.x = p.x;
                                    },
                                    SelectionCorner::BottomLeft => {
                                        moved.min.x = p.x;
                                        moved.max.y = p.y;
                                    },
                                    SelectionCorner::BottomRight => {
                                        moved.max = p;
                                    },
                                }
                                let n = normalize_rect(moved).intersect(&image);
                                self.rect = Some(normalize_rect(n));
                            },
                            None => {},
                        }
                    },
                    None => {},
                }
            },
            PointerPhase::Released => {
                self.drag = None;
                match self.rect {
                    Some(r) => {
                        if r.width() < 1 || r.height() < 1 {
                            self.rect = None;
                        }
                    },
                    None => {},
                }
            },
            PointerPhase::Idle => {},
        }
    }

    /// The pointer shape for `p`: the drag in progress decides it, else a
    /// resize arrow over a corner handle, a hand over the region (closed
    /// while the button is down), a crosshair elsewhere.
    pub open spec fn cursor_for(self, p: Pos, down: bool, radius: int) -> CursorIcon {
        match self.drag {
            Some(SelectionDrag::Moving { .. }) => CursorIcon::Grabbing,
            Some(SelectionDrag::Resizing { corner }) => corner_cursor(corner),
            Some(SelectionDrag::Creating { .. }) => CursorIcon::Crosshair,
            None => match self.rect {
                Some(r) => match corner_hit(r, p, radius) {
                    Some(c) => corner_cursor(c),
                    None => if r.has(p) {
                        if down {
                            CursorIcon::Grabbing
                        } else {
                            CursorIcon::Grab
                        }
                    } else {
                        CursorIcon::Crosshair
                    },
                },
                None => CursorIcon::Crosshair,
            },
        }
    }

    pub fn cursor_icon_for_selection(&self, p: Pos, down: bool, radius: u32) -> (c: CursorIcon)
        ensures
            c == self.cursor_for(p, down, radius as int),
    {
        match self.drag {
            Some(SelectionDrag::Moving { .. }) => CursorIcon::Grabbing,
            Some(SelectionDrag::Resizing { corner }) => cursor_for_corner(corner),
            Some(SelectionDrag::Creating { .. }) => CursorIcon::Crosshair,
            None => match self.rect {
                Some(r) => match hit_corner(r, p, radius) {
                    Some(c) => cursor_for_corner(c),
                    None => if r.contains(p) {
                        if down {
                            CursorIcon::Grabbing
                        } else {
                            CursorIcon::Grab
                        }
                    } else {
                        CursorIcon::Crosshair
                    },
                },
                None => CursorIcon::Crosshair,
            },
        }
    }
}

/// The selection after a sequence of pointer events, each a phase and a
/// position in the image.
pub open spec fn run_events(s: Selection, events: Seq<(PointerPhase, Pos)>, w: int, h: int, radius: int) -> Selection
    decreases events.len(),
{
    if events.len() == 0 {
        s
    } else {
        let last = events.last();
        run_events(s, events.drop_last(), w, h, radius).step(last.0, last.1, w, h, radius)
    }
}

/// One step keeps the region normalized and inside the image.
pub proof fn lemma_step_inside(s: Selection, phase: PointerPhase, p: Pos, w: int, h: int, radius: int)
    requires
        s.wf(w, h),
        image_rect(w, h).has(p),
    ensures
        s.step(phase, p, w, h, radius).wf(w, h),
        phase == PointerPhase::Released ==> (s.step(phase, p, w, h, radius).rect matches Some(r)
            ==> r.span_x() >= 1 && r.span_y() >= 1),
{
}

/// Whatever sequence of presses, drags and releases inside the image the
/// region goes through, it stays normalized and within `[0, w] × [0, h]`;
/// and right after a release it is either gone or at least one pixel wide
/// and high.
pub proof fn lemma_drags_stay_inside(s: Selection, events: Seq<(PointerPhase, Pos)>, w: int, h: int, radius: int)
    requires
        s.wf(w, h),
        forall|i: int| 0 <= i < events.len() ==> image_rect(w, h).has(#[trigger] events[i].1),
    ensures
        run_events(s, events, w, h, radius).wf(w, h),
        events.len() > 0 && events.last().0 == PointerPhase::Released ==> (run_events(s, events, w, h, radius).rect
            matches Some(r) ==> r.span_x() >= 1 && r.span_y() >= 1),
    decreases events.len(),
{
    if events.len() > 0 {
        let prefix = events.drop_last();
        assert forall|i: int| 0 <= i < prefix.len() implies image_rect(w, h).has(#[trigger] prefix[i].1) by {
            assert(prefix[i] == events[i]);
        }
        lemma_drags_stay_inside(s, prefix, w, h, radius);
        let last = events.last();
        assert(image_rect(w, h).has(events[events.len() - 1].1));
        lemma_step_inside(run_events(s, prefix, w, h, radius), last.0, last.1, w, h, radius);
    }
}

/// The diagonal resize arrow along which a corner moves.
pub open spec fn corner_cursor(c: SelectionCorner) -> CursorIcon {
    match c {
        SelectionCorner::TopLeft | SelectionCorner::BottomRight => CursorIcon::ResizeNwSe,
        SelectionCorner::TopRight | SelectionCorner::BottomLeft => CursorIcon::ResizeNeSw,
    }
}

fn cursor_for_corner(c: SelectionCorner) -> (r: CursorIcon)
    ensures
        r == corner_cursor(c),
{
    match c {
        SelectionCorner::TopLeft | SelectionCorner::BottomRight => CursorIcon::ResizeNwSe,
        SelectionCorner::TopRight | SelectionCorner::BottomLeft => CursorIcon::ResizeNeSw,
    }
}

} // verus!
