//! The editor session: routes pointer and keyboard input to the crop
//! region or to shape construction, keeps the history and the effect
//! preview cache, and renders the composed image for export.

use crate::effects::{
    apply_blur_full, apply_pixelate_full, blur_spec, effect_bounds, effect_bounds_of, pixelate_spec,
    MAX_BLUR_RADIUS,
};
use crate::export::{bmp_encoding, encode_bmp, encode_png, png_encoding, rgba_bytes, ExportError};
use crate::geometry::{clamp_int, max_int, min_int, span, Pos, Rect};
use crate::history::{cleared, committed, next_count, redone, undone, History, HistoryView};
use crate::pixels::{cropped, Image, ImageView, Rgba};
use crate::raster::with_alpha;
use crate::render::{draw_shape, render_shapes, render_spec, shape_spec};
use crate::selection::{CursorIcon, PointerPhase, Selection};
use crate::shapes::{
    ArrowShape, CircleCountShape, CircleShape, EffectKind, EffectShape, LineShape, RectShape, Shape,
    StrokeShape, TextShape, Tool,
};
use vstd::prelude::*;

verus! {

/// Translucency of marker strokes.
pub const MARKER_ALPHA: u8 = 120;

/// Thinnest marker stroke.
pub const MARKER_MIN_SIZE: u16 = 6;

/// Smallest text size.
pub const TEXT_MIN_SIZE: u16 = 8;

/// Brush sizes offered by the size control.
pub const MIN_BRUSH_SIZE: u16 = 1;

pub const MAX_BRUSH_SIZE: u16 = 20;

/// Radius of the corner handles, in screen pixels.
pub const HANDLE_RADIUS: u32 = 6;

/// Where the image sits on screen: its top-left corner, and how many image
/// pixels one screen unit covers.
#[derive(Clone, Copy, Debug, PartialEq, Eq, Structural)]
pub struct Viewport {
    pub origin: Pos,
    pub scale: u16,
}

/// Text being typed, anchored at `pos`.
#[derive(Debug)]
pub struct TextInput {
    pub pos: Pos,
    pub text: Vec<char>,
}

/// What a cached effect preview was computed from.
#[derive(Clone, Copy, Debug, PartialEq, Eq, Structural)]
pub struct PreviewKey {
    pub x0: u32,
    pub y0: u32,
    pub x1: u32,
    pub y1: u32,
    pub kind: EffectKind,
    pub size: u32,
    pub shapes_version: u64,
}

/// A cached preview of one effect shape.
#[derive(Debug)]
pub struct EffectPreview {
    pub key: PreviewKey,
    pub image: Image,
}

/// A keyboard command.
#[derive(Clone, Copy, Debug, PartialEq, Eq, Structural)]
pub enum KeyCommand {
    Copy,
    Save,
    Undo,
    Redo,
    Enter,
    Escape,
}

/// What the surrounding application has to do after a command.
#[derive(Clone, Copy, Debug, PartialEq, Eq, Structural)]
pub enum EditorAction {
    Nothing,
    /// Export the image to the clipboard, then close the session.
    CopyAndClose,
    /// Ask for a file name, then export to it.
    OpenSaveDialog,
    /// Close the session.
    Close,
}

/// The mathematical state of an editor session.
pub struct EditorView {
    pub base: ImageView,
    pub history: HistoryView,
    pub active: Option<Shape>,
    pub tool: Tool,
    pub last_draw_tool: Tool,
    pub color: Rgba,
    pub size: u16,
    pub selection: Selection,
    pub text_input: Option<(Pos, Seq<char>)>,
    pub status: Option<Seq<char>>,
    pub previews: Seq<(PreviewKey, ImageView)>,
}

/// The strength parameter a preview of `e` is keyed by.
pub open spec fn preview_size(e: EffectShape) -> u32 {
    match e.kind {
        EffectKind::Pixelate => max_int(e.size as int, 4) as u32,
        EffectKind::Blur => max_int(e.size as int, 2) as u32,
    }
}

/// The preview of an effect keyed by `key`, computed from `src`: the
/// effect applied to the whole of the keyed sub-image.
pub open spec fn preview_spec(src: ImageView, key: PreviewKey) -> ImageView {
    let sub = cropped(src, key.x0 as int, key.y0 as int, key.x1 as int, key.y1 as int);
    match key.kind {
        EffectKind::Pixelate => pixelate_spec(sub, 0, 0, sub.width as int, sub.height as int, max_int(key.size as int, 2)),
        EffectKind::Blur => blur_spec(
            sub,
            0,
            0,
            sub.width as int,
            sub.height as int,
            max_int(min_int(key.size as int, MAX_BLUR_RADIUS as int), 1),
        ),
    }
}

/// A cached preview counts only while its version is the current one.
pub open spec fn preview_hit(cached: PreviewKey, wanted: PreviewKey) -> bool {
    cached == wanted
}

/// `p` lies in one of the rectangles.
pub open spec fn over_ui(rects: Seq<Rect>, p: Pos) -> bool {
    exists|i: int| 0 <= i < rects.len() && #[trigger] rects[i].has(p)
}

/// `p` (screen) lies on the image as shown.
pub open spec fn on_canvas(view: Viewport, w: int, h: int, p: Pos) -> bool {
    view.origin.x <= p.x <= view.origin.x + w / (view.scale as int) && view.origin.y <= p.y
        <= view.origin.y + h / (view.scale as int)
}

/// The image pixel under screen point `p`, clamped to the image.
pub open spec fn canvas_pos(view: Viewport, w: int, h: int, p: Pos) -> Pos {
    Pos {
        x: clamp_int((p.x - view.origin.x) * view.scale, 0, w) as i32,
        y: clamp_int((p.y - view.origin.y) * view.scale, 0, h) as i32,
    }
}

/// `c` with the marker's translucency.
pub open spec fn marker_color(c: Rgba) -> Rgba {
    Rgba { a: MARKER_ALPHA, ..c }
}

/// `s` is the shape that pressing with `tool` at `p` starts.
pub open spec fn started(tool: Tool, p: Pos, color: Rgba, size: u16, count: u32, s: Shape) -> bool {
    let marker_size = max_int(size as int, MARKER_MIN_SIZE as int) as u16;
    match tool {
        Tool::Pencil => s matches Shape::Stroke(st) && st.points@ == seq![p] && st.color == color
            && st.size == size,
        Tool::Marker => s matches Shape::Stroke(st) && st.points@ == seq![p] && st.color
            == marker_color(color) && st.size == marker_size,
        Tool::MarkerLine => s == Shape::Line(
            LineShape { start: p, end: p, color: marker_color(color), size: marker_size },
        ),
        Tool::Line => s == Shape::Line(LineShape { start: p, end: p, color, size }),
        Tool::Arrow => s == Shape::Arrow(ArrowShape { start: p, end: p, color, size }),
        Tool::Rect => s == Shape::Rect(RectShape { start: p, end: p, color, size }),
        Tool::Circle => s == Shape::Circle(CircleShape { start: p, end: p, color, size }),
        Tool::CircleCount => s == Shape::CircleCount(
            CircleCountShape { center: p, pointer: p, color, size, count },
        ),
        Tool::Pixelate => s == Shape::Effect(
            EffectShape { start: p, end: p, size, kind: EffectKind::Pixelate },
        ),
        Tool::Blur => s == Shape::Effect(EffectShape { start: p, end: p, size, kind: EffectKind::Blur }),
        _ => false,
    }
}

/// `new` is `old` dragged to `p`: a stroke gains the point, a callout's
/// leader follows, every other shape moves its free end.
pub open spec fn extended(old: Shape, p: Pos, new: Shape) -> bool {
    match old {
        Shape::Stroke(st) => new matches Shape::Stroke(n) && n.points@ == st.points@.push(p) && n.color
            == st.color && n.size == st.size,
        Shape::Line(l) => new == Shape::Line(LineShape { end: p, ..l }),
        Shape::Arrow(a) => new == Shape::Arrow(ArrowShape { end: p, ..a }),
        Shape::Rect(r) => new == Shape::Rect(RectShape { end: p, ..r }),
        Shape::Circle(c) => new == Shape::Circle(CircleShape { end: p, ..c }),
        Shape::CircleCount(c) => new == Shape::CircleCount(CircleCountShape { pointer: p, ..c }),
        Shape::Effect(e) => new == Shape::Effect(EffectShape { end: p, ..e }),
        Shape::Text(_) => new == old,
    }
}

/// Everything but the history, the active shape and the preview cache is
/// as before.
pub open spec fn same_session(a: EditorView, b: EditorView) -> bool {
    &&& a.base == b.base
    &&& a.tool == b.tool
    &&& a.last_draw_tool == b.last_draw_tool
    &&& a.color == b.color
    &&& a.size == b.size
    &&& a.selection == b.selection
    &&& a.text_input == b.text_input
    &&& a.status == b.status
}

/// `f` is `o` after committing `x`: the history moved on and the preview
/// cache was dropped.
pub open spec fn after_commit(o: EditorView, f: EditorView, x: Shape) -> bool {
    &&& same_session(o, f)
    &&& f.history == committed(o.history, x)
    &&& f.active is None
    &&& f.previews.len() == 0
}

/// The composed image an export hands out: every shape rendered, then
/// cropped to the selection when it covers at least one pixel.
pub open spec fn export_spec(e: EditorView) -> ImageView {
    let full = render_spec(e.base, e.history.shapes, true);
    match e.selection.rect {
        Some(r) => {
            let (x0, y0, x1, y1) = crop_bounds(full.width as int, full.height as int, r);
            if x0 < x1 && y0 < y1 {
                cropped(full, x0, y0, x1, y1)
            } else {
                full
            }
        },
        None => full,
    }
}

/// `r` clamped into `[0, w] × [0, h]`, corner by corner.
pub open spec fn crop_bounds(w: int, h: int, r: Rect) -> (int, int, int, int) {
    (clamp_int(r.min.x as int, 0, w), clamp_int(r.min.y as int, 0, h), clamp_int(r.max.x as int, 0, w), clamp_int(r.max.y as int, 0, h))
}

/// An annotation session over one captured image.
pub struct Editor {
    base: Image,
    history: History,
    active: Option<Shape>,
    tool: Tool,
    last_draw_tool: Tool,
    color: Rgba,
    size: u16,
    selection: Selection,
    text_input: Option<TextInput>,
    previews: Vec<EffectPreview>,
    status: Option<String>,
}

impl View for Editor {
    type V = EditorView;

    closed spec fn view(&self) -> EditorView {
        EditorView {
            base: self.base@,
            history: self.history@,
            active: self.active,
            tool: self.tool,
            last_draw_tool: self.last_draw_tool,
            color: self.color,
            size: self.size,
            selection: self.selection,
            text_input: match self.text_input {
                Some(t) => Some((t.pos, t.text@)),
                None => None,
            },
            previews: self.previews@.map_values(|p: EffectPreview| (p.key, p.image@)),
            status: match self.status {
                Some(s) => Some(s@),
                None => None,
            },
        }
    }
}

impl EditorView {
    /// The session's invariant: a sane base image, a crop region inside it,
    /// and every cached preview equal to what it would be computed as now.
    pub open spec fn wf(self) -> bool {
        &&& self.base.wf()
        &&& self.base.width <= i32::MAX
        &&& self.base.height <= i32::MAX
        &&& self.selection.wf(self.base.width as int, self.base.height as int)
        &&& forall|i: int|
            0 <= i < self.previews.len() ==> #[trigger] self.previews[i].1 == preview_spec(
                render_spec(self.base, self.history.shapes, false),
                self.previews[i].0,
            )
    }
}

impl Editor {
    pub closed spec fn wf(&self) -> bool {
        &&& self@.wf()
        &&& self.base.wf()
        &&& forall|i: int| 0 <= i < self.previews@.len() ==> #[trigger] self.previews@[i].image.wf()
    }

    /// A session over `base` with no shapes, no region, the select tool, a
    /// red brush of size three.
    pub fn new(base: Image) -> (e: Editor)
        requires
            base.wf(),
            base@.width <= i32::MAX,
            base@.height <= i32::MAX,
        ensures
            e.wf(),
            e@.base == base@,
            e@.history.shapes.len() == 0,
            e@.history.redo.len() == 0,
            e@.active is None,
            e@.tool == Tool::Select,
            e@.last_draw_tool == Tool::Pencil,
            e@.color == (Rgba { r: 255, g: 0, b: 0, a: 255 }),
            e@.size == 3,
            e@.selection.rect is None,
            e@.selection.drag is None,
            e@.text_input is None,
            e@.previews.len() == 0,
            e@.history.version == 0,
            e@.status is None,
    {
        let e = Editor {
            base,
            history: History::new(),
            active: None,
            tool: Tool::Select,
            last_draw_tool: Tool::Pencil,
            color: Rgba { r: 255, g: 0, b: 0, a: 255 },
            size: 3,
            selection: Selection::new(),
            text_input: None,
            previews: Vec::new(),
            status: None,
        };
        assert(e@.previews =~= Seq::empty());
        e
    }

    pub fn base_image(&self) -> (b: &Image)
        ensures
            b@ == self@.base,
    {
        &self.base
    }

    pub fn shapes(&self) -> (s: &Vec<Shape>)
        ensures
            s@ == self@.history.shapes,
    {
        self.history.shapes()
    }

    pub fn redo_len(&self) -> (n: usize)
        ensures
            n == self@.history.redo.len(),
    {
        self.history.redo_len()
    }

    pub fn shapes_version(&self) -> (v: u64)
        ensures
            v == self@.history.version,
    {
        self.history.version()
    }

    pub fn active_shape(&self) -> (a: &Option<Shape>)
        ensures
            *a == self@.active,
    {
        &self.active
    }

    pub fn tool(&self) -> (t: Tool)
        ensures
            t == self@.tool,
    {
        self.tool
    }

    pub fn last_draw_tool(&self) -> (t: Tool)
        ensures
            t == self@.last_draw_tool,
    {
        self.last_draw_tool
    }

    pub fn color(&self) -> (c: Rgba)
        ensures
            c == self@.color,
    {
        self.color
    }

    pub fn size(&self) -> (s: u16)
        ensures
            s == self@.size,
    {
        self.size
    }

    pub fn selection(&self) -> (s: Selection)
        ensures
            s == self@.selection,
    {
        self.selection
    }

    pub fn text_input(&self) -> (t: &Option<TextInput>)
        ensures
            match *t {
                Some(ti) => self@.text_input == Some((ti.pos, ti.text@)),
                None => self@.text_input is None,
            },
    {
        &self.text_input
    }

    pub fn previews_len(&self) -> (n: usize)
        ensures
            n == self@.previews.len(),
    {
        self.previews.len()
    }

    /// The status line shown to the user, if any.
    pub fn status(&self) -> (s: &Option<String>)
        ensures
            match *s {
                Some(t) => self@.status == Some(t@),
                None => self@.status is None,
            },
    {
        &self.status
    }

    /// Replaces the status line.
    pub fn set_status(&mut self, status: Option<String>)
        requires
            old(self).wf(),
        ensures
            final(self).wf(),
            final(self)@ == (EditorView {
                status: match status {
                    Some(t) => Some(t@),
                    None => None,
                },
                ..old(self)@
            }),
    {
        let ghost start = *self;
        self.status = status;
        proof {
            Editor::lemma_wf_frame(&start, self);
        }
    }

    /// Reports a clipboard export: which helpers took the image, or that
    /// none did.
    pub fn record_copy(&mut self, wayland_ok: bool, x11_ok: bool)
        requires
            old(self).wf(),
        ensures
            final(self).wf(),
            final(self)@ == (EditorView { status: Some(copy_status_text(wayland_ok, x11_ok)), ..old(self)@ }),
    {
        let text = if wayland_ok && x11_ok {
            String::from_str("Copied to clipboard (wl-copy image/png + xclip image/png/bmp)")
        } else if wayland_ok {
            String::from_str("Copied to clipboard (wl-copy image/png)")
        } else if x11_ok {
            String::from_str("Copied to clipboard (xclip image/png/bmp)")
        } else {
            String::from_str("Clipboard copy failed")
        };
        self.set_status(Some(text));
    }

    /// Reports a file export to `path`: saved, or the error it failed with.
    pub fn record_save(&mut self, path: &str, error: Option<String>)
        requires
            old(self).wf(),
        ensures
            final(self).wf(),
            final(self)@ == (EditorView {
                status: Some(save_status_text(path@, match error {
                    Some(e) => Some(e@),
                    None => None,
                })),
                ..old(self)@
            }),
    {
        let text = match error {
            None => String::from_str("Saved ").concat(path),
            Some(e) => String::from_str("Save failed: ").concat(e.as_str()),
        };
        self.set_status(Some(text));
    }

    /// What the session now knows of itself: its invariant over the view,
    /// so that callers can rely on the crop region staying in the image.
    pub proof fn lemma_view_wf(&self)
        requires
            self.wf(),
        ensures
            self@.wf(),
            self@.selection.wf(self@.base.width as int, self@.base.height as int),
    {
    }

    /// Switches tool; a drawing tool is remembered as the last one used.
    pub fn set_tool(&mut self, tool: Tool)
        requires
            old(self).wf(),
        ensures
            final(self).wf(),
            final(self)@ == (EditorView {
                tool,
                last_draw_tool: if tool == Tool::Select {
                    old(self)@.last_draw_tool
                } else {
                    tool
                },
                ..old(self)@
            }),
    {
        self.tool = tool;
        if tool != Tool::Select {
            self.last_draw_tool = tool;
        }
    }

    pub fn set_color(&mut self, color: Rgba)
        requires
            old(self).wf(),
        ensures
            final(self).wf(),
            final(self)@ == (EditorView { color, ..old(self)@ }),
    {
        self.color = color;
    }

    /// Sets the brush size, held within the size control's range.
    pub fn set_size(&mut self, size: u16)
        requires
            old(self).wf(),
        ensures
            final(self).wf(),
            final(self)@ == (EditorView {
                size: clamp_int(size as int, MIN_BRUSH_SIZE as int, MAX_BRUSH_SIZE as int) as u16,
                ..old(self)@
            }),
    {
        self.size = if size < MIN_BRUSH_SIZE {
            MIN_BRUSH_SIZE
        } else if size > MAX_BRUSH_SIZE {
            MAX_BRUSH_SIZE
        } else {
            size
        };
    }

    /// Replaces the text being typed, if a text entry is open.
    pub fn set_text_input_text(&mut self, text: Vec<char>)
        requires
            old(self).wf(),
        ensures
            final(self).wf(),
            final(self)@ == (EditorView {
                text_input: match old(self)@.text_input {
                    Some((pos, _t)) => Some((pos, text@)),
                    None => None,
                },
                ..old(self)@
            }),
    {
        match self.text_input.take() {
            Some(ti) => {
                self.text_input = Some(TextInput { pos: ti.pos, text });
            },
            None => {},
        }
    }

    /// The invariant only looks at the base image, the history, the crop
    /// region and the cache.
    proof fn lemma_wf_frame(o: &Editor, f: &Editor)
        requires
            o.wf(),
            f.base@ == o.base@,
            f.base.wf(),
            f.history@ == o.history@,
            f.previews@ == o.previews@,
            f.selection == o.selection,
        ensures
            f.wf(),
    {
        assert forall|i: int| 0 <= i < f@.previews.len() implies #[trigger] f@.previews[i].1
            == preview_spec(render_spec(f@.base, f@.history.shapes, false), f@.previews[i].0) by {
            assert(f@.previews[i] == o@.previews[i]);
        }
    }

    /// Commits a shape on top of the list.
    pub fn push_shape(&mut self, shape: Shape)
        requires
            old(self).wf(),
        ensures
            final(self).wf(),
            same_session(old(self)@, final(self)@),
            final(self)@.active == old(self)@.active,
            final(self)@.history == committed(old(self)@.history, shape),
            final(self)@.previews.len() == 0,
    {
        self.history.push_shape(shape);
        self.previews.clear();
    }

    /// Undoes the last commit; the preview cache is dropped when anything
    /// changed.
    pub fn pop_shape(&mut self)
        requires
            old(self).wf(),
        ensures
            final(self).wf(),
            same_session(old(self)@, final(self)@),
            final(self)@.active == old(self)@.active,
            final(self)@.history == undone(old(self)@.history),
            final(self)@.history != old(self)@.history ==> final(self)@.previews.len() == 0,
            final(self)@.history == old(self)@.history ==> final(self)@.previews == old(self)@.previews,
    {
        let before = self.history.version();
        self.history.pop_shape();
        if self.history.version() != before {
            self.previews.clear();
        }
    }

    /// Brings back the last undone shape.
    pub fn redo_shape(&mut self)
        requires
            old(self).wf(),
        ensures
            final(self).wf(),
            same_session(old(self)@, final(self)@),
            final(self)@.active == old(self)@.active,
            final(self)@.history == redone(old(self)@.history),
            final(self)@.history != old(self)@.history ==> final(self)@.previews.len() == 0,
            final(self)@.history == old(self)@.history ==> final(self)@.previews == old(self)@.previews,
    {
        let before = self.history.version();
        self.history.redo_shape();
        if self.history.version() != before {
            self.previews.clear();
        }
    }

    /// Removes every shape.
    pub fn clear_shapes(&mut self)
        requires
            old(self).wf(),
        ensures
            final(self).wf(),
            same_session(old(self)@, final(self)@),
            final(self)@.active == old(self)@.active,
            final(self)@.history == cleared(old(self)@.history),
            final(self)@.history != old(self)@.history ==> final(self)@.previews.len() == 0,
            final(self)@.history == old(self)@.history ==> final(self)@.previews == old(self)@.previews,
    {
        let before = self.history.version();
        self.history.clear_shapes();
        if self.history.version() != before {
            self.previews.clear();
        }
    }

    /// The number the next callout gets.
    pub fn next_circle_count(&self) -> (n: u32)
        ensures
            n == next_count(self@.history.shapes),
    {
        self.history.next_circle_count()
    }

    /// Commits the shape being drawn, if there is one.
    pub fn commit_active(&mut self)
        requires
            old(self).wf(),
        ensures
            final(self).wf(),
            released_ok(old(self)@, final(self)@),
    {
        let ghost start = *self;
        match self.active.take() {
            Some(shape) => {
                proof {
                    Editor::lemma_wf_frame(&start, self);
                }
                self.push_shape(shape);
            },
            None => {},
        }
    }

    fn new_shape(&self, p: Pos) -> (s: Shape)
        requires
            self.tool != Tool::Select,
            self.tool != Tool::Text,
        ensures
            started(self.tool, p, self.color, self.size, next_count(self@.history.shapes), s),
    {
        let color = self.color;
        let size = self.size;
        let marker_size = if size < MARKER_MIN_SIZE { MARKER_MIN_SIZE } else { size };
        match self.tool {
            Tool::Pencil => {
                let mut points: Vec<Pos> = Vec::new();
                points.push(p);
                Shape::Stroke(StrokeShape { points, color, size })
            },
            Tool::Marker => {
                let mut points: Vec<Pos> = Vec::new();
                points.push(p);
                Shape::Stroke(StrokeShape { points, color: with_alpha(color, MARKER_ALPHA), size: marker_size })
            },
            Tool::MarkerLine => Shape::Line(
                LineShape { start: p, end: p, color: with_alpha(color, MARKER_ALPHA), size: marker_size },
            ),
            Tool::Line => Shape::Line(LineShape { start: p, end: p, color, size }),
            Tool::Arrow => Shape::Arrow(ArrowShape { start: p, end: p, color, size }),
            Tool::Rect => Shape::Rect(RectShape { start: p, end: p, color, size }),
            Tool::Circle => Shape::Circle(CircleShape { start: p, end: p, color, size }),
            Tool::CircleCount => Shape::CircleCount(
                CircleCountShape { center: p, pointer: p, color, size, count: self.next_circle_count() },
            ),
            Tool::Pixelate => Shape::Effect(
                EffectShape { start: p, end: p, size, kind: EffectKind::Pixelate },
            ),
            _ => Shape::Effect(EffectShape { start: p, end: p, size, kind: EffectKind::Blur }),
        }
    }

    fn begin_shape(&mut self, p: Pos)
        requires
            old(self).wf(),
        ensures
            final(self).wf(),
            pressed_ok(old(self)@, final(self)@, p),
    {
        let ghost start = *self;
        if self.tool == Tool::Select {
        } else if self.tool == Tool::Text {
            self.text_input = Some(TextInput { pos: p, text: Vec::new() });
            assert(self@.text_input =~= Some((p, Seq::<char>::empty())));
        } else {
            let s = self.new_shape(p);
            self.active = Some(s);
        }
        proof {
            Editor::lemma_wf_frame(&start, self);
        }
    }

    fn extend_active(&mut self, p: Pos)
        requires
            old(self).wf(),
        ensures
            final(self).wf(),
            held_ok(old(self)@, final(self)@, p),
    {
        let ghost start = *self;
        match self.active.take() {
            Some(Shape::Stroke(st)) => {
                let mut points = st.points;
                points.push(p);
                self.active = Some(Shape::Stroke(StrokeShape { points, color: st.color, size: st.size }));
            },
            Some(Shape::Line(l)) => {
                self.active = Some(Shape::Line(LineShape { end: p, ..l }));
            },
            Some(Shape::Arrow(a)) => {
                self.active = Some(Shape::Arrow(ArrowShape { end: p, ..a }));
            },
            Some(Shape::Rect(r)) => {
                self.active = Some(Shape::Rect(RectShape { end: p, ..r }));
            },
            Some(Shape::Circle(c)) => {
                self.active = Some(Shape::Circle(CircleShape { end: p, ..c }));
            },
            Some(Shape::CircleCount(c)) => {
                self.active = Some(Shape::CircleCount(CircleCountShape { pointer: p, ..c }));
            },
            Some(Shape::Effect(e)) => {
                self.active = Some(Shape::Effect(EffectShape { end: p, ..e }));
            },
            Some(Shape::Text(t)) => {
                self.active = Some(Shape::Text(t));
            },
            None => {},
        }
        proof {
            Editor::lemma_wf_frame(&start, self);
        }
    }

    /// Routes one pointer event at screen point `p`. Over a UI control
    /// nothing happens; off the image only a release (committing the shape
    /// being drawn) counts; with the select tool the crop region follows
    /// the pointer; with a drawing tool the pointer acts only inside the
    /// crop region, where a press starts a shape (or opens a text entry), a
    /// hold extends it and a release commits it. Returns the cursor to show
    /// where the editor decides it.
    pub fn handle_input(&mut self, p: Pos, phase: PointerPhase, view: Viewport, ui_rects: &Vec<Rect>) -> (r: Option<CursorIcon>)
        requires
            old(self).wf(),
            view.scale >= 1,
        ensures
            final(self).wf(),
            final(self)@.wf(),
            ({
                let o = old(self)@;
                let f = final(self)@;
                let w = o.base.width as int;
                let h = o.base.height as int;
                let q = canvas_pos(view, w, h, p);
                let radius = HANDLE_RADIUS * view.scale;
                if over_ui(ui_rects@, p) {
                    r == Some(CursorIcon::Default) && f == o
                } else if !on_canvas(view, w, h, p) {
                    r is None && (if phase == PointerPhase::Released {
                        released_ok(o, f)
                    } else {
                        f == o
                    })
                } else if o.tool == Tool::Select {
                    r == Some(o.selection.cursor_for(q, phase == PointerPhase::Pressed || phase == PointerPhase::Held, radius))
                        && f == (EditorView { selection: o.selection.step(phase, q, w, h, radius), ..o })
                } else {
                    r is None && (if o.selection.rect matches Some(s) && s.has(q) {
                        match phase {
                            PointerPhase::Pressed => pressed_ok(o, f, q),
                            PointerPhase::Held => held_ok(o, f, q),
                            PointerPhase::Released => released_ok(o, f),
                            PointerPhase::Idle => f == o,
                        }
                    } else {
                        f == o
                    })
                }
            }),
    {
        if is_over_ui(ui_rects, p) {
            return Some(CursorIcon::Default);
        }
        let w = self.base.width();
        let h = self.base.height();
        let s = view.scale as i64;
        let ox = p.x as i64 - view.origin.x as i64;
        let oy = p.y as i64 - view.origin.y as i64;
        if !(ox >= 0 && ox <= w as i64 / s && oy >= 0 && oy <= h as i64 / s) {
            if phase == PointerPhase::Released {
                self.commit_active();
            }
            return None;
        }
        assert(0 <= ox * s <= 0x1_0000_0000 * 0x1_0000 && 0 <= oy * s <= 0x1_0000_0000 * 0x1_0000)
            by (nonlinear_arith)
            requires
                0 <= ox <= 0x1_0000_0000,
                0 <= oy <= 0x1_0000_0000,
                1 <= s <= 0x1_0000,
        ;
        let qx = ox * s;
        let qy = oy * s;
        let q = Pos {
            x: (if qx > w as i64 { w as i64 } else { qx }) as i32,
            y: (if qy > h as i64 { h as i64 } else { qy }) as i32,
        };
        assert(q == canvas_pos(view, w as int, h as int, p));
        if self.tool == Tool::Select {
            let radius = HANDLE_RADIUS * view.scale as u32;
            let icon = self.selection.cursor_icon_for_selection(
                q,
                phase == PointerPhase::Pressed || phase == PointerPhase::Held,
                radius,
            );
            self.selection.handle_selection_input(phase, q, w as i32, h as i32, radius);
            return Some(icon);
        }
        let inside = match self.selection.rect {
            Some(sel) => sel.contains(q),
            None => false,
        };
        if !inside {
            return None;
        }
        match phase {
            PointerPhase::Pressed => self.begin_shape(q),
            PointerPhase::Held => self.extend_active(q),
            PointerPhase::Released => self.commit_active(),
            PointerPhase::Idle => {},
        }
        None
    }
}

impl Editor {
    /// Applies a keyboard command: copy and save are handed to the
    /// application; undo and redo act on the history; Enter commits typed
    /// text (unless blank) or, with a region and the select tool, returns
    /// to the last drawing tool; Escape drops typed text, or else closes.
    pub fn handle_key(&mut self, key: KeyCommand) -> (r: EditorAction)
        requires
            old(self).wf(),
        ensures
            final(self).wf(),
            key_ok(old(self)@, final(self)@, key, r),
    {
        match key {
            KeyCommand::Copy => EditorAction::CopyAndClose,
            KeyCommand::Save => EditorAction::OpenSaveDialog,
            KeyCommand::Undo => {
                self.pop_shape();
                EditorAction::Nothing
            },
            KeyCommand::Redo => {
                self.redo_shape();
                EditorAction::Nothing
            },
            KeyCommand::Enter => {
                let ghost start = *self;
                match self.text_input.take() {
                    Some(input) => {
                        proof {
                            Editor::lemma_wf_frame(&start, self);
                        }
                        if !is_blank(&input.text) {
                            let size = if self.size < TEXT_MIN_SIZE { TEXT_MIN_SIZE } else { self.size };
                            let shape = Shape::Text(TextShape { pos: input.pos, text: input.text, color: self.color, size });
                            self.push_shape(shape);
                        }
                    },
                    None => {
                        if self.tool == Tool::Select && self.selection.rect.is_some() {
                            self.tool = self.last_draw_tool;
                            proof {
                                Editor::lemma_wf_frame(&start, self);
                            }
                        }
                    },
                }
                EditorAction::Nothing
            },
            KeyCommand::Escape => {
                if self.text_input.is_some() {
                    let ghost start = *self;
                    self.text_input = None;
                    proof {
                        Editor::lemma_wf_frame(&start, self);
                    }
                    EditorAction::Nothing
                } else {
                    EditorAction::Close
                }
            },
        }
    }

    /// Every committed shape drawn on a copy of the base image.
    pub fn render_full_image(&self) -> (img: Image)
        requires
            self.wf(),
        ensures
            img.wf(),
            img@ == render_spec(self@.base, self@.history.shapes, true),
    {
        render_shapes(&self.base, self.history.shapes(), true)
    }

    /// What the screen shows: the full render with the shape being drawn,
    /// if any, on top.
    pub fn render_with_active(&self) -> (img: Image)
        requires
            self.wf(),
        ensures
            img.wf(),
            img@ == match self@.active {
                Some(a) => shape_spec(render_spec(self@.base, self@.history.shapes, true), a, true),
                None => render_spec(self@.base, self@.history.shapes, true),
            },
    {
        let mut img = self.render_full_image();
        match &self.active {
            Some(a) => draw_shape(&mut img, a, true),
            None => {},
        }
        img
    }

    /// Every committed shape but the effects drawn on a copy of the base
    /// image: the source of effect previews.
    pub fn render_full_image_without_effects(&self) -> (img: Image)
        requires
            self.wf(),
        ensures
            img.wf(),
            img@ == render_spec(self@.base, self@.history.shapes, false),
    {
        render_shapes(&self.base, self.history.shapes(), false)
    }

    /// The image an export hands out: the full render, cropped to the crop
    /// region when it covers at least one pixel.
    pub fn render_image(&self) -> (img: Image)
        requires
            self.wf(),
        ensures
            img.wf(),
            img@ == export_spec(self@),
    {
        let full = self.render_full_image();
        match self.selection.rect {
            Some(r) => crop_image(&full, r),
            None => full,
        }
    }

    /// The export image encoded as PNG.
    pub fn export_png(&self) -> (r: Result<Vec<u8>, ExportError>)
        requires
            self.wf(),
        ensures
            r matches Ok(b) ==> b@ == png_encoding(
                export_spec(self@).width,
                export_spec(self@).height,
                rgba_bytes(export_spec(self@).pixels),
            ),
            r matches Err(e) ==> e is EncodeFailed,
            export_spec(self@).width > 0 && export_spec(self@).height > 0 ==> r is Ok,
    {
        let img = self.render_image();
        encode_png(&img)
    }

    /// The export image encoded as BMP.
    pub fn export_bmp(&self) -> (r: Result<Vec<u8>, ExportError>)
        requires
            self.wf(),
        ensures
            r matches Ok(b) ==> b@ == bmp_encoding(
                export_spec(self@).width,
                export_spec(self@).height,
                rgba_bytes(export_spec(self@).pixels),
            ),
            r matches Err(e) ==> e is EncodeFailed,
            4 * export_spec(self@).width <= u32::MAX && 4 * export_spec(self@).width * export_spec(self@).height + 122
                <= u32::MAX ==> r is Ok,
    {
        let img = self.render_image();
        encode_bmp(&img)
    }

    /// The preview of effect shape `effect` drawn in place `idx`: the
    /// effect applied to its sub-image of the render without effects, or
    /// `None` when that sub-image is empty. A cached preview is reused only
    /// when its rectangle, kind, strength and shape-list version all match;
    /// otherwise it is computed and cached in place `idx` (or appended).
    pub fn ensure_effect_preview(&mut self, effect: &EffectShape, idx: usize) -> (r: Option<Image>)
        requires
            old(self).wf(),
        ensures
            final(self).wf(),
            same_session(old(self)@, final(self)@),
            final(self)@.history == old(self)@.history,
            final(self)@.active == old(self)@.active,
            ({
                let o = old(self)@;
                let (x0, y0, x1, y1) = effect_bounds(o.base.width as int, o.base.height as int, span(effect.start, effect.end));
                let key = PreviewKey {
                    x0: x0 as u32,
                    y0: y0 as u32,
                    x1: x1 as u32,
                    y1: y1 as u32,
                    kind: effect.kind,
                    size: preview_size(*effect),
                    shapes_version: o.history.version,
                };
                &&& (r is None <==> (x1 <= x0 || y1 <= y0))
                &&& (r is None ==> final(self)@ == o)
                &&& (r matches Some(img) ==> img.wf() && img@ == preview_spec(
                    render_spec(o.base, o.history.shapes, false),
                    key,
                ))
                &&& (r is Some && idx < o.previews.len() ==> final(self)@.previews.len() == o.previews.len()
                    && final(self)@.previews[idx as int].0 == key)
                &&& (r is Some && idx >= o.previews.len() ==> (final(self)@.previews.len() == o.previews.len()
                    || final(self)@.previews.len() == o.previews.len() + 1)
                    && final(self)@.previews.last().0 == key)
                &&& (r is Some ==> forall|j: int| 0 <= j < o.previews.len() && j != idx ==> #[trigger] final(self)@.previews[j] == o.previews[j])
            }),
    {
        let ghost start = *self;
        let rect = Rect::from_two_pos(effect.start, effect.end);
        let (x0, y0, x1, y1) = effect_bounds_of(self.base.width(), self.base.height(), rect);
        if x1 <= x0 || y1 <= y0 {
            return None;
        }
        let size_param: u32 = match effect.kind {
            EffectKind::Pixelate => if effect.size < 4 { 4 } else { effect.size as u32 },
            EffectKind::Blur => if effect.size < 2 { 2 } else { effect.size as u32 },
        };
        let key = PreviewKey { x0, y0, x1, y1, kind: effect.kind, size: size_param, shapes_version: self.history.version() };
        if idx < self.previews.len() {
            if self.previews[idx].key == key {
                assert(self@.previews[idx as int].0 == key);
                assert(self@.previews[idx as int].1 == preview_spec(
                    render_spec(self@.base, self@.history.shapes, false),
                    self@.previews[idx as int].0,
                ));
                return Some(self.previews[idx].image.duplicate());
            }
        }
        let source = self.render_full_image_without_effects();
        proof {
            crate::render::lemma_render_size(self@.base, self@.history.shapes, false, self@.history.shapes.len());
        }
        let mut sub = source.crop_region(x0, y0, x1, y1);
        match effect.kind {
            EffectKind::Pixelate => apply_pixelate_full(&mut sub, size_param),
            EffectKind::Blur => {
                let r = if size_param > MAX_BLUR_RADIUS { MAX_BLUR_RADIUS } else { size_param };
                apply_blur_full(&mut sub, r);
            },
        }
        let cached = EffectPreview { key, image: sub.duplicate() };
        let ghost entry = (key, sub@);
        if idx < self.previews.len() {
            self.previews.set(idx, cached);
            proof {
                assert(self@.previews =~= start@.previews.update(idx as int, entry));
                assert(self@.previews[idx as int].0 == key);
            }
        } else {
            self.previews.push(cached);
            proof {
                assert(self@.previews =~= start@.previews.push(entry));
                assert(self@.previews[start@.previews.len() as int].0 == key);
            }
        }
        Some(sub)
    }
}

/// A copy of the part of `img` that `rect` covers, clamped to the image;
/// the whole image when that part is empty.
pub fn crop_image(img: &Image, rect: Rect) -> (r: Image)
    requires
        img.wf(),
    ensures
        r.wf(),
        ({
            let (x0, y0, x1, y1) = crop_bounds(img@.width as int, img@.height as int, rect);
            r@ == if x0 < x1 && y0 < y1 {
                cropped(img@, x0, y0, x1, y1)
            } else {
                img@
            }
        }),
{
    match crop_image_exact(img, rect) {
        Some(c) => c,
        None => img.duplicate(),
    }
}

/// The corners of `rect` clamped to the image, or `None` when they span no
/// pixel.
pub fn rect_to_u32(img: &Image, rect: Rect) -> (r: Option<(u32, u32, u32, u32)>)
    ensures
        ({
            let (x0, y0, x1, y1) = crop_bounds(img@.width as int, img@.height as int, rect);
            &&& (r is None <==> (x1 <= x0 || y1 <= y0))
            &&& (r matches Some(b) ==> b.0 == x0 && b.1 == y0 && b.2 == x1 && b.3 == y1)
        }),
{
    let w = img.width();
    let h = img.height();
    let x0 = clamp_u32(rect.min.x, w);
    let y0 = clamp_u32(rect.min.y, h);
    let x1 = clamp_u32(rect.max.x, w);
    let y1 = clamp_u32(rect.max.y, h);
    if x1 <= x0 || y1 <= y0 {
        None
    } else {
        Some((x0, y0, x1, y1))
    }
}

fn clamp_u32(v: i32, hi: u32) -> (r: u32)
    ensures
        r == clamp_int(v as int, 0, hi as int),
{
    if v < 0 {
        0
    } else if v as u32 > hi {
        hi
    } else {
        v as u32
    }
}

/// The part of `img` that `rect` covers, clamped to the image, or `None`
/// when it is empty.
pub fn crop_image_exact(img: &Image, rect: Rect) -> (r: Option<Image>)
    requires
        img.wf(),
    ensures
        ({
            let (x0, y0, x1, y1) = crop_bounds(img@.width as int, img@.height as int, rect);
            &&& (r is None <==> (x1 <= x0 || y1 <= y0))
            &&& (r matches Some(c) ==> c.wf() && c@ == cropped(img@, x0, y0, x1, y1))
        }),
{
    match rect_to_u32(img, rect) {
        Some((x0, y0, x1, y1)) => Some(img.crop_region(x0, y0, x1, y1)),
        None => None,
    }
}

/// The status line after a clipboard export.
pub open spec fn copy_status_text(wayland_ok: bool, x11_ok: bool) -> Seq<char> {
    if wayland_ok && x11_ok {
        "Copied to clipboard (wl-copy image/png + xclip image/png/bmp)"@
    } else if wayland_ok {
        "Copied to clipboard (wl-copy image/png)"@
    } else if x11_ok {
        "Copied to clipboard (xclip image/png/bmp)"@
    } else {
        "Clipboard copy failed"@
    }
}

/// The status line after a file export to `path`.
pub open spec fn save_status_text(path: Seq<char>, error: Option<Seq<char>>) -> Seq<char> {
    match error {
        None => "Saved "@ + path,
        Some(e) => "Save failed: "@ + e,
    }
}

/// A cached preview never survives a change of the shape list: whatever
/// preview was current before a commit, or an undo, redo or clear that
/// changed anything, no longer matches the key asked for afterwards, even
/// for the same rectangle, kind and strength.
pub proof fn lemma_preview_invalidated(h: HistoryView, x: Shape, cached: PreviewKey)
    requires
        cached.shapes_version == h.version,
    ensures
        !preview_hit(cached, PreviewKey { shapes_version: committed(h, x).version, ..cached }),
        undone(h) != h ==> !preview_hit(cached, PreviewKey { shapes_version: undone(h).version, ..cached }),
        redone(h) != h ==> !preview_hit(cached, PreviewKey { shapes_version: redone(h).version, ..cached }),
        cleared(h) != h ==> !preview_hit(cached, PreviewKey { shapes_version: cleared(h).version, ..cached }),
{
}

/// The Unicode White_Space property: tab to carriage return, space, next
/// line, no-break space, ogham space mark, the spaces from en quad to hair
/// space, line and paragraph separators, narrow no-break space, medium
/// mathematical space and ideographic space.
pub open spec fn whitespace(c: char) -> bool {
    let v = c as u32;
    (0x9 <= v <= 0xD) || v == 0x20 || v == 0x85 || v == 0xA0 || v == 0x1680 || (0x2000 <= v
        <= 0x200A) || v == 0x2028 || v == 0x2029 || v == 0x202F || v == 0x205F || v == 0x3000
}

/// Relies on `char::is_whitespace`, which holds exactly of the characters
/// with the Unicode White_Space property.
#[verifier::external_body]
fn char_is_whitespace(c: char) -> (r: bool)
    ensures
        r == whitespace(c),
{
    c.is_whitespace()
}

/// Text that trimming would leave empty.
pub open spec fn blank(text: Seq<char>) -> bool {
    forall|i: int| 0 <= i < text.len() ==> whitespace(#[trigger] text[i])
}

/// Whether `text` holds nothing but whitespace.
pub fn is_blank(text: &Vec<char>) -> (r: bool)
    ensures
        r == blank(text@),
{
    let mut i: usize = 0;
    while i < text.len()
        invariant
            0 <= i <= text@.len(),
            forall|j: int| 0 <= j < i ==> whitespace(#[trigger] text@[j]),
        decreases text@.len() - i,
    {
        if !char_is_whitespace(text[i]) {
            return false;
        }
        i = i + 1;
    }
    true
}

/// Screen point `p` lies on one of the UI controls.
pub fn is_over_ui(rects: &Vec<Rect>, p: Pos) -> (r: bool)
    ensures
        r == over_ui(rects@, p),
{
    let mut i: usize = 0;
    while i < rects.len()
        invariant
            0 <= i <= rects@.len(),
            forall|j: int| 0 <= j < i ==> !(#[trigger] rects@[j].has(p)),
        decreases rects@.len() - i,
    {
        if rects[i].contains(p) {
            return true;
        }
        i = i + 1;
    }
    false
}

/// What a keyboard command does to the session, and what it asks of the
/// application.
pub open spec fn key_ok(o: EditorView, f: EditorView, key: KeyCommand, r: EditorAction) -> bool {
    match key {
        KeyCommand::Copy => r == EditorAction::CopyAndClose && f == o,
        KeyCommand::Save => r == EditorAction::OpenSaveDialog && f == o,
        KeyCommand::Undo => r == EditorAction::Nothing && f.history == undone(o.history) && same_session(o, f)
            && f.active == o.active,
        KeyCommand::Redo => r == EditorAction::Nothing && f.history == redone(o.history) && same_session(o, f)
            && f.active == o.active,
        KeyCommand::Enter => r == EditorAction::Nothing && match o.text_input {
            Some((pos, text)) => {
                let g = EditorView { text_input: None, ..o };
                if blank(text) {
                    f == g
                } else {
                    f.active == o.active && same_session(g, f) && f.previews.len() == 0 && f.history.shapes
                        == o.history.shapes.push(
                        Shape::Text(TextShape { pos, text: f.history.shapes.last()->Text_0.text, color: o.color, size: max_int(o.size as int, TEXT_MIN_SIZE as int) as u16 }),
                    ) && f.history.shapes.last()->Text_0.text@ == text && f.history == committed(o.history, f.history.shapes.last())
                }
            },
            None => if o.tool == Tool::Select && o.selection.rect is Some {
                f == (EditorView { tool: o.last_draw_tool, ..o })
            } else {
                f == o
            },
        },
        KeyCommand::Escape => match o.text_input {
            Some(_) => r == EditorAction::Nothing && f == (EditorView { text_input: None, ..o }),
            None => r == EditorAction::Close && f == o,
        },
    }
}

/// `f` is `o` after a press at `q` with a drawing tool: a text entry
/// opens, or a new shape becomes the active one.
pub open spec fn pressed_ok(o: EditorView, f: EditorView, q: Pos) -> bool {
    if o.tool == Tool::Select {
        f == o
    } else if o.tool == Tool::Text {
        f == (EditorView { text_input: Some((q, Seq::empty())), ..o })
    } else {
        &&& same_session(o, f)
        &&& f.history == o.history
        &&& f.previews == o.previews
        &&& f.active matches Some(s) && started(o.tool, q, o.color, o.size, next_count(o.history.shapes), s)
    }
}

/// `f` is `o` with the active shape, if any, dragged to `q`.
pub open spec fn held_ok(o: EditorView, f: EditorView, q: Pos) -> bool {
    match o.active {
        Some(a) => {
            &&& same_session(o, f)
            &&& f.history == o.history
            &&& f.previews == o.previews
            &&& f.active matches Some(n) && extended(a, q, n)
        },
        None => f == o,
    }
}

/// `f` is `o` with the active shape, if any, committed.
pub open spec fn released_ok(o: EditorView, f: EditorView) -> bool {
    match o.active {
        Some(a) => after_commit(o, f, a),
        None => f == o,
    }
}

} // verus!
