use fireshot::editor::{EditorAction, Editor, KeyCommand, Viewport};
use fireshot::geometry::{Pos, Rect};
use fireshot::history::History;
use fireshot::pixels::{Image, Rgba};
use fireshot::selection::{CursorIcon, PointerPhase};
use fireshot::shapes::{EffectKind, EffectShape, LineShape, Shape, Tool};

fn base(w: u32, h: u32) -> Image {
    let mut pixels = Vec::new();
    for y in 0..h {
        for x in 0..w {
            pixels.push(Rgba::new((x % 256) as u8, (y % 256) as u8, ((x + y) % 256) as u8, 255));
        }
    }
    Image::from_pixels(w, h, pixels).unwrap()
}

fn view() -> Viewport {
    Viewport { origin: Pos::new(0, 0), scale: 1 }
}

fn drag(e: &mut Editor, from: Pos, to: Pos) {
    let ui: Vec<Rect> = Vec::new();
    e.handle_input(from, PointerPhase::Pressed, view(), &ui);
    e.handle_input(to, PointerPhase::Held, view(), &ui);
    e.handle_input(to, PointerPhase::Released, view(), &ui);
}

fn with_selection(w: u32, h: u32) -> Editor {
    let mut e = Editor::new(base(w, h));
    drag(&mut e, Pos::new(10, 10), Pos::new(60, 40));
    e
}

fn line(x: i32) -> Shape {
    Shape::Line(LineShape { start: Pos::new(x, 0), end: Pos::new(x, 5), color: Rgba::new(1, 2, 3, 255), size: 1 })
}

fn start_x(s: &Shape) -> i32 {
    match s {
        Shape::Line(l) => l.start.x,
        _ => panic!("not a line"),
    }
}

fn counts(e: &Editor) -> Vec<u32> {
    e.shapes()
        .iter()
        .filter_map(|s| match s {
            Shape::CircleCount(c) => Some(c.count),
            _ => None,
        })
        .collect()
}

#[test]
fn undo_then_redo_restores_commit() {
    let mut h = History::new();
    h.push_shape(line(1));
    h.push_shape(line(2));
    h.push_shape(line(3));
    h.pop_shape();
    assert_eq!(h.shapes().len(), 2);
    assert_eq!(start_x(&h.shapes()[1]), 2);
    assert_eq!(h.redo_len(), 1);
    h.redo_shape();
    assert_eq!(h.shapes().len(), 3);
    assert_eq!(start_x(&h.shapes()[2]), 3);
    assert_eq!(h.redo_len(), 0);
}

#[test]
fn commit_after_undo_makes_redo_a_no_op() {
    let mut h = History::new();
    h.push_shape(line(1));
    h.pop_shape();
    h.push_shape(line(7));
    let version = h.version();
    h.redo_shape();
    assert_eq!(h.shapes().len(), 1);
    assert_eq!(start_x(&h.shapes()[0]), 7);
    assert_eq!(h.version(), version);
}

#[test]
fn every_change_moves_the_version() {
    let mut h = History::new();
    assert_eq!(h.version(), 0);
    h.pop_shape();
    assert_eq!(h.version(), 0);
    h.clear_shapes();
    assert_eq!(h.version(), 0);
    h.push_shape(line(1));
    assert_eq!(h.version(), 1);
    h.pop_shape();
    assert_eq!(h.version(), 2);
    h.redo_shape();
    assert_eq!(h.version(), 3);
    h.clear_shapes();
    assert_eq!(h.version(), 4);
    assert_eq!(h.shapes().len(), 0);
    assert_eq!(h.redo_len(), 0);
}

#[test]
fn circle_counts_follow_the_largest() {
    let mut e = with_selection(200, 100);
    e.set_tool(Tool::CircleCount);
    drag(&mut e, Pos::new(20, 20), Pos::new(30, 30));
    e.set_tool(Tool::Line);
    drag(&mut e, Pos::new(20, 20), Pos::new(50, 30));
    e.set_tool(Tool::CircleCount);
    drag(&mut e, Pos::new(25, 20), Pos::new(25, 20));
    drag(&mut e, Pos::new(30, 20), Pos::new(30, 20));
    assert_eq!(counts(&e), vec![1, 2, 3]);
    e.handle_key(KeyCommand::Undo);
    assert_eq!(counts(&e), vec![1, 2]);
    drag(&mut e, Pos::new(35, 20), Pos::new(35, 20));
    assert_eq!(counts(&e), vec![1, 2, 3]);
    assert_eq!(e.next_circle_count(), 4);
}

#[test]
fn selection_drag_creates_region() {
    let e = with_selection(200, 100);
    let r = e.selection().rect.unwrap();
    assert_eq!((r.min.x, r.min.y, r.max.x, r.max.y), (10, 10, 60, 40));
    assert!(e.selection().drag.is_none());
}

#[test]
fn moving_selection_stays_inside_image() {
    let mut e = with_selection(200, 100);
    let ui: Vec<Rect> = Vec::new();
    e.handle_input(Pos::new(30, 20), PointerPhase::Pressed, view(), &ui);
    e.handle_input(Pos::new(200, 100), PointerPhase::Held, view(), &ui);
    let r = e.selection().rect.unwrap();
    assert_eq!((r.min.x, r.min.y, r.max.x, r.max.y), (150, 70, 200, 100));
    e.handle_input(Pos::new(0, 0), PointerPhase::Held, view(), &ui);
    let r = e.selection().rect.unwrap();
    assert_eq!((r.min.x, r.min.y, r.max.x, r.max.y), (0, 0, 50, 30));
}

#[test]
fn resizing_past_opposite_corner_normalizes() {
    let mut e = with_selection(200, 100);
    drag(&mut e, Pos::new(60, 40), Pos::new(5, 5));
    let r = e.selection().rect.unwrap();
    assert_eq!((r.min.x, r.min.y, r.max.x, r.max.y), (5, 5, 10, 10));
}

#[test]
fn degenerate_selection_is_dropped() {
    let mut e = Editor::new(base(50, 50));
    drag(&mut e, Pos::new(10, 10), Pos::new(10, 30));
    assert!(e.selection().rect.is_none());
    drag(&mut e, Pos::new(10, 10), Pos::new(10, 10));
    assert!(e.selection().rect.is_none());
}

#[test]
fn cursor_reports_handles_and_interior() {
    let mut e = with_selection(200, 100);
    let ui: Vec<Rect> = Vec::new();
    let c = e.handle_input(Pos::new(11, 11), PointerPhase::Idle, view(), &ui);
    assert_eq!(c, Some(CursorIcon::ResizeNwSe));
    let c = e.handle_input(Pos::new(59, 11), PointerPhase::Idle, view(), &ui);
    assert_eq!(c, Some(CursorIcon::ResizeNeSw));
    let c = e.handle_input(Pos::new(30, 25), PointerPhase::Idle, view(), &ui);
    assert_eq!(c, Some(CursorIcon::Grab));
    let c = e.handle_input(Pos::new(100, 80), PointerPhase::Idle, view(), &ui);
    assert_eq!(c, Some(CursorIcon::Crosshair));
    let over = vec![Rect::from_min_max(Pos::new(0, 0), Pos::new(300, 300))];
    let c = e.handle_input(Pos::new(30, 25), PointerPhase::Pressed, view(), &over);
    assert_eq!(c, Some(CursorIcon::Default));
    assert!(e.selection().drag.is_none());
}

#[test]
fn drawing_outside_selection_is_ignored() {
    let mut e = with_selection(200, 100);
    e.set_tool(Tool::Pencil);
    drag(&mut e, Pos::new(100, 80), Pos::new(120, 90));
    assert_eq!(e.shapes().len(), 0);
    drag(&mut e, Pos::new(20, 20), Pos::new(25, 22));
    assert_eq!(e.shapes().len(), 1);
    match &e.shapes()[0] {
        Shape::Stroke(s) => {
            assert_eq!(s.points, vec![Pos::new(20, 20), Pos::new(25, 22)]);
            assert_eq!(s.size, 3);
        }
        _ => panic!("expected a stroke"),
    }
}

#[test]
fn scale_maps_screen_to_image_pixels() {
    let mut e = Editor::new(base(200, 100));
    let ui: Vec<Rect> = Vec::new();
    let v = Viewport { origin: Pos::new(100, 50), scale: 2 };
    e.handle_input(Pos::new(105, 55), PointerPhase::Pressed, v, &ui);
    e.handle_input(Pos::new(130, 70), PointerPhase::Held, v, &ui);
    e.handle_input(Pos::new(130, 70), PointerPhase::Released, v, &ui);
    let r = e.selection().rect.unwrap();
    assert_eq!((r.min.x, r.min.y, r.max.x, r.max.y), (10, 10, 60, 40));
}

#[test]
fn marker_is_translucent_and_wide() {
    let mut e = with_selection(200, 100);
    e.set_color(Rgba::new(0, 200, 0, 255));
    e.set_tool(Tool::Marker);
    drag(&mut e, Pos::new(20, 20), Pos::new(30, 20));
    match &e.shapes()[0] {
        Shape::Stroke(s) => {
            assert_eq!(s.color, Rgba::new(0, 200, 0, 120));
            assert_eq!(s.size, 6);
        }
        _ => panic!("expected a stroke"),
    }
}

#[test]
fn enter_commits_only_non_blank_text() {
    let mut e = with_selection(200, 100);
    e.set_tool(Tool::Text);
    let ui: Vec<Rect> = Vec::new();
    e.handle_input(Pos::new(20, 20), PointerPhase::Pressed, view(), &ui);
    assert!(e.text_input().is_some());
    e.set_text_input_text(vec![' ', '\t']);
    assert_eq!(e.handle_key(KeyCommand::Enter), EditorAction::Nothing);
    assert!(e.text_input().is_none());
    assert_eq!(e.shapes().len(), 0);
    e.handle_input(Pos::new(20, 20), PointerPhase::Pressed, view(), &ui);
    e.set_text_input_text(vec!['H', 'I']);
    e.handle_key(KeyCommand::Enter);
    assert_eq!(e.shapes().len(), 1);
    match &e.shapes()[0] {
        Shape::Text(t) => {
            assert_eq!(t.text, vec!['H', 'I']);
            assert_eq!(t.pos, Pos::new(20, 20));
            assert_eq!(t.size, 8);
        }
        _ => panic!("expected text"),
    }
}

#[test]
fn escape_cancels_text_then_closes() {
    let mut e = with_selection(200, 100);
    e.set_tool(Tool::Text);
    let ui: Vec<Rect> = Vec::new();
    e.handle_input(Pos::new(20, 20), PointerPhase::Pressed, view(), &ui);
    assert_eq!(e.handle_key(KeyCommand::Escape), EditorAction::Nothing);
    assert!(e.text_input().is_none());
    assert_eq!(e.handle_key(KeyCommand::Escape), EditorAction::Close);
    assert_eq!(e.handle_key(KeyCommand::Copy), EditorAction::CopyAndClose);
    assert_eq!(e.handle_key(KeyCommand::Save), EditorAction::OpenSaveDialog);
}

#[test]
fn enter_returns_to_last_drawing_tool() {
    let mut e = with_selection(200, 100);
    e.set_tool(Tool::Arrow);
    e.set_tool(Tool::Select);
    e.handle_key(KeyCommand::Enter);
    assert_eq!(e.tool(), Tool::Arrow);
}

#[test]
fn size_is_held_in_range() {
    let mut e = Editor::new(base(10, 10));
    e.set_size(0);
    assert_eq!(e.size(), 1);
    e.set_size(99);
    assert_eq!(e.size(), 20);
    e.set_size(7);
    assert_eq!(e.size(), 7);
}

#[test]
fn preview_cache_is_keyed_by_version() {
    let mut e = with_selection(200, 100);
    let effect = EffectShape { start: Pos::new(10, 10), end: Pos::new(30, 30), size: 4, kind: EffectKind::Pixelate };
    let first = e.ensure_effect_preview(&effect, 0).unwrap();
    assert_eq!((first.width(), first.height()), (20, 20));
    assert_eq!(e.previews_len(), 1);
    let version = e.shapes_version();
    e.push_shape(line(1));
    assert_ne!(e.shapes_version(), version);
    assert_eq!(e.previews_len(), 0);
    let again = e.ensure_effect_preview(&effect, 0).unwrap();
    assert_eq!(e.previews_len(), 1);
    assert_eq!(again.width(), 20);
    let empty = EffectShape { start: Pos::new(10, 10), end: Pos::new(10, 30), size: 4, kind: EffectKind::Blur };
    assert!(e.ensure_effect_preview(&empty, 1).is_none());
}

#[test]
fn crop_export_gives_selected_region() {
    let e = with_selection(200, 100);
    let img = e.render_image();
    assert_eq!((img.width(), img.height()), (50, 30));
    let src = base(200, 100);
    for y in 0..30 {
        for x in 0..50 {
            assert_eq!(img.get_pixel(x, y), src.get_pixel(10 + x, 10 + y));
        }
    }
}

#[test]
fn export_without_selection_is_full_canvas() {
    let e = Editor::new(base(20, 10));
    let img = e.render_image();
    assert_eq!((img.width(), img.height()), (20, 10));
}

#[test]
fn rendering_twice_is_identical() {
    let mut e = with_selection(120, 80);
    for tool in [Tool::Pencil, Tool::Arrow, Tool::Rect, Tool::Circle, Tool::CircleCount, Tool::Blur, Tool::Pixelate] {
        e.set_tool(tool);
        drag(&mut e, Pos::new(15, 15), Pos::new(50, 35));
    }
    let a = e.render_full_image();
    let b = e.render_full_image();
    assert_eq!(a.pixels(), b.pixels());
    assert_ne!(a.pixels(), e.base_image().pixels());
}

#[test]
fn png_and_bmp_exports_carry_signatures() {
    let e = with_selection(200, 100);
    let png = e.export_png().unwrap();
    assert_eq!(&png[..8], &[0x89, b'P', b'N', b'G', 0x0D, 0x0A, 0x1A, 0x0A]);
    let bmp = e.export_bmp().unwrap();
    assert_eq!(&bmp[..2], b"BM");
    assert!(bmp.len() >= 50 * 30 * 4);
}

#[test]
fn status_line_reports_exports() {
    let mut e = Editor::new(base(10, 10));
    assert!(e.status().is_none());
    e.record_copy(true, false);
    assert_eq!(e.status().as_deref(), Some("Copied to clipboard (wl-copy image/png)"));
    e.record_copy(true, true);
    assert_eq!(e.status().as_deref(), Some("Copied to clipboard (wl-copy image/png + xclip image/png/bmp)"));
    e.record_copy(false, true);
    assert_eq!(e.status().as_deref(), Some("Copied to clipboard (xclip image/png/bmp)"));
    e.record_copy(false, false);
    assert_eq!(e.status().as_deref(), Some("Clipboard copy failed"));
    e.record_save("/tmp/a.png", None);
    assert_eq!(e.status().as_deref(), Some("Saved /tmp/a.png"));
    e.record_save("/tmp/a.png", Some("disk full".to_string()));
    assert_eq!(e.status().as_deref(), Some("Save failed: disk full"));
    e.set_status(None);
    assert!(e.status().is_none());
}

#[test]
fn new_session_starts_at_version_zero() {
    let e = Editor::new(base(10, 10));
    assert_eq!(e.shapes_version(), 0);
    assert_eq!(e.previews_len(), 0);
}

#[test]
fn preview_replaces_its_own_slot() {
    let mut e = with_selection(200, 100);
    let a = EffectShape { start: Pos::new(10, 10), end: Pos::new(30, 30), size: 4, kind: EffectKind::Pixelate };
    let b = EffectShape { start: Pos::new(40, 10), end: Pos::new(60, 20), size: 5, kind: EffectKind::Blur };
    e.ensure_effect_preview(&a, 0).unwrap();
    e.ensure_effect_preview(&b, 1).unwrap();
    assert_eq!(e.previews_len(), 2);
    let again = e.ensure_effect_preview(&b, 0).unwrap();
    assert_eq!((again.width(), again.height()), (20, 10));
    assert_eq!(e.previews_len(), 2);
}

#[test]
fn zero_sized_buttons_get_no_places() {
    let r = fireshot::layout::layout_tool_buttons(
        Rect::from_min_max(Pos::new(10, 10), Pos::new(50, 50)),
        Rect::from_min_max(Pos::new(0, 0), Pos::new(100, 100)),
        0,
        0,
        0,
        4,
    );
    assert!(r.is_empty());
}
