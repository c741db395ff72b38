use fireshot::editor::{Editor, Viewport};
use fireshot::geometry::{Pos, Rect};
use fireshot::layout::{fit_box, layout_tool_buttons, place_tool_controls, row_positions, selection_screen_rect};
use fireshot::pixels::{Image, Rgba};
use fireshot::selection::PointerPhase;
use fireshot::shapes::Tool;

fn rect(x0: i32, y0: i32, x1: i32, y1: i32) -> Rect {
    Rect::from_min_max(Pos::new(x0, y0), Pos::new(x1, y1))
}

#[test]
fn buttons_wrap_around_the_region() {
    let r = layout_tool_buttons(rect(100, 100, 300, 200), rect(0, 0, 800, 600), 28, 28, 6, 16);
    assert_eq!(r.len(), 16);
    assert_eq!(r[0], Pos::new(101, 206));
    assert_eq!(r[5], Pos::new(271, 206));
    assert_eq!(r[6], Pos::new(306, 102));
    assert_eq!(r[8], Pos::new(306, 170));
    assert_eq!(r[9], Pos::new(101, 66));
    assert_eq!(r[15], Pos::new(66, 136));
}

#[test]
fn buttons_fall_back_inside_a_full_region() {
    let r = layout_tool_buttons(rect(0, 0, 800, 600), rect(0, 0, 800, 600), 28, 28, 6, 16);
    assert_eq!(r.len(), 16);
    assert_eq!(r[0], Pos::new(131, 572));
    assert_eq!(r[15], Pos::new(131 + 15 * 34, 572));
}

#[test]
fn no_buttons_when_nothing_fits() {
    let r = layout_tool_buttons(rect(0, 0, 10, 10), rect(0, 0, 10, 10), 28, 28, 6, 16);
    assert!(r.is_empty());
}

#[test]
fn row_is_pushed_back_into_bounds() {
    let r = row_positions(5, 50, 3, 28, 28, 6, rect(0, 0, 800, 600));
    assert_eq!(r, vec![Pos::new(0, 50), Pos::new(34, 50), Pos::new(68, 50)]);
}

#[test]
fn controls_avoid_buttons() {
    let sel = rect(100, 100, 300, 200);
    let image = rect(0, 0, 800, 600);
    assert_eq!(place_tool_controls(sel, image, 240, 36, 6, &Vec::new()), Pos::new(60, 206));
    let buttons = vec![rect(100, 206, 128, 234)];
    assert_eq!(place_tool_controls(sel, image, 240, 36, 6, &buttons), Pos::new(60, 58));
}

#[test]
fn boxes_are_shifted_into_bounds() {
    let r = fit_box(Pos::new(790, 590), 20, 20, rect(0, 0, 800, 600));
    assert_eq!(r, rect(780, 580, 800, 600));
    let r = fit_box(Pos::new(-5, 10), 20, 20, rect(0, 0, 800, 600));
    assert_eq!(r, rect(0, 10, 20, 30));
}

#[test]
fn selection_maps_to_screen() {
    let r = selection_screen_rect(rect(10, 10, 60, 40), Pos::new(100, 50), 2);
    assert_eq!(r, rect(105, 55, 130, 70));
}

#[test]
fn preview_render_shows_the_shape_being_drawn() {
    let mut e = Editor::new(Image::new(80, 60, Rgba::new(0, 0, 0, 255)));
    let v = Viewport { origin: Pos::new(0, 0), scale: 1 };
    let ui: Vec<Rect> = Vec::new();
    e.handle_input(Pos::new(5, 5), PointerPhase::Pressed, v, &ui);
    e.handle_input(Pos::new(70, 50), PointerPhase::Held, v, &ui);
    e.handle_input(Pos::new(70, 50), PointerPhase::Released, v, &ui);
    e.set_tool(Tool::Rect);
    e.handle_input(Pos::new(20, 20), PointerPhase::Pressed, v, &ui);
    e.handle_input(Pos::new(40, 30), PointerPhase::Held, v, &ui);
    let committed = e.render_full_image();
    let shown = e.render_with_active();
    assert_eq!(committed.get_pixel(20, 20), Rgba::new(0, 0, 0, 255));
    assert_eq!(shown.get_pixel(20, 20), Rgba::new(255, 0, 0, 255));
    assert_eq!(shown.get_pixel(30, 25), Rgba::new(0, 0, 0, 255));
}
