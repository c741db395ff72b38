use fireshot::effects::{apply_blur, apply_pixelate, box_average};
use fireshot::export::{encode_bmp, encode_png, to_rgba_bytes, ExportError};
use fireshot::geometry::{hit_corner, isqrt_wide, normalize_rect, round_div_i128, Pos, Rect, SelectionCorner};
use fireshot::glyphs::{draw_text_bitmap, glyph_5x7};
use fireshot::pixels::{Image, Rgba};
use fireshot::raster::{
    arrow_head_points, circlecount_contrast_colors, color_is_dark, draw_filled_circle, draw_line,
    ellipse_points, fill_triangle, with_alpha,
};
use fireshot::render::{circlecount_text_scale, decimal_digits};

fn blank(w: u32, h: u32) -> Image {
    Image::new(w, h, Rgba::new(0, 0, 0, 0))
}

fn red() -> Rgba {
    Rgba::new(255, 0, 0, 255)
}

fn lit(img: &Image, x: u32, y: u32) -> bool {
    img.get_pixel(x, y) == red()
}

#[test]
fn line_stamps_squares_along_its_steps() {
    let mut img = blank(10, 10);
    draw_line(&mut img, Pos::new(1, 1), Pos::new(4, 1), red(), 1);
    for y in 0..10 {
        for x in 0..10 {
            assert_eq!(lit(&img, x, y), x <= 5 && y <= 2, "pixel {} {}", x, y);
        }
    }
}

#[test]
fn line_is_clipped_at_the_border() {
    let mut img = blank(4, 4);
    draw_line(&mut img, Pos::new(-5, -5), Pos::new(10, -5), red(), 2);
    assert!(!lit(&img, 0, 0));
    draw_line(&mut img, Pos::new(-5, 0), Pos::new(10, 0), red(), 2);
    assert!(lit(&img, 0, 0) && lit(&img, 3, 1) && !lit(&img, 3, 2));
}

#[test]
fn triangle_uses_pixel_centres() {
    let mut img = blank(6, 6);
    fill_triangle(&mut img, Pos::new(0, 0), Pos::new(4, 0), Pos::new(0, 4), red());
    assert!(lit(&img, 0, 0));
    assert!(lit(&img, 1, 2));
    assert!(!lit(&img, 3, 3));
    assert!(!lit(&img, 4, 0));
    let mut flat = blank(6, 6);
    fill_triangle(&mut flat, Pos::new(0, 0), Pos::new(2, 2), Pos::new(4, 4), red());
    assert!(flat.pixels().iter().all(|p| *p == Rgba::new(0, 0, 0, 0)));
}

#[test]
fn disc_tests_squared_distance() {
    let mut img = blank(10, 10);
    draw_filled_circle(&mut img, Pos::new(5, 5), 2, red());
    assert!(lit(&img, 5, 5));
    assert!(lit(&img, 3, 5));
    assert!(!lit(&img, 3, 3));
    assert!(!lit(&img, 7, 5));
}

#[test]
fn ellipse_points_go_round_from_the_right() {
    let pts = ellipse_points(Rect::from_min_max(Pos::new(0, 0), Pos::new(10, 10)));
    assert_eq!(pts.len(), 81);
    assert_eq!(pts[0], Pos::new(10, 5));
    assert_eq!(pts[20], Pos::new(5, 10));
    assert_eq!(pts[40], Pos::new(0, 5));
    assert_eq!(pts[60], Pos::new(5, 0));
    assert_eq!(pts[80], pts[0]);
}

#[test]
fn arrow_head_geometry() {
    let (base, left, right) = arrow_head_points(Pos::new(0, 0), Pos::new(100, 0), 3);
    assert_eq!(base, Pos::new(88, 0));
    assert_eq!(left, Pos::new(88, 5));
    assert_eq!(right, Pos::new(88, -5));
    let (base, _, _) = arrow_head_points(Pos::new(0, 0), Pos::new(10, 0), 3);
    assert_eq!(base, Pos::new(2, 0));
}

#[test]
fn integer_helpers() {
    assert_eq!(isqrt_wide(99), 9);
    assert_eq!(isqrt_wide(100), 10);
    assert_eq!(round_div_i128(9, 2), 5);
    assert_eq!(round_div_i128(-9, 2), -5);
    assert_eq!(round_div_i128(7, 3), 2);
    let r = normalize_rect(Rect::from_min_max(Pos::new(5, 9), Pos::new(1, 2)));
    assert_eq!(r, Rect::from_min_max(Pos::new(1, 2), Pos::new(5, 9)));
}

#[test]
fn corner_hit_order_and_radius() {
    let r = Rect::from_min_max(Pos::new(0, 0), Pos::new(10, 10));
    assert_eq!(hit_corner(r, Pos::new(1, 1), 2), Some(SelectionCorner::TopLeft));
    assert_eq!(hit_corner(r, Pos::new(9, 1), 2), Some(SelectionCorner::TopRight));
    assert_eq!(hit_corner(r, Pos::new(1, 9), 2), Some(SelectionCorner::BottomLeft));
    assert_eq!(hit_corner(r, Pos::new(10, 12), 2), Some(SelectionCorner::BottomRight));
    assert_eq!(hit_corner(r, Pos::new(2, 2), 2), None);
}

#[test]
fn glyphs_cover_upper_and_lower_case() {
    assert_eq!(glyph_5x7('A'), Some([0x7E, 0x11, 0x11, 0x11, 0x7E]));
    assert_eq!(glyph_5x7('a'), Some([0x7E, 0x11, 0x11, 0x11, 0x7E]));
    assert_eq!(glyph_5x7('7'), Some([0x01, 0x71, 0x09, 0x05, 0x03]));
    assert_eq!(glyph_5x7(' '), Some([0, 0, 0, 0, 0]));
    assert_eq!(glyph_5x7('~'), None);
}

#[test]
fn text_stamps_glyph_cells() {
    let mut img = blank(20, 10);
    draw_text_bitmap(&mut img, 0, 0, &vec!['I', '~', 'I'], red(), 1);
    for row in 0..7 {
        assert!(lit(&img, 2, row));
    }
    assert!(lit(&img, 1, 0) && lit(&img, 1, 6) && !lit(&img, 1, 3));
    assert!(!lit(&img, 8, 3));
    assert!(lit(&img, 14, 3));
    let mut big = blank(20, 20);
    draw_text_bitmap(&mut big, 0, 0, &vec!['I'], red(), 2);
    assert!(lit(&big, 4, 0) && lit(&big, 5, 13) && !lit(&big, 6, 3));
}

#[test]
fn contrast_by_luminance() {
    let white = Rgba::new(255, 255, 255, 255);
    let black = Rgba::new(0, 0, 0, 255);
    assert!(color_is_dark(Rgba::new(0, 0, 255, 255)));
    assert!(!color_is_dark(Rgba::new(0, 255, 0, 255)));
    assert_eq!(circlecount_contrast_colors(black), (white, black));
    assert_eq!(circlecount_contrast_colors(white), (black, white));
    assert_eq!(with_alpha(red(), 120), Rgba::new(255, 0, 0, 120));
}

#[test]
fn callout_labels() {
    assert_eq!(decimal_digits(1203), vec!['1', '2', '0', '3']);
    assert_eq!(decimal_digits(0), vec!['0']);
    assert_eq!(circlecount_text_scale(18, 1), 3);
    assert_eq!(circlecount_text_scale(18, 2), 2);
    assert_eq!(circlecount_text_scale(1, 3), 1);
}

#[test]
fn pixelate_uniform_region_is_unchanged() {
    let c = Rgba::new(12, 34, 56, 78);
    for block in [1u32, 2, 3, 7, 50] {
        let mut img = Image::new(17, 13, c);
        apply_pixelate(&mut img, Rect::from_min_max(Pos::new(2, 3), Pos::new(15, 11)), block);
        assert!(img.pixels().iter().all(|p| *p == c));
    }
}

#[test]
fn pixelate_averages_each_cell() {
    let px = vec![
        Rgba::new(0, 0, 0, 0), Rgba::new(10, 0, 0, 0), Rgba::new(100, 0, 0, 0),
        Rgba::new(20, 0, 0, 0), Rgba::new(31, 0, 0, 0), Rgba::new(200, 0, 0, 0),
    ];
    let mut img = Image::from_pixels(3, 2, px).unwrap();
    apply_pixelate(&mut img, Rect::from_min_max(Pos::new(0, 0), Pos::new(3, 2)), 2);
    assert_eq!(img.get_pixel(0, 0).r, 15);
    assert_eq!(img.get_pixel(1, 1).r, 15);
    assert_eq!(img.get_pixel(2, 0).r, 150);
}

#[test]
fn blur_corner_window_is_smaller() {
    let mut px = Vec::new();
    for y in 0..5u8 {
        for x in 0..5u8 {
            px.push(Rgba::new(10 * x + y, 0, 0, 255));
        }
    }
    let src = Image::from_pixels(5, 5, px).unwrap();
    let mut img = Image::from_pixels(5, 5, src.pixels().clone()).unwrap();
    apply_blur(&mut img, Rect::from_min_max(Pos::new(0, 0), Pos::new(5, 5)), 1);
    assert_eq!(img.get_pixel(0, 0), box_average(&src, 0, 2, 0, 2));
    assert_eq!(img.get_pixel(0, 0).r, (0 + 10 + 1 + 11) / 4);
    assert_eq!(img.get_pixel(2, 2).r, (0..3).flat_map(|y| (0..3).map(move |x| 10 * (x + 1) + (y + 1))).sum::<u32>() as u8 / 9);
    assert_eq!(img.get_pixel(4, 4).r, (33 + 43 + 34 + 44) / 4);
}

#[test]
fn blur_at_edge_stays_in_bounds() {
    let mut img = Image::new(3, 3, Rgba::new(9, 9, 9, 9));
    apply_blur(&mut img, Rect::from_min_max(Pos::new(-10, -10), Pos::new(40, 40)), 12);
    assert!(img.pixels().iter().all(|p| *p == Rgba::new(9, 9, 9, 9)));
}

#[test]
fn raw_bytes_are_rgba_in_row_order() {
    let img = Image::from_pixels(2, 1, vec![Rgba::new(1, 2, 3, 4), Rgba::new(5, 6, 7, 8)]).unwrap();
    assert_eq!(to_rgba_bytes(&img), vec![1, 2, 3, 4, 5, 6, 7, 8]);
    assert!(Image::from_pixels(2, 2, vec![Rgba::new(0, 0, 0, 0)]).is_none());
}

#[test]
fn empty_image_does_not_encode_as_png() {
    let img = Image::new(0, 0, Rgba::new(0, 0, 0, 0));
    assert!(matches!(encode_png(&img), Err(ExportError::EncodeFailed(_))));
}

#[test]
fn blur_window_stops_at_the_rectangle() {
    let mut img = Image::from_pixels(2, 1, vec![Rgba::new(0, 0, 0, 255), Rgba::new(100, 100, 100, 255)]).unwrap();
    apply_blur(&mut img, Rect::from_min_max(Pos::new(1, 0), Pos::new(2, 1)), 1);
    assert_eq!(img.get_pixel(1, 0), Rgba::new(100, 100, 100, 255));
    assert_eq!(img.get_pixel(0, 0), Rgba::new(0, 0, 0, 255));
}

#[test]
fn blur_radius_is_capped() {
    let mut px = Vec::new();
    for x in 0..40u32 {
        px.push(Rgba::new(if x == 0 { 250 } else { 0 }, 0, 0, 255));
    }
    let mut img = Image::from_pixels(40, 1, px).unwrap();
    apply_blur(&mut img, Rect::from_min_max(Pos::new(0, 0), Pos::new(40, 1)), 30);
    assert_eq!(img.get_pixel(12, 0).r, 250 / 25);
    assert_eq!(img.get_pixel(13, 0).r, 0);
}

#[test]
fn non_empty_images_always_encode() {
    let img = Image::new(3, 2, Rgba::new(1, 2, 3, 4));
    assert!(encode_png(&img).is_ok());
    let bmp = encode_bmp(&img).unwrap();
    assert_eq!(&bmp[..2], b"BM");
    assert_eq!(bmp.len(), 122 + 4 * 3 * 2);
}
