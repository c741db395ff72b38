//! The fixed 5×7 bitmap font and the text stamping built on it.

use crate::pixels::{fill_box, Image, ImageView, Rgba};
use crate::raster::abs_int;
use vstd::prelude::*;

verus! {

/// The five column bitmaps of a character, bit `r` of a column lighting
/// row `r`. Lower-case letters share the upper-case glyphs; characters
/// outside the font have none.
pub open spec fn glyph_code(ch: char) -> Option<(u8, u8, u8, u8, u8)> {
    match ch {
        '0' => Some((0x3E, 0x51, 0x49, 0x45, 0x3E)),
        '1' => Some((0x00, 0x42, 0x7F, 0x40, 0x00)),
        '2' => Some((0x42, 0x61, 0x51, 0x49, 0x46)),
        '3' => Some((0x21, 0x41, 0x45, 0x4B, 0x31)),
        '4' => Some((0x18, 0x14, 0x12, 0x7F, 0x10)),
        '5' => Some((0x27, 0x45, 0x45, 0x45, 0x39)),
        '6' => Some((0x3C, 0x4A, 0x49, 0x49, 0x30)),
        '7' => Some((0x01, 0x71, 0x09, 0x05, 0x03)),
        '8' => Some((0x36, 0x49, 0x49, 0x49, 0x36)),
        '9' => Some((0x06, 0x49, 0x49, 0x29, 0x1E)),
        'A' | 'a' => Some((0x7E, 0x11, 0x11, 0x11, 0x7E)),
        'B' | 'b' => Some((0x7F, 0x49, 0x49, 0x49, 0x36)),
        'C' | 'c' => Some((0x3E, 0x41, 0x41, 0x41, 0x22)),
        'D' | 'd' => Some((0x7F, 0x41, 0x41, 0x22, 0x1C)),
        'E' | 'e' => Some((0x7F, 0x49, 0x49, 0x49, 0x41)),
        'F' | 'f' => Some((0x7F, 0x09, 0x09, 0x09, 0x01)),
        'G' | 'g' => Some((0x3E, 0x41, 0x49, 0x49, 0x3A)),
        'H' | 'h' => Some((0x7F, 0x08, 0x08, 0x08, 0x7F)),
        'I' | 'i' => Some((0x00, 0x41, 0x7F, 0x41, 0x00)),
        'J' | 'j' => Some((0x20, 0x40, 0x41, 0x3F, 0x01)),
        'K' | 'k' => Some((0x7F, 0x08, 0x14, 0x22, 0x41)),
        'L' | 'l' => Some((0x7F, 0x40, 0x40, 0x40, 0x40)),
        'M' | 'm' => Some((0x7F, 0x02, 0x0C, 0x02, 0x7F)),
        'N' | 'n' => Some((0x7F, 0x04, 0x08, 0x10, 0x7F)),
        'O' | 'o' => Some((0x3E, 0x41, 0x41, 0x41, 0x3E)),
        'P' | 'p' => Some((0x7F, 0x09, 0x09, 0x09, 0x06)),
        'Q' | 'q' => Some((0x3E, 0x41, 0x51, 0x21, 0x5E)),
        'R' | 'r' => Some((0x7F, 0x09, 0x19, 0x29, 0x46)),
        'S' | 's' => Some((0x46, 0x49, 0x49, 0x49, 0x31)),
        'T' | 't' => Some((0x01, 0x01, 0x7F, 0x01, 0x01)),
        'U' | 'u' => Some((0x3F, 0x40, 0x40, 0x40, 0x3F)),
        'V' | 'v' => Some((0x1F, 0x20, 0x40, 0x20, 0x1F)),
        'W' | 'w' => Some((0x7F, 0x20, 0x18, 0x20, 0x7F)),
        'X' | 'x' => Some((0x63, 0x14, 0x08, 0x14, 0x63)),
        'Y' | 'y' => Some((0x03, 0x04, 0x78, 0x04, 0x03)),
        'Z' | 'z' => Some((0x61, 0x51, 0x49, 0x45, 0x43)),
        '-' => Some((0x08, 0x08, 0x08, 0x08, 0x08)),
        '_' => Some((0x40, 0x40, 0x40, 0x40, 0x40)),
        '.' => Some((0x00, 0x60, 0x60, 0x00, 0x00)),
        ':' => Some((0x00, 0x36, 0x36, 0x00, 0x00)),
        '/' => Some((0x20, 0x10, 0x08, 0x04, 0x02)),
        '+' => Some((0x08, 0x08, 0x3E, 0x08, 0x08)),
        '*' => Some((0x14, 0x08, 0x3E, 0x08, 0x14)),
        '?' => Some((0x02, 0x01, 0x51, 0x09, 0x06)),
        '!' => Some((0x00, 0x00, 0x5F, 0x00, 0x00)),
        ' ' => Some((0x00, 0x00, 0x00, 0x00, 0x00)),
        _ => None,
    }
}

/// Column `col` of a glyph.
pub open spec fn glyph_column(g: (u8, u8, u8, u8, u8), col: int) -> u8 {
    if col == 0 {
        g.0
    } else if col == 1 {
        g.1
    } else if col == 2 {
        g.2
    } else if col == 3 {
        g.3
    } else {
        g.4
    }
}

fn glyph_columns(ch: char) -> (r: Option<(u8, u8, u8, u8, u8)>)
    ensures
        r == glyph_code(ch),
{
    match ch {
        '0' => Some((0x3E, 0x51, 0x49, 0x45, 0x3E)),
        '1' => Some((0x00, 0x42, 0x7F, 0x40, 0x00)),
        '2' => Some((0x42, 0x61, 0x51, 0x49, 0x46)),
        '3' => Some((0x21, 0x41, 0x45, 0x4B, 0x31)),
        '4' => Some((0x18, 0x14, 0x12, 0x7F, 0x10)),
        '5' => Some((0x27, 0x45, 0x45, 0x45, 0x39)),
        '6' => Some((0x3C, 0x4A, 0x49, 0x49, 0x30)),
        '7' => Some((0x01, 0x71, 0x09, 0x05, 0x03)),
        '8' => Some((0x36, 0x49, 0x49, 0x49, 0x36)),
        '9' => Some((0x06, 0x49, 0x49, 0x29, 0x1E)),
        'A' | 'a' => Some((0x7E, 0x11, 0x11, 0x11, 0x7E)),
        'B' | 'b' => Some((0x7F, 0x49, 0x49, 0x49, 0x36)),
        'C' | 'c' => Some((0x3E, 0x41, 0x41, 0x41, 0x22)),
        'D' | 'd' => Some((0x7F, 0x41, 0x41, 0x22, 0x1C)),
        'E' | 'e' => Some((0x7F, 0x49, 0x49, 0x49, 0x41)),
        'F' | 'f' => Some((0x7F, 0x09, 0x09, 0x09, 0x01)),
        'G' | 'g' => Some((0x3E, 0x41, 0x49, 0x49, 0x3A)),
        'H' | 'h' => Some((0x7F, 0x08, 0x08, 0x08, 0x7F)),
        'I' | 'i' => Some((0x00, 0x41, 0x7F, 0x41, 0x00)),
        'J' | 'j' => Some((0x20, 0x40, 0x41, 0x3F, 0x01)),
        'K' | 'k' => Some((0x7F, 0x08, 0x14, 0x22, 0x41)),
        'L' | 'l' => Some((0x7F, 0x40, 0x40, 0x40, 0x40)),
        'M' | 'm' => Some((0x7F, 0x02, 0x0C, 0x02, 0x7F)),
        'N' | 'n' => Some((0x7F, 0x04, 0x08, 0x10, 0x7F)),
        'O' | 'o' => Some((0x3E, 0x41, 0x41, 0x41, 0x3E)),
        'P' | 'p' => Some((0x7F, 0x09, 0x09, 0x09, 0x06)),
        'Q' | 'q' => Some((0x3E, 0x41, 0x51, 0x21, 0x5E)),
        'R' | 'r' => Some((0x7F, 0x09, 0x19, 0x29, 0x46)),
        'S' | 's' => Some((0x46, 0x49, 0x49, 0x49, 0x31)),
        'T' | 't' => Some((0x01, 0x01, 0x7F, 0x01, 0x01)),
        'U' | 'u' => Some((0x3F, 0x40, 0x40, 0x40, 0x3F)),
        'V' | 'v' => Some((0x1F, 0x20, 0x40, 0x20, 0x1F)),
        'W' | 'w' => Some((0x7F, 0x20, 0x18, 0x20, 0x7F)),
        'X' | 'x' => Some((0x63, 0x14, 0x08, 0x14, 0x63)),
        'Y' | 'y' => Some((0x03, 0x04, 0x78, 0x04, 0x03)),
        'Z' | 'z' => Some((0x61, 0x51, 0x49, 0x45, 0x43)),
        '-' => Some((0x08, 0x08, 0x08, 0x08, 0x08)),
        '_' => Some((0x40, 0x40, 0x40, 0x40, 0x40)),
        '.' => Some((0x00, 0x60, 0x60, 0x00, 0x00)),
        ':' => Some((0x00, 0x36, 0x36, 0x00, 0x00)),
        '/' => Some((0x20, 0x10, 0x08, 0x04, 0x02)),
        '+' => Some((0x08, 0x08, 0x3E, 0x08, 0x08)),
        '*' => Some((0x14, 0x08, 0x3E, 0x08, 0x14)),
        '?' => Some((0x02, 0x01, 0x51, 0x09, 0x06)),
        '!' => Some((0x00, 0x00, 0x5F, 0x00, 0x00)),
        ' ' => Some((0x00, 0x00, 0x00, 0x00, 0x00)),
        _ => None,
    }
}

/// The column bitmaps of `ch` in the 5×7 font.
pub fn glyph_5x7(ch: char) -> (r: Option<[u8; 5]>)
    ensures
        r is Some <==> glyph_code(ch) is Some,
        r matches Some(g) ==> forall|col: int|
            0 <= col < 5 ==> g@[col] == glyph_column(glyph_code(ch)->0, col),
{
    match glyph_columns(ch) {
        Some(g) => {
            let cols = [g.0, g.1, g.2, g.3, g.4];
            assert(cols@ =~= seq![g.0, g.1, g.2, g.3, g.4]);
            Some(cols)
        },
        None => None,
    }
}

/// Row `row` of a glyph column is lit.
pub open spec fn glyph_bit(bits: u8, row: int) -> bool {
    (bits >> (row as u8)) & 1u8 == 1u8
}

/// The first `k` of the 35 cells of a glyph (column-major), each lit cell
/// stamped as a `scale × scale` block.
pub open spec fn glyph_cells(
    img: ImageView,
    x: int,
    y: int,
    g: (u8, u8, u8, u8, u8),
    c: Rgba,
    scale: int,
    k: nat,
) -> ImageView
    decreases k,
{
    if k == 0 {
        img
    } else {
        let prev = glyph_cells(img, x, y, g, c, scale, (k - 1) as nat);
        let col = (k - 1) / 7;
        let row = (k - 1) % 7;
        if glyph_bit(glyph_column(g, col), row) {
            fill_box(prev, x + col * scale, y + row * scale, x + col * scale + scale, y + row * scale + scale, c)
        } else {
            prev
        }
    }
}

/// One character with its top-left corner at `(x, y)`; nothing for a
/// character outside the font.
pub open spec fn char_spec(img: ImageView, x: int, y: int, ch: char, c: Rgba, scale: int) -> ImageView {
    match glyph_code(ch) {
        Some(g) => glyph_cells(img, x, y, g, c, scale, 35),
        None => img,
    }
}

/// Stamps one character with its top-left corner at `(x, y)`.
pub fn draw_char_5x7(img: &mut Image, x: i128, y: i128, ch: char, color: Rgba, scale: u32)
    requires
        old(img).wf(),
        -0x100_0000_0000_0000_0000_0000_0000 <= x <= 0x100_0000_0000_0000_0000_0000_0000,
        -0x100_0000_0000_0000_0000_0000_0000 <= y <= 0x100_0000_0000_0000_0000_0000_0000,
    ensures
        final(img).wf(),
        final(img)@ == char_spec(old(img)@, x as int, y as int, ch, color, scale as int),
{
    let g = match glyph_columns(ch) {
        Some(g) => g,
        None => {
            return ;
        },
    };
    let cols = [g.0, g.1, g.2, g.3, g.4];
    let s = scale as i128;
    let ghost start = img@;
    let mut k: usize = 0;
    while k < 35
        invariant
            0 <= k <= 35,
            glyph_code(ch) == Some(g),
            cols@ == seq![g.0, g.1, g.2, g.3, g.4],
            s == scale,
            -0x100_0000_0000_0000_0000_0000_0000 <= x <= 0x100_0000_0000_0000_0000_0000_0000,
            -0x100_0000_0000_0000_0000_0000_0000 <= y <= 0x100_0000_0000_0000_0000_0000_0000,
            img.wf(),
            img@ == glyph_cells(start, x as int, y as int, g, color, scale as int, k as nat),
        decreases 35 - k,
    {
        let col = k / 7;
        let row = k % 7;
        let bits = cols[col];
        assert(bits == glyph_column(g, col as int));
        if (bits >> (row as u8)) & 1u8 == 1u8 {
            assert(0 <= col * s <= 4 * 0x1_0000_0000 && 0 <= row * s <= 6 * 0x1_0000_0000)
                by (nonlinear_arith)
                requires
                    col < 5,
                    row < 7,
                    0 <= s <= 0x1_0000_0000,
            ;
            let cx = x + (col as i128) * s;
            let cy = y + (row as i128) * s;
            img.fill_rect(cx, cy, cx + s, cy + s, color);
        }
        k = k + 1;
    }
}

/// Where the `k`-th character of `text` starts: each character advances
/// six cells, and a newline returns to the left edge.
pub open spec fn text_cursor(x: int, text: Seq<char>, scale: int, k: nat) -> int
    decreases k,
{
    if k == 0 {
        x
    } else if text[k - 1] == '\n' {
        x
    } else {
        text_cursor(x, text, scale, (k - 1) as nat) + 6 * scale
    }
}

/// The first `k` characters of `text` stamped from `pos`.
pub open spec fn text_upto(img: ImageView, x: int, y: int, text: Seq<char>, c: Rgba, scale: int, k: nat) -> ImageView
    decreases k,
{
    if k == 0 {
        img
    } else {
        let prev = text_upto(img, x, y, text, c, scale, (k - 1) as nat);
        if text[k - 1] == '\n' {
            prev
        } else {
            char_spec(prev, text_cursor(x, text, scale, (k - 1) as nat), y, text[k - 1], c, scale)
        }
    }
}

/// `text` in the bitmap font with its top-left corner at `(x, y)`.
pub open spec fn text_spec(img: ImageView, x: int, y: int, text: Seq<char>, c: Rgba, scale: int) -> ImageView {
    text_upto(img, x, y, text, c, scale, text.len())
}

proof fn lemma_text_cursor_bound(x: int, text: Seq<char>, scale: int, k: nat)
    requires
        0 <= scale,
    ensures
        abs_int(text_cursor(x, text, scale, k) - x) <= 6 * scale * k,
    decreases k,
{
    if k > 0 {
        lemma_text_cursor_bound(x, text, scale, (k - 1) as nat);
        assert(6 * scale * k == 6 * scale * (k - 1) + 6 * scale) by (nonlinear_arith);
    }
}

pub proof fn lemma_text_size(img: ImageView, x: int, y: int, text: Seq<char>, c: Rgba, scale: int, k: nat)
    ensures
        text_upto(img, x, y, text, c, scale, k).same_size(img),
    decreases k,
{
    if k > 0 {
        lemma_text_size(img, x, y, text, c, scale, (k - 1) as nat);
        let prev = text_upto(img, x, y, text, c, scale, (k - 1) as nat);
        if text[k - 1] != '\n' {
            match glyph_code(text[k - 1]) {
                Some(g) => lemma_glyph_cells_size(prev, text_cursor(x, text, scale, (k - 1) as nat), y, g, c, scale, 35),
                None => {},
            }
        }
    }
}

proof fn lemma_glyph_cells_size(img: ImageView, x: int, y: int, g: (u8, u8, u8, u8, u8), c: Rgba, scale: int, k: nat)
    ensures
        glyph_cells(img, x, y, g, c, scale, k).same_size(img),
    decreases k,
{
    if k > 0 {
        lemma_glyph_cells_size(img, x, y, g, c, scale, (k - 1) as nat);
    }
}

/// Stamps `text` in the bitmap font with its top-left corner at `(x, y)`.
pub fn draw_text_bitmap(img: &mut Image, x: i32, y: i32, text: &Vec<char>, color: Rgba, scale: u32)
    requires
        old(img).wf(),
    ensures
        final(img).wf(),
        final(img)@ == text_spec(old(img)@, x as int, y as int, text@, color, scale as int),
{
    let ghost start = img@;
    let mut cx: i128 = x as i128;
    let mut k: usize = 0;
    while k < text.len()
        invariant
            0 <= k <= text.len(),
            img.wf(),
            img@ == text_upto(start, x as int, y as int, text@, color, scale as int, k as nat),
            cx == text_cursor(x as int, text@, scale as int, k as nat),
        decreases text.len() - k,
    {
        proof {
            lemma_text_cursor_bound(x as int, text@, scale as int, k as nat);
            assert(6 * scale * k <= 6 * 0x1_0000_0000 * 0x1_0000_0000_0000_0000) by (nonlinear_arith)
                requires
                    scale <= 0x1_0000_0000,
                    k <= 0x1_0000_0000_0000_0000,
            ;
            assert(-0x100_0000_0000_0000_0000_0000_0000 <= cx <= 0x100_0000_0000_0000_0000_0000_0000);
        }
        let ch = text[k];
        if ch == '\n' {
            cx = x as i128;
        } else {
            draw_char_5x7(img, cx, y as i128, ch, color, scale);
            cx = cx + 6 * scale as i128;
        }
        k = k + 1;
    }
}

} // verus!
