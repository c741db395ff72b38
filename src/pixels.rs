//! The RGBA8 pixel buffer that every drawing operation writes into.

use vstd::arithmetic::div_mod::{
    lemma_fundamental_div_mod, lemma_fundamental_div_mod_converse_div,
    lemma_fundamental_div_mod_converse_mod,
};
use vstd::arithmetic::mul::lemma_mul_inequality;
use vstd::prelude::*;

verus! {

/// One pixel: red, green, blue and alpha channels.
#[derive(Clone, Copy, Debug, PartialEq, Eq, Structural)]
pub struct Rgba {
    pub r: u8,
    pub g: u8,
    pub b: u8,
    pub a: u8,
}

impl Rgba {
    pub fn new(r: u8, g: u8, b: u8, a: u8) -> (c: Rgba)
        ensures
            c == (Rgba { r, g, b, a }),
    {
        Rgba { r, g, b, a }
    }

    /// Channel `k` (0 red, 1 green, 2 blue, 3 alpha) as an integer.
    pub open spec fn channel(self, k: int) -> int {
        if k == 0 {
            self.r as int
        } else if k == 1 {
            self.g as int
        } else if k == 2 {
            self.b as int
        } else {
            self.a as int
        }
    }
}

/// The mathematical content of an image: its size and its pixels in
/// row-major order.
pub struct ImageView {
    pub width: nat,
    pub height: nat,
    pub pixels: Seq<Rgba>,
}

impl ImageView {
    pub open spec fn wf(self) -> bool {
        self.pixels.len() == self.width * self.height
    }

    pub open spec fn inside(self, x: int, y: int) -> bool {
        0 <= x < self.width && 0 <= y < self.height
    }

    pub open spec fn at(self, x: int, y: int) -> Rgba {
        self.pixels[y * self.width + x]
    }

    pub open spec fn same_size(self, other: ImageView) -> bool {
        self.width == other.width && self.height == other.height
    }
}

/// `img` with every pixel whose coordinates satisfy `set` replaced by `c`.
/// Coordinates outside the image are never touched, so `set` needs no
/// clipping of its own.
pub open spec fn paint(img: ImageView, set: spec_fn(int, int) -> bool, c: Rgba) -> ImageView {
    ImageView {
        width: img.width,
        height: img.height,
        pixels: Seq::new(
            img.pixels.len(),
            |i: int|
                if set(i % (img.width as int), i / (img.width as int)) {
                    c
                } else {
                    img.pixels[i]
                },
        ),
    }
}

/// `img` with every pixel inside the half-open box `[x0, x1) × [y0, y1)`
/// replaced by `c`.
pub open spec fn fill_box(img: ImageView, x0: int, y0: int, x1: int, y1: int, c: Rgba) -> ImageView {
    paint(img, |x: int, y: int| x0 <= x < x1 && y0 <= y < y1, c)
}

/// The image whose pixel `(x, y)` is `f(x, y)`, of the same size as `img`.
pub open spec fn remap(img: ImageView, f: spec_fn(int, int) -> Rgba) -> ImageView {
    ImageView {
        width: img.width,
        height: img.height,
        pixels: Seq::new(
            img.pixels.len(),
            |i: int| f(i % (img.width as int), i / (img.width as int)),
        ),
    }
}

/// The sub-image `[x0, x1) × [y0, y1)` of `img`.
pub open spec fn cropped(img: ImageView, x0: int, y0: int, x1: int, y1: int) -> ImageView {
    ImageView {
        width: (x1 - x0) as nat,
        height: (y1 - y0) as nat,
        pixels: Seq::new(
            ((x1 - x0) * (y1 - y0)) as nat,
            |i: int| img.at(x0 + i % (x1 - x0), y0 + i / (x1 - x0)),
        ),
    }
}

/// Row-major position of a pixel: distinct pixels have distinct positions,
/// all below `w * h`.
pub proof fn lemma_index(w: int, h: int, x: int, y: int)
    requires
        0 <= x < w,
        0 <= y < h,
    ensures
        0 <= y * w + x < w * h,
        (y * w + x) % w == x,
        (y * w + x) / w == y,
{
    lemma_mul_inequality(y, h - 1, w);
    assert((h - 1) * w == h * w - w) by (nonlinear_arith);
    assert(w * h == h * w) by (nonlinear_arith);
    assert(0 <= y * w) by (nonlinear_arith)
        requires
            0 <= y,
            0 <= w,
    ;
    lemma_fundamental_div_mod_converse_mod(y * w + x, w, y, x);
    lemma_fundamental_div_mod_converse_div(y * w + x, w, y, x);
}

/// Every position below `w * h` is the position of a pixel inside the image.
pub proof fn lemma_position(w: int, h: int, i: int)
    requires
        0 < w,
        0 <= h,
        0 <= i < w * h,
    ensures
        0 <= i % w < w,
        0 <= i / w < h,
        i == (i / w) * w + i % w,
{
    lemma_fundamental_div_mod(i, w);
    assert(i == w * (i / w) + i % w);
    assert(w * (i / w) == (i / w) * w) by (nonlinear_arith);
    assert(0 <= i / w) by {
        vstd::arithmetic::div_mod::lemma_div_pos_is_pos(i, w);
    }
    if i / w >= h {
        lemma_mul_inequality(h, i / w, w);
        assert(h * w == w * h) by (nonlinear_arith);
    }
}

/// What `paint` leaves at one pixel.
pub proof fn lemma_paint_at(img: ImageView, set: spec_fn(int, int) -> bool, c: Rgba, x: int, y: int)
    requires
        img.wf(),
        img.inside(x, y),
    ensures
        paint(img, set, c).wf(),
        paint(img, set, c).at(x, y) == (if set(x, y) {
            c
        } else {
            img.at(x, y)
        }),
{
    lemma_index(img.width as int, img.height as int, x, y);
}

/// What `remap` leaves at one pixel.
pub proof fn lemma_remap_at(img: ImageView, f: spec_fn(int, int) -> Rgba, x: int, y: int)
    requires
        img.wf(),
        img.inside(x, y),
    ensures
        remap(img, f).wf(),
        remap(img, f).at(x, y) == f(x, y),
{
    lemma_index(img.width as int, img.height as int, x, y);
}

/// Two well-formed images of one size that agree at every pixel are equal.
pub proof fn lemma_image_ext(a: ImageView, b: ImageView)
    requires
        a.wf(),
        b.wf(),
        a.same_size(b),
        forall|x: int, y: int| a.inside(x, y) ==> #[trigger] a.at(x, y) == b.at(x, y),
    ensures
        a == b,
{
    assert forall|i: int| 0 <= i < a.pixels.len() implies a.pixels[i] == b.pixels[i] by {
        if a.width == 0 {
            assert(a.width * a.height == 0) by (nonlinear_arith)
                requires
                    a.width == 0,
            ;
        }
        lemma_position(a.width as int, a.height as int, i);
        assert(a.at(i % (a.width as int), i / (a.width as int)) == b.at(
            i % (a.width as int),
            i / (a.width as int),
        ));
    }
    assert(a.pixels =~= b.pixels);
}

/// A rectangular grid of RGBA8 pixels, stored row by row.
#[derive(Debug)]
pub struct Image {
    width: u32,
    height: u32,
    pixels: Vec<Rgba>,
}

impl View for Image {
    type V = ImageView;

    closed spec fn view(&self) -> ImageView {
        ImageView { width: self.width as nat, height: self.height as nat, pixels: self.pixels@ }
    }
}

impl Image {
    pub open spec fn wf(&self) -> bool {
        self@.wf() && self@.pixels.len() <= usize::MAX
    }

    pub proof fn lemma_wf(&self)
        requires
            self.wf(),
        ensures
            self@.wf(),
            self@.width <= u32::MAX,
            self@.height <= u32::MAX,
            self@.width * self@.height <= usize::MAX,
    {
    }

    /// A `width × height` image filled with `fill`.
    pub fn new(width: u32, height: u32, fill: Rgba) -> (img: Image)
        requires
            width * height <= usize::MAX,
        ensures
            img.wf(),
            img@.width == width,
            img@.height == height,
            forall|x: int, y: int| img@.inside(x, y) ==> #[trigger] img@.at(x, y) == fill,
    {
        let n: usize = width as usize * height as usize;
        let mut pixels: Vec<Rgba> = Vec::with_capacity(n);
        let mut i: usize = 0;
        while i < n
            invariant
                i <= n,
                pixels@.len() == i,
                forall|j: int| 0 <= j < i ==> pixels@[j] == fill,
            decreases n - i,
        {
            pixels.push(fill);
            i = i + 1;
        }
        let img = Image { width, height, pixels };
        proof {
            assert forall|x: int, y: int| img@.inside(x, y) implies #[trigger] img@.at(x, y) == fill by {
                lemma_index(width as int, height as int, x, y);
            }
        }
        img
    }

    /// An image over the given pixels, or `None` when their number is not
    /// `width * height`.
    pub fn from_pixels(width: u32, height: u32, pixels: Vec<Rgba>) -> (r: Option<Image>)
        ensures
            r is Some <==> pixels@.len() == width * height,
            r matches Some(img) ==> img.wf() && img@ == (ImageView {
                width: width as nat,
                height: height as nat,
                pixels: pixels@,
            }),
    {
        let len = pixels.len();
        match (width as usize).checked_mul(height as usize) {
            Some(n) => {
                if n == len {
                    Some(Image { width, height, pixels })
                } else {
                    None
                }
            },
            None => {
                assert(pixels@.len() != width * height);
                None
            },
        }
    }

    pub fn width(&self) -> (w: u32)
        ensures
            w == self@.width,
    {
        self.width
    }

    pub fn height(&self) -> (h: u32)
        ensures
            h == self@.height,
    {
        self.height
    }

    /// All pixels in row-major order.
    pub fn pixels(&self) -> (p: &Vec<Rgba>)
        ensures
            p@ == self@.pixels,
    {
        &self.pixels
    }

    pub fn get_pixel(&self, x: u32, y: u32) -> (c: Rgba)
        requires
            self.wf(),
            self@.inside(x as int, y as int),
        ensures
            c == self@.at(x as int, y as int),
    {
        proof {
            lemma_index(self.width as int, self.height as int, x as int, y as int);
            assert(0 <= y * self.width <= y * self.width + x) by (nonlinear_arith)
                requires
                    0 <= y,
                    0 <= x,
                    0 <= self.width,
            ;
        }
        self.pixels[y as usize * self.width as usize + x as usize]
    }

    pub fn put_pixel(&mut self, x: u32, y: u32, c: Rgba)
        requires
            old(self).wf(),
            old(self)@.inside(x as int, y as int),
        ensures
            final(self).wf(),
            final(self)@.same_size(old(self)@),
            final(self)@ == paint(old(self)@, |px: int, py: int| px == x && py == y, c),
    {
        proof {
            lemma_index(self.width as int, self.height as int, x as int, y as int);
            assert(0 <= y * self.width <= y * self.width + x) by (nonlinear_arith)
                requires
                    0 <= y,
                    0 <= x,
                    0 <= self.width,
            ;
        }
        let i: usize = y as usize * self.width as usize + x as usize;
        self.pixels.set(i, c);
        proof {
            let target = paint(old(self)@, |px: int, py: int| px == x && py == y, c);
            assert forall|px: int, py: int| self@.inside(px, py) implies #[trigger] self@.at(px, py)
                == target.at(px, py) by {
                lemma_index(self.width as int, self.height as int, px, py);
                lemma_paint_at(old(self)@, |px: int, py: int| px == x && py == y, c, px, py);
                if px != x || py != y {
                    if py == y {
                    } else {
                        assert(py * self.width + px != y * self.width + x) by {
                            lemma_index(self.width as int, self.height as int, px, py);
                        }
                    }
                }
            }
            lemma_paint_at(old(self)@, |px: int, py: int| px == x && py == y, c, 0, 0);
            lemma_image_ext(self@, target);
        }
    }

    /// Paints the half-open box `[x0, x1) × [y0, y1)` with `c`, clipped to
    /// the image.
    pub fn fill_rect(&mut self, x0: i128, y0: i128, x1: i128, y1: i128, c: Rgba)
        requires
            old(self).wf(),
        ensures
            final(self).wf(),
            final(self)@ == fill_box(old(self)@, x0 as int, y0 as int, x1 as int, y1 as int, c),
    {
        let w = self.width as i128;
        let h = self.height as i128;
        let cx0: i128 = if x0 < 0 { 0 } else { x0 };
        let cy0: i128 = if y0 < 0 { 0 } else { y0 };
        let cx1: i128 = if x1 > w { w } else { x1 };
        let cy1: i128 = if y1 > h { h } else { y1 };
        let ghost start = self@;
        let mut y: i128 = cy0;
        while y < cy1
            invariant
                self.wf(),
                self@.same_size(start),
                start.width == w,
                start.height == h,
                cy0 <= y,
                y <= cy1 || y == cy0,
                0 <= cx0,
                0 <= cy0,
                cx1 <= w,
                cy1 <= h,
                cx0 == (if x0 < 0 { 0 } else { x0 }),
                cx1 == (if x1 > w { w } else { x1 }),
                forall|px: int, py: int|
                    start.inside(px, py) ==> #[trigger] self@.at(px, py) == (if cx0 <= px < cx1
                        && cy0 <= py < y {
                        c
                    } else {
                        start.at(px, py)
                    }),
            decreases cy1 - y,
        {
            let mut x: i128 = cx0;
            while x < cx1
                invariant
                    self.wf(),
                    self@.same_size(start),
                    start.width == w,
                    start.height == h,
                    cy0 <= y < cy1,
                    cx0 <= x,
                    x <= cx1 || x == cx0,
                    0 <= cx0,
                    0 <= cy0,
                    cx1 <= w,
                    cy1 <= h,
                    forall|px: int, py: int|
                        start.inside(px, py) ==> #[trigger] self@.at(px, py) == (if (cx0 <= px
                            < cx1 && cy0 <= py < y) || (cx0 <= px < x && py == y) {
                            c
                        } else {
                            start.at(px, py)
                        }),
                decreases cx1 - x,
            {
                let ghost before = self@;
                self.put_pixel(x as u32, y as u32, c);
                proof {
                    assert forall|px: int, py: int| start.inside(px, py) implies #[trigger] self@.at(
                        px,
                        py,
                    ) == (if (cx0 <= px < cx1 && cy0 <= py < y) || (cx0 <= px < x + 1 && py
                        == y) {
                        c
                    } else {
                        start.at(px, py)
                    }) by {
                        lemma_paint_at(before, |qx: int, qy: int| qx == x && qy == y, c, px, py);
                    }
                }
                x = x + 1;
            }
            y = y + 1;
        }
        proof {
            let target = fill_box(start, x0 as int, y0 as int, x1 as int, y1 as int, c);
            assert forall|px: int, py: int| self@.inside(px, py) implies #[trigger] self@.at(px, py)
                == target.at(px, py) by {
                lemma_paint_at(
                    start,
                    |qx: int, qy: int| x0 <= qx < x1 && y0 <= qy < y1,
                    c,
                    px,
                    py,
                );
            }
            lemma_image_ext(self@, target);
        }
    }

    /// The sub-image `[x0, x1) × [y0, y1)`.
    pub fn crop_region(&self, x0: u32, y0: u32, x1: u32, y1: u32) -> (r: Image)
        requires
            self.wf(),
            x0 < x1 <= self@.width,
            y0 < y1 <= self@.height,
        ensures
            r.wf(),
            r@ == cropped(self@, x0 as int, y0 as int, x1 as int, y1 as int),
    {
        let ow = x1 - x0;
        let oh = y1 - y0;
        assert(ow * oh <= self@.width * self@.height) by (nonlinear_arith)
            requires
                0 < ow <= self@.width,
                0 < oh <= self@.height,
        ;
        let n: usize = ow as usize * oh as usize;
        let mut out: Vec<Rgba> = Vec::with_capacity(n);
        let mut i: usize = 0;
        while i < n
            invariant
                self.wf(),
                x0 < x1 <= self@.width,
                y0 < y1 <= self@.height,
                ow == x1 - x0,
                oh == y1 - y0,
                n == ow * oh,
                i <= n,
                out@ =~= cropped(self@, x0 as int, y0 as int, x1 as int, y1 as int).pixels.take(i as int),
            decreases n - i,
        {
            proof {
                lemma_position(ow as int, oh as int, i as int);
            }
            let x = (i % (ow as usize)) as u32;
            let y = (i / (ow as usize)) as u32;
            let p = self.get_pixel(x0 + x, y0 + y);
            out.push(p);
            i = i + 1;
        }
        assert(out@ =~= cropped(self@, x0 as int, y0 as int, x1 as int, y1 as int).pixels);
        Image { width: ow, height: oh, pixels: out }
    }

    /// A copy of the image.
    pub fn duplicate(&self) -> (r: Image)
        requires
            self.wf(),
        ensures
            r.wf(),
            r@ == self@,
    {
        let pixels = self.pixels.clone();
        assert(pixels@ =~= self.pixels@);
        Image { width: self.width, height: self.height, pixels }
    }
}

} // verus!
