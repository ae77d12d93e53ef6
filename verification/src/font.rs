//! Text as a bitmap: the glyphs of a string, set side by side.

use std::sync::Arc;
use vstd::arithmetic::div_mod::lemma_fundamental_div_mod_converse;
use vstd::prelude::*;

use crate::buffer::blank;
use crate::utils::Color;

verus! {

/// The rasterizer's font, of which only `font_glyphs` says anything.
#[verifier::external_type_specification]
#[verifier::external_body]
pub struct ExFont(fontdue::Font);

/// One rasterized character: a coverage map of `width` by `height` pixels,
/// row by row from the top left, with 0 for an untouched pixel and 255 for a
/// covered one.
pub struct Glyph {
    pub width: usize,
    pub height: usize,
    /// Offset of the bitmap's bottom edge from the baseline.
    pub ymin: i32,
    /// How far the pen moves after this glyph, rounded up to whole pixels.
    pub advance: u32,
    pub coverage: Vec<u8>,
}

/// The pixels of a string in one color, `width` by `height` of them, four
/// bytes each in the order blue, green, red, alpha.
pub struct TextBitmap {
    pub buffer: Vec<u8>,
    pub width: usize,
    pub height: usize,
}

/// The font with which text is drawn.
pub struct FontManager {
    pub default_font: Arc<fontdue::Font>,
}

/// The glyph that a font draws for each character at each size in pixels.
pub uninterp spec fn font_glyphs(font: fontdue::Font) -> Map<(char, u16), Glyph>;

/// `Font::rasterize`: the glyph of `c` at `px` pixels per em, or that of the
/// font's fallback character where the font has none for `c`. The coverage
/// map holds one byte for each pixel of the glyph's bitmap. The advance is
/// rounded up to a whole number of pixels.
#[verifier::external_body]
fn rasterize(font: &fontdue::Font, c: char, px: u16) -> (g: Glyph)
    ensures
        g == font_glyphs(*font)[(c, px)],
        g.wf(),
{
    let (metrics, coverage) = font.rasterize(c, px.into());
    Glyph {
        width: metrics.width,
        height: metrics.height,
        ymin: metrics.ymin,
        advance: metrics.advance_width.ceil() as u32,
        coverage,
    }
}

/// A bitmap after one pixel of a glyph was written at byte `idx`: the color
/// with the glyph's coverage as its alpha. A pixel that does not lie wholly
/// inside the bitmap is dropped.
pub open spec fn stamp_pixel(buf: Seq<u8>, idx: int, color: Color, alpha: u8) -> Seq<u8> {
    if 0 <= idx && idx + 3 < buf.len() {
        buf.update(idx, color.b).update(idx + 1, color.g).update(idx + 2, color.r).update(idx + 3, alpha)
    } else {
        buf
    }
}

/// A bitmap `stride` pixels wide after the first `n` pixels of a glyph, taken
/// row by row, were written with the pen at column `pen`. The glyph's top row
/// goes to the row whose number is the distance of the glyph's bottom edge
/// from the baseline.
pub open spec fn stamp_glyph(buf: Seq<u8>, g: Glyph, stride: int, pen: int, color: Color, n: nat) -> Seq<
    u8,
>
    decreases n,
{
    if n == 0 {
        buf
    } else {
        let k = n - 1;
        let x = k % (g.width as int);
        let y = k / (g.width as int);
        stamp_pixel(
            stamp_glyph(buf, g, stride, pen, color, k as nat),
            ((y + g.drop()) * stride + pen + x) * 4,
            color,
            g.coverage@[k],
        )
    }
}

/// How far the pen has moved after the first `n` glyphs.
pub open spec fn run_width(glyphs: Seq<Glyph>, n: nat) -> nat
    decreases n,
{
    if n == 0 {
        0
    } else {
        run_width(glyphs, (n - 1) as nat) + glyphs[n - 1].advance as nat
    }
}

/// The number of rows that the first `n` glyphs need.
pub open spec fn run_height(glyphs: Seq<Glyph>, n: nat) -> nat
    decreases n,
{
    if n == 0 {
        0
    } else {
        let rest = run_height(glyphs, (n - 1) as nat);
        let rows = glyphs[n - 1].rows();
        if rows > rest {
            rows
        } else {
            rest
        }
    }
}

/// A bitmap `stride` pixels wide after the first `n` glyphs were written from
/// left to right, each where the one before it left the pen. A later glyph
/// overwrites an earlier one where they overlap.
pub open spec fn stamp_run(buf: Seq<u8>, glyphs: Seq<Glyph>, stride: int, color: Color, n: nat) -> Seq<u8>
    decreases n,
{
    if n == 0 {
        buf
    } else {
        let g = glyphs[n - 1];
        stamp_glyph(
            stamp_run(buf, glyphs, stride, color, (n - 1) as nat),
            g,
            stride,
            run_width(glyphs, (n - 1) as nat) as int,
            color,
            (g.width * g.height) as nat,
        )
    }
}

/// Whether the bitmap of a run of glyphs can be held in memory.
pub open spec fn run_fits(glyphs: Seq<Glyph>) -> bool {
    let w = run_width(glyphs, glyphs.len());
    let h = run_height(glyphs, glyphs.len());
    w <= usize::MAX && h <= usize::MAX && w * h * 4 <= usize::MAX
}

/// The bytes of the bitmap of a run of glyphs in one color.
pub open spec fn run_pixels(glyphs: Seq<Glyph>, color: Color) -> Seq<u8> {
    let w = run_width(glyphs, glyphs.len());
    let h = run_height(glyphs, glyphs.len());
    stamp_run(blank((w * h) as int), glyphs, w as int, color, glyphs.len())
}

/// The glyphs that `font` draws for the characters of `text` at `size`.
pub open spec fn glyph_run(font: fontdue::Font, text: Seq<char>, size: u16) -> Seq<Glyph> {
    Seq::new(text.len(), |i: int| font_glyphs(font)[(text[i], size)])
}

/// No glyph of a run needs more rows than the run.
pub proof fn lemma_rows_within_run(glyphs: Seq<Glyph>, n: nat, i: int)
    requires
        0 <= i < n,
    ensures
        glyphs[i].rows() <= run_height(glyphs, n),
    decreases n,
{
    if i < n - 1 {
        lemma_rows_within_run(glyphs, (n - 1) as nat, i);
    }
}

/// The pen never moves back, and the rows never get fewer.
pub proof fn lemma_run_grows(glyphs: Seq<Glyph>, m: nat, n: nat)
    requires
        m <= n,
    ensures
        run_width(glyphs, m) <= run_width(glyphs, n),
        run_height(glyphs, m) <= run_height(glyphs, n),
    decreases n,
{
    if m < n {
        lemma_run_grows(glyphs, m, (n - 1) as nat);
    }
}

/// Stamping keeps the size of the bitmap.
pub proof fn lemma_stamp_glyph_len(buf: Seq<u8>, g: Glyph, stride: int, pen: int, color: Color, n: nat)
    ensures
        stamp_glyph(buf, g, stride, pen, color, n).len() == buf.len(),
    decreases n,
{
    if n > 0 {
        lemma_stamp_glyph_len(buf, g, stride, pen, color, (n - 1) as nat);
    }
}

impl Glyph {
    /// The coverage map has one byte for each pixel.
    pub open spec fn wf(&self) -> bool {
        self.coverage.len() == self.width * self.height
    }

    /// The distance of the bitmap's bottom edge from the baseline, which is
    /// the row at which the glyph's top row is put.
    pub open spec fn drop(&self) -> nat {
        if self.ymin < 0 {
            (-self.ymin) as nat
        } else {
            self.ymin as nat
        }
    }

    /// The number of rows that the glyph needs: its own and those above it.
    pub open spec fn rows(&self) -> nat {
        self.height as nat + self.drop()
    }

    /// The row at which the glyph's top row is put.
    pub fn top(&self) -> (r: u32)
        ensures
            r == self.drop(),
    {
        if self.ymin < 0 {
            let below: i64 = -(self.ymin as i64);
            below as u32
        } else {
            self.ymin as u32
        }
    }
}

impl TextBitmap {
    /// The bytes hold exactly `width` times `height` pixels.
    pub open spec fn wf(&self) -> bool {
        self.buffer.len() == self.width * self.height * 4
    }

    /// Whether this is the bitmap of `glyphs` in `color`.
    pub open spec fn shows(&self, glyphs: Seq<Glyph>, color: Color) -> bool {
        &&& self.width == run_width(glyphs, glyphs.len())
        &&& self.height == run_height(glyphs, glyphs.len())
        &&& self.buffer@ == run_pixels(glyphs, color)
    }
}

/// The byte at which the pixel in column `pen + x` of the row that starts at
/// pixel `row_start` begins, if the whole pixel lies inside `len` bytes.
fn pixel_slot(row_start: usize, pen: usize, x: usize, len: usize) -> (r: Option<usize>)
    ensures
        r == if (row_start + pen + x) * 4 + 3 < len {
            Some(((row_start + pen + x) * 4) as usize)
        } else {
            None
        },
{
    let column = match pen.checked_add(x) {
        Some(c) => c,
        None => return None,
    };
    let pixel = match row_start.checked_add(column) {
        Some(p) => p,
        None => return None,
    };
    let first = match pixel.checked_mul(4) {
        Some(i) => i,
        None => return None,
    };
    match first.checked_add(3) {
        Some(last) => if last < len {
            Some(first)
        } else {
            None
        },
        None => None,
    }
}

/// The size of the bitmap of a run of glyphs, unless the bitmap cannot be
/// held in memory.
fn measure(glyphs: &Vec<Glyph>) -> (r: Option<(usize, usize)>)
    ensures
        r is Some <==> run_fits(glyphs@),
        r matches Some((w, h)) ==> w == run_width(glyphs@, glyphs@.len()) && h == run_height(
            glyphs@,
            glyphs@.len(),
        ),
{
    let n = glyphs.len();
    let mut width: usize = 0;
    let mut height: usize = 0;
    let mut i: usize = 0;
    while i < n
        invariant
            n == glyphs.len(),
            i <= n,
            width == run_width(glyphs@, i as nat),
            height == run_height(glyphs@, i as nat),
        decreases n - i,
    {
        let g = &glyphs[i];
        proof {
            lemma_run_grows(glyphs@, (i + 1) as nat, n as nat);
        }
        width = match width.checked_add(g.advance as usize) {
            Some(w) => w,
            None => return None,
        };
        let rows = match g.height.checked_add(g.top() as usize) {
            Some(r) => r,
            None => return None,
        };
        if rows > height {
            height = rows;
        }
        i = i + 1;
    }
    let pixels = match width.checked_mul(height) {
        Some(p) => p,
        None => {
            assert(width * height * 4 >= width * height) by (nonlinear_arith)
                requires
                    width * height >= 0,
            ;
            return None;
        },
    };
    match pixels.checked_mul(4) {
        Some(_) => Some((width, height)),
        None => None,
    }
}

/// Writes one glyph into a bitmap `stride` pixels wide with the pen at column
/// `pen`.
fn stamp(buffer: &mut Vec<u8>, g: &Glyph, stride: usize, rows: usize, pen: usize, color: Color)
    requires
        g.wf(),
        g.rows() <= rows,
        old(buffer).len() == stride * rows * 4,
    ensures
        final(buffer)@ == stamp_glyph(
            old(buffer)@,
            *g,
            stride as int,
            pen as int,
            color,
            (g.width * g.height) as nat,
        ),
{
    let ghost before = buffer@;
    let len = buffer.len();
    let top = g.top() as usize;
    let mut y: usize = 0;
    while y < g.height
        invariant
            g.wf(),
            g.rows() <= rows,
            len == stride * rows * 4,
            buffer.len() == len,
            top == g.drop(),
            y <= g.height,
            buffer@ == stamp_glyph(before, *g, stride as int, pen as int, color, (y * g.width) as nat),
        decreases g.height - y,
    {
        proof {
            assert((y + top) * stride <= rows * stride) by (nonlinear_arith)
                requires
                    y + top <= rows,
                    stride >= 0,
            ;
            assert(rows * stride == stride * rows) by (nonlinear_arith);
            assert(stride * rows * 4 >= stride * rows) by (nonlinear_arith)
                requires
                    stride * rows >= 0,
            ;
        }
        let row_start: usize = (y + top) * stride;
        let mut x: usize = 0;
        while x < g.width
            invariant
                g.wf(),
                buffer.len() == len,
                top == g.drop(),
                y < g.height,
                x <= g.width,
                row_start == (y + top) * stride,
                buffer@ == stamp_glyph(before, *g, stride as int, pen as int, color, (y * g.width + x) as nat),
            decreases g.width - x,
        {
            proof {
                assert(y * g.width + x < g.width * g.height) by (nonlinear_arith)
                    requires
                        y < g.height,
                        x < g.width,
                        y >= 0,
                        x >= 0,
                ;
                assert(y * g.width >= 0) by (nonlinear_arith)
                    requires
                        y >= 0,
                        g.width >= 0,
                ;
                lemma_fundamental_div_mod_converse(y * g.width + x, g.width as int, y as int, x as int);
                lemma_stamp_glyph_len(before, *g, stride as int, pen as int, color, (y * g.width + x) as nat);
            }
            let k: usize = y * g.width + x;
            let alpha = g.coverage[k];
            match pixel_slot(row_start, pen, x, len) {
                Some(idx) => {
                    buffer.set(idx, color.b);
                    buffer.set(idx + 1, color.g);
                    buffer.set(idx + 2, color.r);
                    buffer.set(idx + 3, alpha);
                },
                None => {},
            }
            assert(buffer@ =~= stamp_glyph(
                before,
                *g,
                stride as int,
                pen as int,
                color,
                (y * g.width + x + 1) as nat,
            ));
            x = x + 1;
        }
        proof {
            assert(y * g.width + g.width == (y + 1) * g.width) by (nonlinear_arith);
        }
        y = y + 1;
    }
    proof {
        assert(g.height * g.width == g.width * g.height) by (nonlinear_arith);
    }
}

/// Sets glyphs side by side into one bitmap in `color`.
///
/// The bitmap is as wide as the pen moves over all glyphs and has as many
/// rows as the glyph that reaches lowest. Gives `None` exactly when a bitmap
/// of that size cannot be held in memory.
pub fn compose(glyphs: &Vec<Glyph>, color: Color) -> (r: Option<TextBitmap>)
    requires
        forall|i: int| 0 <= i < glyphs.len() ==> (#[trigger] glyphs[i]).wf(),
    ensures
        r is Some <==> run_fits(glyphs@),
        r matches Some(bitmap) ==> bitmap.wf() && bitmap.shows(glyphs@, color),
{
    let (width, height) = match measure(glyphs) {
        Some(size) => size,
        None => return None,
    };
    let mut buffer = vec![0u8; width * height * 4];
    assert(buffer@ =~= blank(width * height));
    let n = glyphs.len();
    let mut pen: usize = 0;
    let mut i: usize = 0;
    while i < n
        invariant
            n == glyphs.len(),
            i <= n,
            forall|j: int| 0 <= j < glyphs.len() ==> (#[trigger] glyphs[j]).wf(),
            width == run_width(glyphs@, n as nat),
            height == run_height(glyphs@, n as nat),
            buffer.len() == width * height * 4,
            pen == run_width(glyphs@, i as nat),
            buffer@ == stamp_run(blank(width * height), glyphs@, width as int, color, i as nat),
        decreases n - i,
    {
        let g = &glyphs[i];
        proof {
            lemma_rows_within_run(glyphs@, n as nat, i as int);
            lemma_run_grows(glyphs@, (i + 1) as nat, n as nat);
        }
        stamp(&mut buffer, g, width, height, pen, color);
        proof {
            lemma_stamp_glyph_len(
                stamp_run(blank(width * height), glyphs@, width as int, color, i as nat),
                *g,
                width as int,
                pen as int,
                color,
                (g.width * g.height) as nat,
            );
        }
        pen = pen + g.advance as usize;
        i = i + 1;
    }
    Some(TextBitmap { buffer, width, height })
}

impl FontManager {
    /// A manager that draws with `font`.
    pub fn new(font: fontdue::Font) -> (manager: Self)
        ensures
            *manager.default_font == font,
    {
        FontManager { default_font: Arc::new(font) }
    }

    /// The glyphs of `text` at `size` pixels per em, one for each character.
    pub fn glyphs(&self, text: &str, size: u16) -> (r: Vec<Glyph>)
        ensures
            r@ == glyph_run(*self.default_font, text@, size),
            forall|i: int| 0 <= i < r.len() ==> (#[trigger] r[i]).wf(),
    {
        let mut glyphs: Vec<Glyph> = Vec::new();
        for c in it: text.chars()
            invariant
                it.seq() == text@,
                glyphs.len() == it.index(),
                forall|j: int|
                    0 <= j < it.index() ==> #[trigger] glyphs[j] == font_glyphs(*self.default_font)[(
                        text@[j],
                        size,
                    )],
                forall|j: int| 0 <= j < it.index() ==> (#[trigger] glyphs[j]).wf(),
        {
            let g = rasterize(&self.default_font, c, size);
            glyphs.push(g);
        }
        assert(glyphs@ =~= glyph_run(*self.default_font, text@, size));
        glyphs
    }

    /// The bitmap of `text` at `size` pixels per em in `color`, unless it is
    /// too large to be held in memory.
    pub fn render_text(&self, text: &str, size: u16, color: Color) -> (r: Option<TextBitmap>)
        ensures
            r is Some <==> run_fits(glyph_run(*self.default_font, text@, size)),
            r matches Some(bitmap) ==> bitmap.wf() && bitmap.shows(
                glyph_run(*self.default_font, text@, size),
                color,
            ),
    {
        let glyphs = self.glyphs(text, size);
        compose(&glyphs, color)
    }
}

impl Clone for FontManager {
    /// Another handle to the same font.
    fn clone(&self) -> (r: Self)
        ensures
            r == *self,
    {
        FontManager { default_font: Arc::clone(&self.default_font) }
    }
}

} // verus!
