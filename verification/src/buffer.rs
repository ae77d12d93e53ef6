use vstd::arithmetic::div_mod::{lemma_fundamental_div_mod, lemma_fundamental_div_mod_converse};
use vstd::prelude::*;

use crate::utils::Color;

verus! {

/// A raster of `width` by `height` pixels, stored row by row without padding.
/// Each pixel takes four bytes in the order blue, green, red, alpha.
pub struct Buffer {
    pub data: Vec<u8>,
    pub width: u32,
    pub height: u32,
}

/// Index of the first byte of pixel `(px, py)` in a raster `width` pixels wide.
pub open spec fn pixel_index(width: int, px: int, py: int) -> int {
    (py * width + px) * 4
}

/// A color channel of a source pixel laid over a destination pixel: the
/// average of the two weighted by the source's alpha, rounded to the nearest
/// integer.
pub open spec fn blend_channel(src: u8, dst: u8, alpha: u8) -> u8 {
    ((src * alpha + dst * (255 - alpha) + 127) / 255) as u8
}

/// The alpha of a destination pixel after a source pixel of alpha `alpha` was
/// laid over it: the larger of the two, so that compositing never makes a
/// pixel more transparent.
pub open spec fn blend_alpha(dst: u8, alpha: u8) -> u8 {
    if alpha > dst {
        alpha
    } else {
        dst
    }
}

/// Byte `i` of a raster `dw` pixels wide after a source raster of `sw` by `sh`
/// pixels was laid over it with its top left corner at `(x, y)`. Bytes of
/// pixels that the source does not cover keep their value; source pixels that
/// fall beside the destination are dropped.
pub open spec fn composite_byte(
    dst: Seq<u8>,
    dw: int,
    src: Seq<u8>,
    sw: int,
    sh: int,
    x: int,
    y: int,
    i: int,
) -> u8 {
    let c = i % 4;
    let px = (i / 4) % dw;
    let py = (i / 4) / dw;
    if dw > 0 && x <= px < x + sw && y <= py < y + sh {
        let j = pixel_index(sw, px - x, py - y);
        if c == 3 {
            blend_alpha(dst[i], src[j + 3])
        } else {
            blend_channel(src[j + c], dst[i], src[j + 3])
        }
    } else {
        dst[i]
    }
}

/// A raster `dw` pixels wide after a source raster was laid over it at `(x, y)`.
pub open spec fn composite(dst: Seq<u8>, dw: int, src: Seq<u8>, sw: int, sh: int, x: int, y: int) -> Seq<
    u8,
> {
    Seq::new(dst.len(), |i: int| composite_byte(dst, dw, src, sw, sh, x, y, i))
}

/// The bytes of `pixels` pixels that are all transparent black.
pub open spec fn blank(pixels: int) -> Seq<u8> {
    Seq::new((pixels * 4) as nat, |i: int| 0u8)
}

/// The bytes of `pixels` pixels that all hold `color`.
pub open spec fn solid(pixels: int, color: Color) -> Seq<u8> {
    Seq::new((pixels * 4) as nat, |i: int| color.channel(i % 4))
}

/// A pixel inside a raster lies inside its bytes.
pub proof fn lemma_pixel_in_bounds(w: int, h: int, px: int, py: int)
    requires
        0 <= px < w,
        0 <= py < h,
    ensures
        0 <= pixel_index(w, px, py),
        pixel_index(w, px, py) + 4 <= w * h * 4,
        0 <= py * w + px < w * h,
{
    assert(py * w >= 0) by (nonlinear_arith)
        requires
            py >= 0,
            w > 0,
    ;
    assert(py * w + w <= h * w) by (nonlinear_arith)
        requires
            py + 1 <= h,
            w > 0,
    ;
    assert(h * w == w * h) by (nonlinear_arith);
}

/// The pixel and channel of a byte are those from which its index was made.
pub proof fn lemma_pixel_of_index(w: int, px: int, py: int, c: int, i: int)
    requires
        0 <= px < w,
        0 <= py,
        0 <= c < 4,
        i == pixel_index(w, px, py) + c,
    ensures
        i % 4 == c,
        i / 4 == py * w + px,
        (i / 4) % w == px,
        (i / 4) / w == py,
{
    let p = py * w + px;
    lemma_fundamental_div_mod_converse(i, 4, p, c);
    lemma_fundamental_div_mod_converse(p, w, py, px);
}

/// Every byte of a raster belongs to one channel of one pixel inside it.
pub proof fn lemma_index_of_pixel(w: int, h: int, i: int)
    requires
        w > 0,
        0 <= i < w * h * 4,
    ensures
        0 <= i % 4 < 4,
        0 <= (i / 4) % w < w,
        0 <= (i / 4) / w < h,
        i == pixel_index(w, (i / 4) % w, (i / 4) / w) + i % 4,
{
    let p = i / 4;
    lemma_fundamental_div_mod(i, 4);
    lemma_fundamental_div_mod(p, w);
    assert(0 <= p < w * h);
    let py = p / w;
    let px = p % w;
    assert(p == w * py + px);
    assert(w * py == py * w) by (nonlinear_arith);
    assert(py >= 0) by (nonlinear_arith)
        requires
            w * py + px >= 0,
            px < w,
            w > 0,
    ;
    assert(py < h) by (nonlinear_arith)
        requires
            w * py + px < w * h,
            px >= 0,
            w > 0,
    ;
}

/// Lays one source channel over one destination channel.
pub fn blend_channel_exec(src: u8, dst: u8, alpha: u8) -> (r: u8)
    ensures
        r == blend_channel(src, dst, alpha),
{
    let a: u32 = alpha as u32;
    let s: u32 = src as u32;
    let d: u32 = dst as u32;
    assert(s * a + d * (255 - a) <= 65025) by (nonlinear_arith)
        requires
            0 <= s <= 255,
            0 <= d <= 255,
            0 <= a <= 255,
    ;
    assert(s * a >= 0 && d * (255 - a) >= 0) by (nonlinear_arith)
        requires
            0 <= s <= 255,
            0 <= d <= 255,
            0 <= a <= 255,
    ;
    let sum: u32 = s * a + d * (255 - a) + 127;
    let q: u32 = sum / 255;
    q as u8
}

/// The alpha that stays after a pixel of alpha `alpha` was laid over one of
/// alpha `dst`.
pub fn blend_alpha_exec(dst: u8, alpha: u8) -> (r: u8)
    ensures
        r == blend_alpha(dst, alpha),
{
    if alpha > dst {
        alpha
    } else {
        dst
    }
}

/// An opaque source replaces the destination.
pub proof fn lemma_blend_opaque(src: u8, dst: u8)
    ensures
        blend_channel(src, dst, 255) == src,
        blend_alpha(dst, 255) == 255,
{
    assert(src * 255 + dst * (255 - 255) + 127 == 255 * src + 127);
    lemma_fundamental_div_mod_converse(255 * src + 127, 255, src as int, 127);
}

/// A fully transparent source leaves the destination as it was.
pub proof fn lemma_blend_transparent(src: u8, dst: u8)
    ensures
        blend_channel(src, dst, 0) == dst,
        blend_alpha(dst, 0) == dst,
{
    assert(src * 0 + dst * (255 - 0) + 127 == 255 * dst + 127);
    lemma_fundamental_div_mod_converse(255 * dst + 127, 255, dst as int, 127);
}

/// Where an opaque pixel of a source lands, the destination takes the
/// source's pixel, whatever it held before.
pub proof fn lemma_opaque_pixel_replaces(
    dst: Seq<u8>,
    dw: int,
    src: Seq<u8>,
    sw: int,
    sh: int,
    x: int,
    y: int,
    px: int,
    py: int,
    c: int,
)
    requires
        0 <= x <= px < x + sw,
        0 <= y <= py < y + sh,
        px < dw,
        0 <= c < 4,
        pixel_index(dw, px, py) + c < dst.len(),
        src[pixel_index(sw, px - x, py - y) + 3] == 255,
    ensures
        composite(dst, dw, src, sw, sh, x, y)[pixel_index(dw, px, py) + c] == src[pixel_index(
            sw,
            px - x,
            py - y,
        ) + c],
{
    let i = pixel_index(dw, px, py) + c;
    let j = pixel_index(sw, px - x, py - y);
    lemma_pixel_of_index(dw, px, py, c, i);
    assert(py * dw >= 0) by (nonlinear_arith)
        requires
            py >= 0,
            dw > 0,
    ;
    lemma_blend_opaque(src[j + c], dst[i]);
}

/// An opaque raster of one color laid over any raster leaves exactly that
/// color wherever it lands.
pub proof fn lemma_opaque_color_replaces(
    dst: Seq<u8>,
    dw: int,
    color: Color,
    sw: int,
    sh: int,
    x: int,
    y: int,
    px: int,
    py: int,
    c: int,
)
    requires
        color.a == 255,
        0 <= x <= px < x + sw,
        0 <= y <= py < y + sh,
        px < dw,
        0 <= c < 4,
        pixel_index(dw, px, py) + c < dst.len(),
    ensures
        composite(dst, dw, solid(sw * sh, color), sw, sh, x, y)[pixel_index(dw, px, py) + c]
            == color.channel(c),
{
    let j = pixel_index(sw, px - x, py - y);
    lemma_pixel_in_bounds(sw, sh, px - x, py - y);
    lemma_pixel_of_index(sw, px - x, py - y, 3, j + 3);
    lemma_pixel_of_index(sw, px - x, py - y, c, j + c);
    lemma_opaque_pixel_replaces(dst, dw, solid(sw * sh, color), sw, sh, x, y, px, py, c);
}

/// A raster whose pixels are all fully transparent changes nothing in the
/// raster that it is laid over.
pub proof fn lemma_transparent_source_changes_nothing(
    dst: Seq<u8>,
    dw: int,
    dh: int,
    src: Seq<u8>,
    sw: int,
    sh: int,
    x: int,
    y: int,
)
    requires
        dst.len() == dw * dh * 4,
        0 <= x,
        0 <= y,
        forall|p: int| 0 <= p < sw * sh ==> #[trigger] src[p * 4 + 3] == 0,
    ensures
        composite(dst, dw, src, sw, sh, x, y) == dst,
{
    let out = composite(dst, dw, src, sw, sh, x, y);
    assert forall|i: int| 0 <= i < dst.len() implies out[i] == dst[i] by {
        if dw > 0 {
            assert(dh >= 0) by (nonlinear_arith)
                requires
                    dw * dh * 4 > 0,
                    dw > 0,
            ;
            lemma_index_of_pixel(dw, dh, i);
            let px = (i / 4) % dw;
            let py = (i / 4) / dw;
            if x <= px < x + sw && y <= py < y + sh {
                lemma_pixel_in_bounds(sw, sh, px - x, py - y);
                let p = (py - y) * sw + (px - x);
                assert(src[p * 4 + 3] == 0);
                lemma_blend_transparent(src[p * 4 + i % 4], dst[i]);
            }
        }
    }
    assert(out =~= dst);
}

/// Laying a raster over another never makes a pixel more transparent.
pub proof fn lemma_alpha_never_decreases(
    dst: Seq<u8>,
    dw: int,
    src: Seq<u8>,
    sw: int,
    sh: int,
    x: int,
    y: int,
    i: int,
)
    requires
        0 <= i < dst.len(),
        i % 4 == 3,
    ensures
        composite(dst, dw, src, sw, sh, x, y)[i] >= dst[i],
{
}

/// A pixel on which a source does not land keeps its value.
pub proof fn lemma_beside_source_unchanged(
    dst: Seq<u8>,
    dw: int,
    src: Seq<u8>,
    sw: int,
    sh: int,
    x: int,
    y: int,
    px: int,
    py: int,
    c: int,
)
    requires
        0 <= px < dw,
        0 <= py,
        0 <= c < 4,
        pixel_index(dw, px, py) + c < dst.len(),
        !(x <= px < x + sw && y <= py < y + sh),
    ensures
        composite(dst, dw, src, sw, sh, x, y)[pixel_index(dw, px, py) + c] == dst[pixel_index(dw, px, py)
            + c],
{
    lemma_pixel_of_index(dw, px, py, c, pixel_index(dw, px, py) + c);
    assert(py * dw >= 0) by (nonlinear_arith)
        requires
            py >= 0,
            dw > 0,
    ;
}

impl Buffer {
    /// The bytes hold exactly `width` times `height` pixels.
    pub open spec fn wf(&self) -> bool {
        self.data.len() == self.width * self.height * 4
    }

    /// Whether a raster of this size can be held in memory at all.
    pub open spec fn fits(width: u32, height: u32) -> bool {
        width * height * 4 <= usize::MAX
    }

    /// Channel `c` of the pixel at `(px, py)`.
    pub open spec fn channel(&self, px: int, py: int, c: int) -> u8 {
        self.data@[pixel_index(self.width as int, px, py) + c]
    }

    /// Whether the pixel at `(px, py)` holds `color`.
    pub open spec fn pixel_is(&self, px: int, py: int, color: Color) -> bool {
        forall|c: int| 0 <= c < 4 ==> self.channel(px, py, c) == color.channel(c)
    }

    /// Whether the pixel at `(px, py)` is transparent black.
    pub open spec fn pixel_is_blank(&self, px: int, py: int) -> bool {
        forall|c: int| 0 <= c < 4 ==> self.channel(px, py, c) == 0
    }

    /// The number of bytes of a raster of the given size, unless that number
    /// is beyond what the machine can address.
    pub fn byte_len(width: u32, height: u32) -> (n: Option<usize>)
        ensures
            n is Some <==> Self::fits(width, height),
            n matches Some(len) ==> len == width * height * 4,
    {
        let w: u64 = width as u64;
        let h: u64 = height as u64;
        assert(w * h <= 0xFFFF_FFFE_0000_0001) by (nonlinear_arith)
            requires
                0 <= w <= 0xFFFF_FFFF,
                0 <= h <= 0xFFFF_FFFF,
        ;
        let pixels: u64 = w * h;
        if pixels > (usize::MAX / 4) as u64 {
            None
        } else {
            Some((pixels * 4) as usize)
        }
    }

    /// A transparent raster.
    pub fn new(width: u32, height: u32) -> (b: Self)
        requires
            Self::fits(width, height),
        ensures
            b.wf(),
            b.width == width,
            b.height == height,
            b.data@ == blank(width * height),
    {
        let len = match Self::byte_len(width, height) {
            Some(len) => len,
            None => 0,
        };
        let data = vec![0u8; len];
        assert(data@ =~= blank(width * height));
        Buffer { data, width, height }
    }

    /// Overwrites every pixel with `color`, without blending.
    pub fn fill(&mut self, color: Color)
        requires
            old(self).wf(),
        ensures
            final(self).wf(),
            final(self).width == old(self).width,
            final(self).height == old(self).height,
            final(self).data@ == solid(old(self).width * old(self).height, color),
    {
        let len = self.data.len();
        let mut i: usize = 0;
        while i < len
            invariant
                self.wf(),
                self.width == old(self).width,
                self.height == old(self).height,
                len == self.data.len(),
                i <= len,
                i % 4 == 0,
                len % 4 == 0,
                forall|j: int| 0 <= j < i ==> self.data@[j] == color.channel(j % 4),
            decreases len - i,
        {
            self.data.set(i, color.b);
            self.data.set(i + 1, color.g);
            self.data.set(i + 2, color.r);
            self.data.set(i + 3, color.a);
            i = i + 4;
        }
        assert(self.data@ =~= solid(old(self).width * old(self).height, color));
    }

    /// Whether byte `i` belongs to a pixel that `blend` has already written
    /// when it stands at column `col` of row `row` of the part of the source
    /// that lands inside a destination `dw` pixels wide.
    pub open spec fn blended(dw: int, x: int, y: int, cols: int, row: int, col: int, i: int) -> bool {
        let px = (i / 4) % dw;
        let py = (i / 4) / dw;
        x <= px < x + cols && (y <= py < y + row || (py == y + row && px < x + col))
    }

    /// Lays `src` over this raster with its top left corner at `(x, y)`.
    ///
    /// Every color channel under the source becomes the average of source and
    /// destination weighted by the source pixel's alpha; the alpha channel
    /// becomes the larger of the two alphas. The part of the source that falls
    /// beside this raster is dropped, and so is a source without pixels.
    pub fn blend(&mut self, src: &Buffer, x: u32, y: u32)
        requires
            old(self).wf(),
            src.wf(),
        ensures
            final(self).wf(),
            final(self).width == old(self).width,
            final(self).height == old(self).height,
            final(self).data@ == composite(
                old(self).data@,
                old(self).width as int,
                src.data@,
                src.width as int,
                src.height as int,
                x as int,
                y as int,
            ),
    {
        let ghost before = self.data@;
        let ghost dw = self.width as int;
        let ghost dh = self.height as int;
        let ghost sw = src.width as int;
        let ghost sh = src.height as int;
        let ghost goal = composite(before, dw, src.data@, sw, sh, x as int, y as int);
        if x >= self.width || y >= self.height {
            assert forall|i: int| 0 <= i < before.len() implies #[trigger] goal[i] == before[i] by {
                if dw > 0 {
                    lemma_index_of_pixel(dw, dh, i);
                }
            }
            assert(self.data@ =~= goal);
            return ;
        }
        let cols: u32 = if src.width < self.width - x {
            src.width
        } else {
            self.width - x
        };
        let rows: u32 = if src.height < self.height - y {
            src.height
        } else {
            self.height - y
        };
        let width: usize = self.width as usize;
        let src_width: usize = src.width as usize;
        let mut row: u32 = 0;
        while row < rows
            invariant
                self.wf(),
                src.wf(),
                self.width == old(self).width,
                self.height == old(self).height,
                self.data@.len() == before.len(),
                dw == self.width,
                dh == self.height,
                sw == src.width,
                sh == src.height,
                width == dw,
                src_width == sw,
                x < dw,
                y < dh,
                cols <= sw,
                x + cols <= dw,
                rows <= sh,
                y + rows <= dh,
                row <= rows,
                forall|i: int|
                    0 <= i < before.len() ==> #[trigger] self.data@[i] == if Self::blended(
                        dw,
                        x as int,
                        y as int,
                        cols as int,
                        row as int,
                        0,
                        i,
                    ) {
                        composite_byte(before, dw, src.data@, sw, sh, x as int, y as int, i)
                    } else {
                        before[i]
                    },
            decreases rows - row,
        {
            let mut col: u32 = 0;
            while col < cols
                invariant
                    self.wf(),
                    src.wf(),
                    self.width == old(self).width,
                    self.height == old(self).height,
                    self.data@.len() == before.len(),
                    dw == self.width,
                    dh == self.height,
                    sw == src.width,
                    sh == src.height,
                    width == dw,
                    src_width == sw,
                    x < dw,
                    y < dh,
                    cols <= sw,
                    x + cols <= dw,
                    rows <= sh,
                    y + rows <= dh,
                    row < rows,
                    col <= cols,
                    forall|i: int|
                        0 <= i < before.len() ==> #[trigger] self.data@[i] == if Self::blended(
                            dw,
                            x as int,
                            y as int,
                            cols as int,
                            row as int,
                            col as int,
                            i,
                        ) {
                            composite_byte(before, dw, src.data@, sw, sh, x as int, y as int, i)
                        } else {
                            before[i]
                        },
                decreases cols - col,
            {
                proof {
                    lemma_pixel_in_bounds(sw, sh, col as int, row as int);
                    lemma_pixel_in_bounds(dw, dh, x + col, y + row);
                }
                let s: usize = (row as usize * src_width + col as usize) * 4;
                let d: usize = ((y as usize + row as usize) * width + (x as usize + col as usize)) * 4;
                let ghost mid = self.data@;
                proof {
                    lemma_pixel_of_index(dw, x + col, y + row, 0, d as int);
                    lemma_pixel_of_index(dw, x + col, y + row, 1, d + 1);
                    lemma_pixel_of_index(dw, x + col, y + row, 2, d + 2);
                    lemma_pixel_of_index(dw, x + col, y + row, 3, d + 3);
                    assert(mid[d as int] == before[d as int]);
                    assert(mid[d + 1] == before[d + 1]);
                    assert(mid[d + 2] == before[d + 2]);
                    assert(mid[d + 3] == before[d + 3]);
                }
                let alpha = src.data[s + 3];
                let b = blend_channel_exec(src.data[s], self.data[d], alpha);
                let g = blend_channel_exec(src.data[s + 1], self.data[d + 1], alpha);
                let r = blend_channel_exec(src.data[s + 2], self.data[d + 2], alpha);
                let a = blend_alpha_exec(self.data[d + 3], alpha);
                self.data.set(d, b);
                self.data.set(d + 1, g);
                self.data.set(d + 2, r);
                self.data.set(d + 3, a);
                proof {
                    assert forall|i: int| 0 <= i < before.len() implies #[trigger] self.data@[i]
                        == if Self::blended(
                        dw,
                        x as int,
                        y as int,
                        cols as int,
                        row as int,
                        col + 1,
                        i,
                    ) {
                        composite_byte(before, dw, src.data@, sw, sh, x as int, y as int, i)
                    } else {
                        before[i]
                    } by {
                        lemma_index_of_pixel(dw, dh, i);
                        let px = (i / 4) % dw;
                        let py = (i / 4) / dw;
                        if px == x + col && py == y + row {
                            assert(i == d + i % 4);
                        } else {
                            if d <= i < d + 4 {
                                lemma_pixel_of_index(dw, x + col, y + row, i - d, i);
                            }
                            assert(self.data@[i] == mid[i]);
                        }
                    }
                }
                col = col + 1;
            }
            proof {
                assert forall|i: int| 0 <= i < before.len() implies (Self::blended(
                    dw,
                    x as int,
                    y as int,
                    cols as int,
                    row as int,
                    cols as int,
                    i,
                ) <==> Self::blended(dw, x as int, y as int, cols as int, row + 1, 0, i)) by {}
            }
            row = row + 1;
        }
        proof {
            assert forall|i: int| 0 <= i < before.len() implies #[trigger] self.data@[i] == goal[i] by {
                lemma_index_of_pixel(dw, dh, i);
            }
            assert(self.data@ =~= goal);
        }
    }
}

} // verus!
