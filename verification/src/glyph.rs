//! The glyph atlas: a 2048 x 2048 RGBA8 texture into which rasterized glyphs
//! are copied, left to right in rows, with one pixel of padding.

use vstd::prelude::*;
use vstd::arithmetic::div_mod::lemma_fundamental_div_mod_converse;

verus! {

/// Width and height of the glyph atlas in pixels.
pub const GLYPH_ATLAS_SIZE: u32 = 2048;

/// Byte length of the glyph atlas.
pub open spec fn atlas_len() -> int {
    2048int * 2048 * 4
}

/// How a rasterized glyph stores its pixels.
#[derive(Debug, Clone, Copy, PartialEq, Eq, Structural)]
pub enum GlyphContent {
    /// One coverage byte per pixel.
    Mask,
    /// Four RGBA bytes per pixel (colour emoji).
    Color,
    /// Three subpixel coverage bytes per pixel.
    SubpixelMask,
}

/// Byte `j` of a glyph's data, or 0 past its end.
pub open spec fn byte_or_zero(data: Seq<u8>, j: int) -> u8 {
    if 0 <= j < data.len() {
        data[j]
    } else {
        0
    }
}

/// The alpha a subpixel mask pixel gets: the mean of its three coverages.
pub open spec fn spec_subpixel_mask_alpha(r: u8, g: u8, b: u8) -> u8 {
    ((r + g + b) / 3) as u8
}

/// Channel `c` of the atlas pixel written for glyph pixel `src`: white with
/// the coverage as alpha for masks, the glyph's own RGBA for colour glyphs.
pub open spec fn glyph_channel(kind: GlyphContent, data: Seq<u8>, src: int, c: int) -> u8 {
    match kind {
        GlyphContent::Mask => if c < 3 {
            255
        } else {
            byte_or_zero(data, src)
        },
        GlyphContent::Color => byte_or_zero(data, src * 4 + c),
        GlyphContent::SubpixelMask => if c < 3 {
            255
        } else {
            spec_subpixel_mask_alpha(
                byte_or_zero(data, src * 3),
                byte_or_zero(data, src * 3 + 1),
                byte_or_zero(data, src * 3 + 2),
            )
        },
    }
}

/// Atlas pixel `p` lies in the `w` x `h` glyph placed at `(cx, cy)`.
pub open spec fn in_glyph(p: int, cx: int, cy: int, w: int, h: int) -> bool {
    cx <= p % 2048 < cx + w && cy <= p / 2048 < cy + h
}

/// Index, in the glyph's own row-major order, of the glyph pixel that lands
/// on atlas pixel `p`.
pub open spec fn glyph_src(p: int, cx: int, cy: int, w: int) -> int {
    (p / 2048 - cy) * w + (p % 2048 - cx)
}

/// The atlas after copying a glyph in: the pixels under the glyph take its
/// pixels, all others keep theirs.
pub open spec fn written_atlas(
    old: Seq<u8>,
    cx: int,
    cy: int,
    w: int,
    h: int,
    kind: GlyphContent,
    data: Seq<u8>,
) -> Seq<u8> {
    Seq::new(
        old.len(),
        |i: int|
            if in_glyph(i / 4, cx, cy, w, h) {
                glyph_channel(kind, data, glyph_src(i / 4, cx, cy, w), i % 4)
            } else {
                old[i]
            },
    )
}

/// Where a glyph pixel comes from and where it goes.
#[derive(Debug, Clone, Copy, PartialEq, Eq, Structural)]
pub struct GlyphPixelPosition {
    /// Index of the pixel in the glyph's row-major data.
    pub src_idx: usize,
    /// Byte offset of its destination in the atlas.
    pub dst_idx: usize,
}

/// Byte offset of atlas pixel `(x, y)`.
pub fn glyph_atlas_pixel_offset(x: u32, y: u32) -> (r: usize)
    requires
        x < 2048,
        y < 2048,
    ensures
        r == (y * 2048 + x) * 4,
{
    ((y as usize) * 2048 + (x as usize)) * 4
}

/// Writes one RGBA pixel at byte offset `dst_idx`.
pub fn write_rgba_pixel(pixels: &mut Vec<u8>, dst_idx: usize, rgba: [u8; 4])
    requires
        dst_idx + 4 <= old(pixels)@.len(),
    ensures
        final(pixels)@ == old(pixels)@.update(dst_idx as int, rgba@[0]).update(
            dst_idx + 1,
            rgba@[1],
        ).update(dst_idx + 2, rgba@[2]).update(dst_idx + 3, rgba@[3]),
{
    let n = pixels.len();
    pixels.set(dst_idx, rgba[0]);
    pixels.set(dst_idx + 1, rgba[1]);
    pixels.set(dst_idx + 2, rgba[2]);
    pixels.set(dst_idx + 3, rgba[3]);
}

/// The alpha of a subpixel mask pixel: the mean of its three coverages.
pub fn subpixel_mask_alpha(r: u8, g: u8, b: u8) -> (a: u8)
    ensures
        a == spec_subpixel_mask_alpha(r, g, b),
{
    ((r as u16 + g as u16 + b as u16) / 3) as u8
}

proof fn lemma_pixel_coords(cx: int, cy: int, x: int, y: int)
    requires
        0 <= cx,
        0 <= x,
        cx + x < 2048,
        0 <= cy + y,
    ensures
        ((cy + y) * 2048 + cx + x) % 2048 == cx + x,
        ((cy + y) * 2048 + cx + x) / 2048 == cy + y,
{
    lemma_fundamental_div_mod_converse((cy + y) * 2048 + cx + x, 2048, cy + y, cx + x);
}

/// The positions of a `width` x `height` glyph placed at `(cursor_x,
/// cursor_y)`, in row-major order.
pub fn glyph_pixel_positions(cursor_x: u32, cursor_y: u32, width: u32, height: u32) -> (r: Vec<
    GlyphPixelPosition,
>)
    requires
        cursor_x + width <= 2048,
        cursor_y + height <= 2048,
    ensures
        r@.len() == width * height,
        forall|k: int|
            0 <= k < r@.len() ==> #[trigger] r@[k] == (GlyphPixelPosition {
                src_idx: k as usize,
                dst_idx: (((cursor_y + k / (width as int)) * 2048 + cursor_x + k % (width as int))
                    * 4) as usize,
            }),
{
    let mut out: Vec<GlyphPixelPosition> = Vec::new();
    let mut y: u32 = 0;
    while y < height
        invariant
            cursor_x + width <= 2048,
            cursor_y + height <= 2048,
            y <= height,
            out@.len() == y * width,
            forall|k: int|
                0 <= k < out@.len() ==> #[trigger] out@[k] == (GlyphPixelPosition {
                    src_idx: k as usize,
                    dst_idx: (((cursor_y + k / (width as int)) * 2048 + cursor_x + k % (
                    width as int)) * 4) as usize,
                }),
        decreases height - y,
    {
        let mut x: u32 = 0;
        while x < width
            invariant
                cursor_x + width <= 2048,
                cursor_y + height <= 2048,
                y < height,
                x <= width,
                out@.len() == y * width + x,
                forall|k: int|
                    0 <= k < out@.len() ==> #[trigger] out@[k] == (GlyphPixelPosition {
                        src_idx: k as usize,
                        dst_idx: (((cursor_y + k / (width as int)) * 2048 + cursor_x + k % (
                        width as int)) * 4) as usize,
                    }),
            decreases width - x,
        {
            let ghost k = y * width + x;
            proof {
                lemma_fundamental_div_mod_converse(k, width as int, y as int, x as int);
                assert(y * width + x < 2048 * 2048) by (nonlinear_arith)
                    requires
                        x < width,
                        y < height,
                        width <= 2048,
                        height <= 2048,
                ;
            }
            let src = (y as usize) * (width as usize) + (x as usize);
            let dst = glyph_atlas_pixel_offset(cursor_x + x, cursor_y + y);
            out.push(GlyphPixelPosition { src_idx: src, dst_idx: dst });
            x = x + 1;
        }
        proof {
            assert((y + 1) * width == y * width + width) by (nonlinear_arith);
        }
        y = y + 1;
    }
    out
}

fn data_byte(data: &[u8], j: usize) -> (r: u8)
    ensures
        r == byte_or_zero(data@, j as int),
{
    if j < data.len() {
        data[j]
    } else {
        0
    }
}

/// The atlas pixel written for glyph pixel `src`.
fn glyph_rgba(kind: GlyphContent, data: &[u8], src: usize) -> (r: [u8; 4])
    requires
        src < 2048 * 2048,
    ensures
        forall|c: int| 0 <= c < 4 ==> #[trigger] r@[c] == glyph_channel(kind, data@, src as int, c),
{
    match kind {
        GlyphContent::Mask => [255, 255, 255, data_byte(data, src)],
        GlyphContent::Color => {
            let j = src * 4;
            [data_byte(data, j), data_byte(data, j + 1), data_byte(data, j + 2), data_byte(data, j + 3)]
        },
        GlyphContent::SubpixelMask => {
            let j = src * 3;
            let a = subpixel_mask_alpha(data_byte(data, j), data_byte(data, j + 1), data_byte(data, j + 2));
            [255, 255, 255, a]
        },
    }
}

/// Copies a `width` x `height` glyph of the given kind into the atlas at
/// `(cursor_x, cursor_y)`.
fn write_glyph_with(
    pixels: &mut Vec<u8>,
    cursor_x: u32,
    cursor_y: u32,
    width: u32,
    height: u32,
    data: &[u8],
    kind: GlyphContent,
)
    requires
        old(pixels)@.len() == atlas_len(),
        cursor_x + width <= 2048,
        cursor_y + height <= 2048,
    ensures
        final(pixels)@ == written_atlas(
            old(pixels)@,
            cursor_x as int,
            cursor_y as int,
            width as int,
            height as int,
            kind,
            data@,
        ),
{
    let positions = glyph_pixel_positions(cursor_x, cursor_y, width, height);
    let ghost old_px = pixels@;
    let ghost cx = cursor_x as int;
    let ghost cy = cursor_y as int;
    let ghost w = width as int;
    let ghost h = height as int;
    proof {
        assert(w * h <= 2048 * 2048) by (nonlinear_arith)
            requires
                w <= 2048,
                h <= 2048,
                0 <= w,
                0 <= h,
        ;
    }
    let mut k: usize = 0;
    while k < positions.len()
        invariant
            cx == cursor_x,
            cy == cursor_y,
            w == width,
            h == height,
            cursor_x + width <= 2048,
            cursor_y + height <= 2048,
            positions@.len() == w * h,
            w * h <= 2048 * 2048,
            forall|q: int|
                0 <= q < positions@.len() ==> #[trigger] positions@[q] == (GlyphPixelPosition {
                    src_idx: q as usize,
                    dst_idx: (((cy + q / w) * 2048 + cx + q % w) * 4) as usize,
                }),
            old_px.len() == atlas_len(),
            pixels@.len() == atlas_len(),
            k <= positions@.len(),
            forall|i: int|
                0 <= i < pixels@.len() ==> #[trigger] pixels@[i] == (if in_glyph(i / 4, cx, cy, w, h)
                    && glyph_src(i / 4, cx, cy, w) < k {
                    glyph_channel(kind, data@, glyph_src(i / 4, cx, cy, w), i % 4)
                } else {
                    old_px[i]
                }),
        decreases positions@.len() - k,
    {
        let pos = positions[k];
        let ghost qy = (k as int) / w;
        let ghost qx = (k as int) % w;
        proof {
            assert(w > 0) by (nonlinear_arith)
                requires
                    k < w * h,
                    0 <= w,
                    0 <= h,
            ;
            vstd::arithmetic::div_mod::lemma_fundamental_div_mod(k as int, w);
            assert(0 <= qx < w);
            assert(0 <= qy < h) by (nonlinear_arith)
                requires
                    k < w * h,
                    k == w * qy + qx,
                    0 <= qx < w,
                    0 <= k,
            ;
            lemma_pixel_coords(cx, cy, qx, qy);
        }
        let rgba = glyph_rgba(kind, data, pos.src_idx);
        let ghost before = pixels@;
        let ghost p = (cy + qy) * 2048 + cx + qx;
        assert(pos.dst_idx == p * 4);
        assert(p < 2048 * 2048) by (nonlinear_arith)
            requires
                p == (cy + qy) * 2048 + cx + qx,
                cy + qy < 2048,
                cx + qx < 2048,
        ;
        write_rgba_pixel(pixels, pos.dst_idx, rgba);
        proof {
            assert(glyph_src(p, cx, cy, w) == k) by {
                assert(k == w * qy + qx);
                assert(qy * w == w * qy) by (nonlinear_arith);
            }
            assert forall|i: int| 0 <= i < pixels@.len() implies #[trigger] pixels@[i] == (if in_glyph(
                i / 4,
                cx,
                cy,
                w,
                h,
            ) && glyph_src(i / 4, cx, cy, w) < k + 1 {
                glyph_channel(kind, data@, glyph_src(i / 4, cx, cy, w), i % 4)
            } else {
                old_px[i]
            }) by {
                let pi = i / 4;
                lemma_fundamental_div_mod_converse(i, 4, pi, i - pi * 4);
                if p * 4 <= i < p * 4 + 4 {
                    lemma_fundamental_div_mod_converse(i, 4, p, i - p * 4);
                    assert(pi == p);
                } else {
                    assert(pi != p);
                    assert(pixels@[i] == before[i]);
                    if in_glyph(pi, cx, cy, w, h) && glyph_src(pi, cx, cy, w) == k {
                        let ry = pi / 2048 - cy;
                        let rx = pi % 2048 - cx;
                        assert(k == ry * w + rx);
                        assert(ry * w == w * ry) by (nonlinear_arith);
                        lemma_fundamental_div_mod_converse(k as int, w, ry, rx);
                        vstd::arithmetic::div_mod::lemma_fundamental_div_mod(pi, 2048);
                        assert(false);
                    }
                }
            }
        }
        k = k + 1;
    }
    proof {
        assert forall|i: int| 0 <= i < pixels@.len() implies #[trigger] pixels@[i] == written_atlas(
            old_px,
            cx,
            cy,
            w,
            h,
            kind,
            data@,
        )[i] by {
            let pi = i / 4;
            if in_glyph(pi, cx, cy, w, h) {
                let ry = pi / 2048 - cy;
                let rx = pi % 2048 - cx;
                assert(ry * w + rx < w * h) by (nonlinear_arith)
                    requires
                        0 <= ry < h,
                        0 <= rx < w,
                ;
            }
        }
        assert(pixels@ == written_atlas(old_px, cx, cy, w, h, kind, data@));
    }
}

/// Copies an alpha-mask glyph into the atlas as white with the mask as alpha.
pub fn write_mask_glyph_pixels(
    pixels: &mut Vec<u8>,
    cursor_x: u32,
    cursor_y: u32,
    width: u32,
    height: u32,
    data: &[u8],
)
    requires
        old(pixels)@.len() == atlas_len(),
        cursor_x + width <= 2048,
        cursor_y + height <= 2048,
    ensures
        final(pixels)@ == written_atlas(
            old(pixels)@,
            cursor_x as int,
            cursor_y as int,
            width as int,
            height as int,
            GlyphContent::Mask,
            data@,
        ),
{
    write_glyph_with(pixels, cursor_x, cursor_y, width, height, data, GlyphContent::Mask);
}

/// Copies an RGBA colour glyph into the atlas.
pub fn write_color_glyph_pixels(
    pixels: &mut Vec<u8>,
    cursor_x: u32,
    cursor_y: u32,
    width: u32,
    height: u32,
    data: &[u8],
)
    requires
        old(pixels)@.len() == atlas_len(),
        cursor_x + width <= 2048,
        cursor_y + height <= 2048,
    ensures
        final(pixels)@ == written_atlas(
            old(pixels)@,
            cursor_x as int,
            cursor_y as int,
            width as int,
            height as int,
            GlyphContent::Color,
            data@,
        ),
{
    write_glyph_with(pixels, cursor_x, cursor_y, width, height, data, GlyphContent::Color);
}

/// Copies a subpixel-mask glyph into the atlas as white with the mean
/// coverage as alpha.
pub fn write_subpixel_glyph_pixels(
    pixels: &mut Vec<u8>,
    cursor_x: u32,
    cursor_y: u32,
    width: u32,
    height: u32,
    data: &[u8],
)
    requires
        old(pixels)@.len() == atlas_len(),
        cursor_x + width <= 2048,
        cursor_y + height <= 2048,
    ensures
        final(pixels)@ == written_atlas(
            old(pixels)@,
            cursor_x as int,
            cursor_y as int,
            width as int,
            height as int,
            GlyphContent::SubpixelMask,
            data@,
        ),
{
    write_glyph_with(pixels, cursor_x, cursor_y, width, height, data, GlyphContent::SubpixelMask);
}

/// Copies a glyph of any kind into the atlas.
pub fn write_glyph_pixels(
    pixels: &mut Vec<u8>,
    cursor_x: u32,
    cursor_y: u32,
    width: u32,
    height: u32,
    data: &[u8],
    content: GlyphContent,
)
    requires
        old(pixels)@.len() == atlas_len(),
        cursor_x + width <= 2048,
        cursor_y + height <= 2048,
    ensures
        final(pixels)@ == written_atlas(
            old(pixels)@,
            cursor_x as int,
            cursor_y as int,
            width as int,
            height as int,
            content,
            data@,
        ),
{
    match content {
        GlyphContent::Mask => write_mask_glyph_pixels(pixels, cursor_x, cursor_y, width, height, data),
        GlyphContent::Color => write_color_glyph_pixels(pixels, cursor_x, cursor_y, width, height, data),
        GlyphContent::SubpixelMask => write_subpixel_glyph_pixels(
            pixels,
            cursor_x,
            cursor_y,
            width,
            height,
            data,
        ),
    }
}

/// Where the next glyph goes: glyphs are placed left to right in rows, one
/// pixel apart, and a row is as tall as its tallest glyph.
#[derive(Debug, Clone, Copy, PartialEq, Eq, Structural)]
pub struct GlyphCursor {
    pub cursor_x: u32,
    pub cursor_y: u32,
    pub row_height: u32,
}

impl GlyphCursor {
    /// The cursor of an empty atlas.
    pub fn new() -> (r: Self)
        ensures
            r == (GlyphCursor { cursor_x: 0, cursor_y: 0, row_height: 0 }),
    {
        GlyphCursor { cursor_x: 0, cursor_y: 0, row_height: 0 }
    }

    /// Moves to the start of the next row, below the current one.
    pub fn start_next_glyph_row(&mut self)
        requires
            old(self).cursor_y + old(self).row_height + 1 <= u32::MAX,
        ensures
            *final(self) == (GlyphCursor {
                cursor_x: 0,
                cursor_y: (old(self).cursor_y + old(self).row_height + 1) as u32,
                row_height: 0,
            }),
    {
        self.cursor_x = 0;
        self.cursor_y = self.cursor_y + self.row_height + 1;
        self.row_height = 0;
    }

    /// Reserves room for a `width` x `height` glyph: a glyph that does not
    /// fit in the rest of the row starts a new row; `None` when the atlas has
    /// no rows left for it.
    pub fn reserve_glyph_slot(&mut self, width: u32, height: u32) -> (r: Option<(u32, u32)>)
        requires
            old(self).cursor_x + width + 1 <= u32::MAX,
            width + 1 <= u32::MAX,
            old(self).cursor_y + old(self).row_height + height + 1 <= u32::MAX,
        ensures
            (*final(self), r) == spec_reserve(*old(self), width, height),
            ({
                let wraps = old(self).cursor_x + width > 2048;
                let x0: int = if wraps {
                    0
                } else {
                    old(self).cursor_x as int
                };
                let y0: int = if wraps {
                    old(self).cursor_y + old(self).row_height + 1
                } else {
                    old(self).cursor_y as int
                };
                let h0: int = if wraps {
                    0
                } else {
                    old(self).row_height as int
                };
                if y0 + height > 2048 {
                    r is None && final(self).cursor_x == x0 && final(self).cursor_y == y0
                        && final(self).row_height == h0
                } else {
                    r == Some((x0 as u32, y0 as u32)) && final(self).cursor_x == x0 + width + 1
                        && final(self).cursor_y == y0 && final(self).row_height == (if h0 >= height {
                        h0
                    } else {
                        height as int
                    })
                }
            }),
    {
        if self.cursor_x + width > GLYPH_ATLAS_SIZE {
            self.start_next_glyph_row();
        }
        if self.cursor_y + height > GLYPH_ATLAS_SIZE {
            return None;
        }
        let slot = (self.cursor_x, self.cursor_y);
        self.cursor_x = self.cursor_x + width + 1;
        if height > self.row_height {
            self.row_height = height;
        }
        Some(slot)
    }
}

/// A granted slot lies inside the atlas: it ends above the atlas's bottom
/// edge, and (for a glyph no wider than the atlas) before its right edge;
/// the next glyph of the row starts one pixel after it.
pub proof fn lemma_reserved_slot_in_atlas(c: GlyphCursor, width: u32, height: u32, x: u32, y: u32, next: GlyphCursor)
    requires
        c.cursor_x + width + 1 <= u32::MAX,
        c.cursor_y + c.row_height + height + 1 <= u32::MAX,
        c.cursor_x <= 2049,
        ({
            let wraps = c.cursor_x + width > 2048;
            let x0: int = if wraps { 0 } else { c.cursor_x as int };
            let y0: int = if wraps { c.cursor_y + c.row_height + 1 } else { c.cursor_y as int };
            y0 + height <= 2048 && x == x0 && y == y0 && next.cursor_x == x0 + width + 1
        }),
    ensures
        y + height <= 2048,
        width <= 2048 ==> x + width <= 2048,
        next.cursor_x == x + width + 1,
{
}


/// The `w` x `h` rectangle at `(x, y)` lies behind cursor `c`: in a row
/// above the current one, or in the current row left of the cursor.
pub open spec fn slot_behind(c: GlyphCursor, x: int, y: int, w: int, h: int) -> bool {
    ||| y + h < c.cursor_y
    ||| y == c.cursor_y && h <= c.row_height && x + w < c.cursor_x
}

/// Two rectangles share no pixel.
pub open spec fn rects_disjoint(x1: int, y1: int, w1: int, h1: int, x2: int, y2: int, w2: int, h2: int) -> bool {
    x1 + w1 <= x2 || x2 + w2 <= x1 || y1 + h1 <= y2 || y2 + h2 <= y1
}

/// Reserving a glyph slot keeps every slot granted before it behind the
/// cursor, whether or not the new one is granted; a granted slot shares no
/// pixel with any of them and is behind the new cursor itself. So, from an
/// empty atlas on, no two granted slots ever overlap.
pub proof fn lemma_granted_slots_never_overlap(
    c: GlyphCursor,
    width: u32,
    height: u32,
    x: int,
    y: int,
    w: int,
    h: int,
)
    requires
        c.cursor_x + width + 1 <= u32::MAX,
        c.cursor_y + c.row_height + height + 1 <= u32::MAX,
        0 <= w,
        0 <= h,
        slot_behind(c, x, y, w, h),
    ensures
        ({
            let (next, r) = spec_reserve(c, width, height);
            &&& slot_behind(next, x, y, w, h)
            &&& r matches Some((nx, ny)) ==> slot_behind(
                next,
                nx as int,
                ny as int,
                width as int,
                height as int,
            ) && rects_disjoint(x, y, w, h, nx as int, ny as int, width as int, height as int)
        }),
{
}

/// The cursor after reserving room for a `width` x `height` glyph, and the
/// slot granted (see `GlyphCursor::reserve_glyph_slot`).
pub open spec fn spec_reserve(c: GlyphCursor, width: u32, height: u32) -> (GlyphCursor, Option<(u32, u32)>) {
    let wraps = c.cursor_x + width > 2048;
    let x0: int = if wraps {
        0
    } else {
        c.cursor_x as int
    };
    let y0: int = if wraps {
        c.cursor_y + c.row_height + 1
    } else {
        c.cursor_y as int
    };
    let h0: int = if wraps {
        0
    } else {
        c.row_height as int
    };
    if y0 + height > 2048 {
        (GlyphCursor { cursor_x: x0 as u32, cursor_y: y0 as u32, row_height: h0 as u32 }, None)
    } else {
        (
            GlyphCursor {
                cursor_x: (x0 + width + 1) as u32,
                cursor_y: y0 as u32,
                row_height: (if h0 >= height {
                    h0
                } else {
                    height as int
                }) as u32,
            },
            Some((x0 as u32, y0 as u32)),
        )
    }
}

/// No two shape-cache entries share a key.
pub open spec fn shape_keys_distinct(e: Seq<(u64, u64)>) -> bool {
    forall|i: int, j: int| 0 <= i < j < e.len() ==> e[i].0 != e[j].0
}

/// Index of the shape-cache entry with key `key`, searching from the back;
/// `-1` when there is none.
pub open spec fn shape_pos(e: Seq<(u64, u64)>, key: u64) -> int
    decreases e.len(),
{
    if e.len() == 0 {
        -1
    } else if e.last().0 == key {
        e.len() - 1
    } else {
        shape_pos(e.drop_last(), key)
    }
}

/// The shape-cache entries used within the last 120 generations before
/// `generation`, in order.
pub open spec fn kept_recent(e: Seq<(u64, u64)>, generation: u64) -> Seq<(u64, u64)>
    decreases e.len(),
{
    if e.len() == 0 {
        e
    } else {
        let kept = kept_recent(e.drop_last(), generation);
        if generation - e.last().1 < 120 {
            kept.push(e.last())
        } else {
            kept
        }
    }
}

proof fn lemma_shape_pos(e: Seq<(u64, u64)>, key: u64)
    ensures
        -1 <= shape_pos(e, key) < e.len(),
        shape_pos(e, key) >= 0 ==> e[shape_pos(e, key)].0 == key,
        forall|j: int| shape_pos(e, key) < j < e.len() ==> #[trigger] e[j].0 != key,
    decreases e.len(),
{
    if e.len() > 0 && e.last().0 != key {
        lemma_shape_pos(e.drop_last(), key);
        assert forall|j: int| shape_pos(e, key) < j < e.len() implies #[trigger] e[j].0 != key by {
            if j < e.len() - 1 {
                assert(e.drop_last()[j] == e[j]);
            }
        }
    }
}

/// Every kept entry is an entry of the cache, and kept entries keep their
/// order, so distinct keys and bounded generations stay so.
proof fn lemma_kept_recent(e: Seq<(u64, u64)>, generation: u64)
    requires
        shape_keys_distinct(e),
        forall|i: int| 0 <= i < e.len() ==> #[trigger] e[i].1 <= generation,
    ensures
        shape_keys_distinct(kept_recent(e, generation)),
        forall|i: int|
            0 <= i < kept_recent(e, generation).len() ==> exists|j: int|
                0 <= j < e.len() && #[trigger] kept_recent(e, generation)[i] == e[j],
        forall|i: int|
            0 <= i < kept_recent(e, generation).len() ==> #[trigger] kept_recent(e, generation)[i].1
                <= generation,
    decreases e.len(),
{
    if e.len() > 0 {
        let d = e.drop_last();
        assert forall|i: int| 0 <= i < d.len() implies #[trigger] d[i].1 <= generation by {
            assert(d[i] == e[i]);
        }
        lemma_kept_recent(d, generation);
        let k = kept_recent(d, generation);
        assert forall|i: int| 0 <= i < k.len() implies exists|j: int|
            0 <= j < e.len() && #[trigger] k[i] == e[j] by {
            let j = choose|j: int| 0 <= j < d.len() && k[i] == d[j];
            assert(k[i] == e[j]);
        }
        if generation - e.last().1 < 120 {
            let n = k.push(e.last());
            assert forall|i: int| 0 <= i < k.len() implies #[trigger] k[i].0 != e.last().0 by {
                let j = choose|j: int| 0 <= j < d.len() && k[i] == d[j];
                assert(d[j] == e[j]);
            }
            assert forall|i: int, j: int| 0 <= i < j < n.len() implies n[i].0 != n[j].0 by {
                if j == n.len() - 1 {
                    assert(n[i] == k[i]);
                    assert(n[j] == e.last());
                } else {
                    assert(n[i] == k[i] && n[j] == k[j]);
                }
            }
            assert forall|i: int| 0 <= i < n.len() implies exists|j: int|
                0 <= j < e.len() && #[trigger] n[i] == e[j] by {
                if i == n.len() - 1 {
                    assert(n[i] == e[e.len() - 1]);
                } else {
                    assert(n[i] == k[i]);
                }
            }
        }
    }
}

/// The rasterizer-independent state of the glyph atlas: its pixels, where
/// the next glyph goes, whether it changed since the last upload, its
/// content revision, and the shape cache's entries (the key hash of each
/// shaped text, with the generation it was last used in).
#[derive(Debug)]
pub struct GlyphAtlas {
    pub pixels: Vec<u8>,
    pub cursor: GlyphCursor,
    pub dirty: bool,
    pub shape_cache: Vec<(u64, u64)>,
    pub shape_cache_generation: u64,
    pub atlas_path: String,
    pub revision: u64,
}

impl GlyphAtlas {
    /// The pixels cover the atlas, the cursor stays within one pixel past
    /// its right edge, rows are no taller than the atlas, and the shape
    /// cache has distinct keys, none used after the current generation.
    pub open spec fn wf(&self) -> bool {
        &&& self.pixels@.len() == atlas_len()
        &&& self.cursor.cursor_x <= 2049
        &&& self.cursor.row_height <= 2048
        &&& shape_keys_distinct(self.shape_cache@)
        &&& forall|i: int|
            0 <= i < self.shape_cache@.len() ==> #[trigger] self.shape_cache@[i].1
                <= self.shape_cache_generation
    }

    /// An empty atlas: transparent black pixels, the cursor at the top left,
    /// clean, revision 0, no shaped text, identified as `__glyph_atlas__`.
    pub fn new() -> (r: Self)
        ensures
            r.wf(),
            forall|i: int| 0 <= i < r.pixels@.len() ==> r.pixels@[i] == 0,
            r.cursor == (GlyphCursor { cursor_x: 0, cursor_y: 0, row_height: 0 }),
            !r.dirty,
            r.shape_cache@.len() == 0,
            r.shape_cache_generation == 0,
            r.atlas_path@ == "__glyph_atlas__"@,
            r.revision == 0,
    {
        let pixels: Vec<u8> = vec![0u8; 16777216];
        let atlas_path = crate::text::string_from_chars(crate::text::chars_of("__glyph_atlas__").as_slice());
        GlyphAtlas {
            pixels,
            cursor: GlyphCursor::new(),
            dirty: false,
            shape_cache: Vec::new(),
            shape_cache_generation: 0,
            atlas_path,
            revision: 0,
        }
    }

    /// The texture path that identifies the atlas to the GPU texture system.
    pub fn atlas_path(&self) -> (r: &str)
        ensures
            r@ == self.atlas_path@,
    {
        self.atlas_path.as_str()
    }

    /// The content revision, advanced by every glyph added.
    pub fn revision(&self) -> (r: u64)
        ensures
            r == self.revision,
    {
        self.revision
    }

    /// Whether glyphs were added since the last upload.
    pub fn is_dirty(&self) -> (r: bool)
        ensures
            r == self.dirty,
    {
        self.dirty
    }

    /// Marks the atlas as uploaded.
    pub fn mark_clean(&mut self)
        ensures
            !final(self).dirty,
            final(self).pixels == old(self).pixels,
            final(self).cursor == old(self).cursor,
            final(self).shape_cache == old(self).shape_cache,
            final(self).shape_cache_generation == old(self).shape_cache_generation,
            final(self).atlas_path == old(self).atlas_path,
            final(self).revision == old(self).revision,
    {
        self.dirty = false;
    }

    /// The pixels and their dimensions, for upload.
    pub fn texture_data(&self) -> (r: (&[u8], u32, u32))
        ensures
            r.0@ == self.pixels@,
            r.1 == 2048,
            r.2 == 2048,
    {
        (self.pixels.as_slice(), GLYPH_ATLAS_SIZE, GLYPH_ATLAS_SIZE)
    }

    /// Moves to the next generation (once per frame); every 60th generation
    /// the shape-cache entries unused for 120 generations are dropped.
    pub fn advance_generation(&mut self)
        requires
            old(self).wf(),
            old(self).shape_cache_generation < u64::MAX,
        ensures
            final(self).wf(),
            final(self).shape_cache_generation == old(self).shape_cache_generation + 1,
            final(self).shape_cache@ == if final(self).shape_cache_generation % 60 == 0 {
                kept_recent(old(self).shape_cache@, final(self).shape_cache_generation)
            } else {
                old(self).shape_cache@
            },
            final(self).pixels == old(self).pixels,
            final(self).cursor == old(self).cursor,
            final(self).dirty == old(self).dirty,
            final(self).atlas_path == old(self).atlas_path,
            final(self).revision == old(self).revision,
    {
        self.shape_cache_generation = self.shape_cache_generation + 1;
        let generation = self.shape_cache_generation;
        if generation % 60 == 0 {
            let ghost e = self.shape_cache@;
            let mut kept: Vec<(u64, u64)> = Vec::new();
            let mut i: usize = 0;
            while i < self.shape_cache.len()
                invariant
                    e == self.shape_cache@,
                    i <= e.len(),
                    forall|j: int| 0 <= j < e.len() ==> #[trigger] e[j].1 <= generation,
                    kept@ == kept_recent(e.subrange(0, i as int), generation),
                decreases e.len() - i,
            {
                let entry = self.shape_cache[i];
                assert(e.subrange(0, i + 1).drop_last() == e.subrange(0, i as int));
                if generation - entry.1 < 120 {
                    kept.push(entry);
                }
                i = i + 1;
            }
            assert(e.subrange(0, e.len() as int) == e);
            proof {
                lemma_kept_recent(e, generation);
            }
            self.shape_cache = kept;
        }
    }

    /// Copies a rasterized `width` x `height` glyph into the next free slot
    /// and returns the slot; an empty glyph, or one for which the atlas has
    /// no room left, changes no pixel and gives `None`. A copied glyph marks
    /// the atlas dirty and advances its revision (wrapping).
    pub fn insert_glyph(&mut self, width: u32, height: u32, data: &[u8], content: GlyphContent) -> (r:
        Option<(u32, u32)>)
        requires
            old(self).wf(),
            width <= 2048,
            old(self).cursor.cursor_y + old(self).cursor.row_height + height + 1 <= u32::MAX,
        ensures
            final(self).wf(),
            final(self).shape_cache == old(self).shape_cache,
            final(self).shape_cache_generation == old(self).shape_cache_generation,
            final(self).atlas_path == old(self).atlas_path,
            if width == 0 || height == 0 {
                r is None && final(self).pixels == old(self).pixels && final(self).cursor
                    == old(self).cursor && final(self).dirty == old(self).dirty
                    && final(self).revision == old(self).revision
            } else {
                (final(self).cursor, r) == spec_reserve(old(self).cursor, width, height)
                    && match r {
                    None => final(self).pixels == old(self).pixels && final(self).dirty
                        == old(self).dirty && final(self).revision == old(self).revision,
                    Some((x, y)) => final(self).pixels@ == written_atlas(
                        old(self).pixels@,
                        x as int,
                        y as int,
                        width as int,
                        height as int,
                        content,
                        data@,
                    ) && final(self).dirty && final(self).revision == (if old(self).revision
                        == u64::MAX {
                        0
                    } else {
                        old(self).revision + 1
                    }),
                }
            },
    {
        if width == 0 || height == 0 {
            return None;
        }
        let slot = self.cursor.reserve_glyph_slot(width, height);
        match slot {
            None => None,
            Some((x, y)) => {
                write_glyph_pixels(&mut self.pixels, x, y, width, height, data, content);
                self.dirty = true;
                self.revision = self.revision.wrapping_add(1);
                Some((x, y))
            },
        }
    }

    /// Looks up shaped text by its key hash; a hit is marked as used in the
    /// current generation.
    pub fn touch_shape_cache_entry(&mut self, key: u64) -> (r: bool)
        requires
            old(self).wf(),
        ensures
            final(self).wf(),
            r == (shape_pos(old(self).shape_cache@, key) >= 0),
            final(self).shape_cache@ == if r {
                old(self).shape_cache@.update(
                    shape_pos(old(self).shape_cache@, key),
                    (key, old(self).shape_cache_generation),
                )
            } else {
                old(self).shape_cache@
            },
            final(self).shape_cache_generation == old(self).shape_cache_generation,
            final(self).pixels == old(self).pixels,
            final(self).cursor == old(self).cursor,
            final(self).dirty == old(self).dirty,
            final(self).atlas_path == old(self).atlas_path,
            final(self).revision == old(self).revision,
    {
        match self.find_shape(key) {
            Some(i) => {
                let generation = self.shape_cache_generation;
                self.shape_cache.set(i, (key, generation));
                true
            },
            None => false,
        }
    }

    /// Caches shaped text under its key hash, as used in the current
    /// generation.
    pub fn insert_shape_cache_entry(&mut self, key: u64)
        requires
            old(self).wf(),
        ensures
            final(self).wf(),
            final(self).shape_cache@ == if shape_pos(old(self).shape_cache@, key) >= 0 {
                old(self).shape_cache@.update(
                    shape_pos(old(self).shape_cache@, key),
                    (key, old(self).shape_cache_generation),
                )
            } else {
                old(self).shape_cache@.push((key, old(self).shape_cache_generation))
            },
            final(self).shape_cache_generation == old(self).shape_cache_generation,
            final(self).pixels == old(self).pixels,
            final(self).cursor == old(self).cursor,
            final(self).dirty == old(self).dirty,
            final(self).atlas_path == old(self).atlas_path,
            final(self).revision == old(self).revision,
    {
        let generation = self.shape_cache_generation;
        match self.find_shape(key) {
            Some(i) => {
                self.shape_cache.set(i, (key, generation));
            },
            None => {
                proof {
                    lemma_shape_pos(self.shape_cache@, key);
                }
                self.shape_cache.push((key, generation));
            },
        }
    }

    fn find_shape(&self, key: u64) -> (r: Option<usize>)
        requires
            self.wf(),
        ensures
            match r {
                Some(i) => i as int == shape_pos(self.shape_cache@, key),
                None => shape_pos(self.shape_cache@, key) == -1,
            },
            shape_pos(self.shape_cache@, key) >= 0 ==> self.shape_cache@[shape_pos(
                self.shape_cache@,
                key,
            )].0 == key,
            -1 <= shape_pos(self.shape_cache@, key) < self.shape_cache@.len(),
    {
        proof {
            lemma_shape_pos(self.shape_cache@, key);
        }
        let ghost e = self.shape_cache@;
        let mut i = self.shape_cache.len();
        assert(e.subrange(0, i as int) == e);
        while i > 0
            invariant
                e == self.shape_cache@,
                i <= e.len(),
                shape_pos(e, key) == shape_pos(e.subrange(0, i as int), key),
            decreases i,
        {
            let ghost sub = e.subrange(0, i as int);
            if self.shape_cache[i - 1].0 == key {
                assert(sub.last() == e[i - 1]);
                return Some(i - 1);
            }
            assert(sub.drop_last() == e.subrange(0, i - 1));
            i = i - 1;
        }
        None
    }
}

/// The last entry with `key` is what `shape_pos` finds.
proof fn lemma_shape_pos_at(e: Seq<(u64, u64)>, key: u64, p: int)
    requires
        0 <= p < e.len(),
        e[p].0 == key,
        forall|j: int| p < j < e.len() ==> #[trigger] e[j].0 != key,
    ensures
        shape_pos(e, key) == p,
    decreases e.len(),
{
    if p < e.len() - 1 {
        assert(e.last() == e[e.len() - 1]);
        lemma_shape_pos_at(e.drop_last(), key, p);
    }
}

/// Shaped text cached under a key is found again under that key, marked
/// as used in the generation it was cached in.
pub proof fn lemma_cached_shape_is_found(e: Seq<(u64, u64)>, key: u64, generation: u64)
    ensures
        ({
            let after = if shape_pos(e, key) >= 0 {
                e.update(shape_pos(e, key), (key, generation))
            } else {
                e.push((key, generation))
            };
            &&& shape_pos(after, key) >= 0
            &&& after[shape_pos(after, key)] == (key, generation)
        }),
{
    lemma_shape_pos(e, key);
    let p = shape_pos(e, key);
    if p >= 0 {
        let after = e.update(p, (key, generation));
        assert forall|j: int| p < j < after.len() implies #[trigger] after[j].0 != key by {
            assert(after[j] == e[j]);
        }
        lemma_shape_pos_at(after, key, p);
    } else {
        let after = e.push((key, generation));
        lemma_shape_pos_at(after, key, e.len() as int);
    }
}

/// Eviction keeps exactly the entries used within the last 120 generations:
/// every kept entry is an entry of the cache used that recently, and every
/// entry used that recently is kept.
pub proof fn lemma_eviction_keeps_exactly_recent(e: Seq<(u64, u64)>, generation: u64)
    requires
        forall|i: int| 0 <= i < e.len() ==> #[trigger] e[i].1 <= generation,
    ensures
        forall|i: int|
            0 <= i < kept_recent(e, generation).len() ==> generation - (#[trigger] kept_recent(
                e,
                generation,
            )[i]).1 < 120 && e.contains(kept_recent(e, generation)[i]),
        forall|j: int|
            0 <= j < e.len() && generation - e[j].1 < 120 ==> kept_recent(e, generation).contains(
                #[trigger] e[j],
            ),
    decreases e.len(),
{
    if e.len() > 0 {
        let d = e.drop_last();
        assert forall|i: int| 0 <= i < d.len() implies #[trigger] d[i].1 <= generation by {
            assert(d[i] == e[i]);
        }
        lemma_eviction_keeps_exactly_recent(d, generation);
        let k = kept_recent(d, generation);
        let kk = kept_recent(e, generation);
        assert forall|i: int| 0 <= i < kk.len() implies generation - (#[trigger] kk[i]).1 < 120
            && e.contains(kk[i]) by {
            if i < k.len() {
                assert(kk[i] == k[i]);
                let j = choose|j: int| 0 <= j < d.len() && d[j] == k[i];
                assert(e[j] == d[j]);
            } else {
                assert(kk[i] == e[e.len() - 1]);
            }
        }
        assert forall|j: int| 0 <= j < e.len() && generation - e[j].1 < 120 implies kk.contains(
            #[trigger] e[j],
        ) by {
            if j < e.len() - 1 {
                assert(e[j] == d[j]);
                let i = choose|i: int| 0 <= i < k.len() && k[i] == d[j];
                assert(kk[i] == k[i]);
            } else {
                assert(kk[kk.len() - 1] == e[j]);
            }
        }
    }
}

} // verus!
