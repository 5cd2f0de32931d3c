//! RGBA8 texture data and atlas cropping.
//!
//! Cropping a sub-region out of an atlas copies its rows, then bleeds edge
//! colour into the nearly transparent black padding that atlases surround
//! their art with, so that bilinear filtering at the crop's border does not
//! darken it.

use vstd::prelude::*;

verus! {

/// Decoded RGBA8 pixels, row-major, four bytes per pixel.
#[derive(Debug, Clone, PartialEq, Eq)]
pub struct TextureData {
    pub width: u32,
    pub height: u32,
    pub pixels: Vec<u8>,
}

impl TextureData {
    /// The pixel buffer holds exactly `width * height` RGBA pixels.
    pub open spec fn wf(&self) -> bool {
        self.pixels@.len() == self.width * self.height * 4
    }
}

/// Alpha at or below which a black pixel counts as padding.
pub const EDGE_BLEED_ALPHA_MAX: u8 = 128;
/// Largest channel value of a padding pixel's colour.
pub const EDGE_BLEED_RGB_MAX: u8 = 4;
/// Alpha above which a pixel may lend its colour.
pub const EDGE_SOURCE_ALPHA_MIN: u8 = 128;
/// A lending pixel's brightest channel must exceed this.
pub const EDGE_SOURCE_RGB_MIN: u8 = 64;

/// Byte offset of pixel `(x, y)` in a buffer `w` pixels wide.
pub open spec fn offset_of(w: int, x: int, y: int) -> int {
    (y * w + x) * 4
}

/// Nearly transparent black: the padding that receives edge colour.
pub open spec fn low_alpha_black(r: u8, g: u8, b: u8, a: u8) -> bool {
    a <= EDGE_BLEED_ALPHA_MAX && r <= EDGE_BLEED_RGB_MAX && g <= EDGE_BLEED_RGB_MAX && b
        <= EDGE_BLEED_RGB_MAX
}

/// An opaque enough and bright enough pixel: a source of edge colour.
pub open spec fn edge_source(r: u8, g: u8, b: u8, a: u8) -> bool {
    a > EDGE_SOURCE_ALPHA_MIN && (r > EDGE_SOURCE_RGB_MIN || g > EDGE_SOURCE_RGB_MIN || b
        > EDGE_SOURCE_RGB_MIN)
}

/// The colour pixel `(x, y)` lends, if it is an edge-colour source.
pub open spec fn edge_at(s: Seq<u8>, w: int, x: int, y: int) -> Option<(u8, u8, u8)> {
    let o = offset_of(w, x, y);
    if 0 <= o && o + 4 <= s.len() && edge_source(s[o], s[o + 1], s[o + 2], s[o + 3]) {
        Some((s[o], s[o + 1], s[o + 2]))
    } else {
        None
    }
}

/// Searching from radius `r` outwards: at each radius the pixel to the left,
/// then to the right, then above; the first edge-colour source wins.
pub open spec fn nearest_from(s: Seq<u8>, w: int, h: int, x: int, y: int, r: int) -> Option<
    (u8, u8, u8),
>
    decreases (if w >= h {
        w
    } else {
        h
    }) + 1 - r,
{
    let max_radius = if w >= h {
        w
    } else {
        h
    };
    if r < 1 || r > max_radius {
        None
    } else {
        let left = if x >= r {
            edge_at(s, w, x - r, y)
        } else {
            None
        };
        let right = if x + r < w {
            edge_at(s, w, x + r, y)
        } else {
            None
        };
        let up = if y >= r {
            edge_at(s, w, x, y - r)
        } else {
            None
        };
        if left is Some {
            left
        } else if right is Some {
            right
        } else if up is Some {
            up
        } else {
            nearest_from(s, w, h, x, y, r + 1)
        }
    }
}

/// The colour bled into padding pixel `(x, y)`, if any source is in reach.
pub open spec fn spec_nearest_edge(s: Seq<u8>, w: int, h: int, x: int, y: int) -> Option<
    (u8, u8, u8),
> {
    nearest_from(s, w, h, x, y, 1)
}

/// Byte `i` after bleeding: the colour channels of a padding pixel take the
/// nearest edge colour; everything else is kept.
pub open spec fn bleed_byte(s: Seq<u8>, w: int, h: int, i: int) -> u8 {
    let p = i / 4;
    let c = i % 4;
    let o = p * 4;
    if c < 3 && low_alpha_black(s[o], s[o + 1], s[o + 2], s[o + 3]) {
        match spec_nearest_edge(s, w, h, p % w, p / w) {
            Some((r, g, b)) => if c == 0 {
                r
            } else if c == 1 {
                g
            } else {
                b
            },
            None => s[i],
        }
    } else {
        s[i]
    }
}

/// A whole buffer after bleeding; every lookup reads the buffer as it was.
pub open spec fn spec_bleed(s: Seq<u8>, w: int, h: int) -> Seq<u8> {
    Seq::new(s.len(), |i: int| bleed_byte(s, w, h, i))
}

/// The first `k` rows of the `w`-pixel-wide window at `(x, y)` of a buffer
/// `dw` pixels wide, concatenated.
pub open spec fn crop_rows(s: Seq<u8>, dw: int, x: int, y: int, w: int, k: int) -> Seq<u8>
    decreases k,
{
    if k <= 0 {
        Seq::empty()
    } else {
        let start = offset_of(dw, x, y + k - 1);
        crop_rows(s, dw, x, y, w, k - 1) + s.subrange(start, start + w * 4)
    }
}

/// The crop that `extract_sub_region` returns: `None` when the window leaves
/// the texture, else its rows with edge colour bled into the padding.
pub open spec fn spec_extract(d: TextureData, x: int, y: int, w: int, h: int) -> Option<Seq<u8>> {
    if x + w > d.width || y + h > d.height {
        None
    } else {
        Some(spec_bleed(crop_rows(d.pixels@, d.width as int, x, y, w, h), w, h))
    }
}

proof fn lemma_pixel_in_bounds(x: int, y: int, w: int, h: int)
    requires
        0 <= x < w,
        0 <= y < h,
    ensures
        0 <= y * w + x < w * h,
        offset_of(w, x, y) + 4 <= w * h * 4,
{
    assert(y * w + x < w * h) by (nonlinear_arith)
        requires
            0 <= x < w,
            0 <= y < h,
    ;
    assert(0 <= y * w) by (nonlinear_arith)
        requires
            0 <= x < w,
            0 <= y < h,
    ;
}

proof fn lemma_row_in_bounds(dw: int, dh: int, x: int, row: int, w: int)
    requires
        0 <= x,
        0 <= w,
        x + w <= dw,
        0 <= row < dh,
    ensures
        0 <= offset_of(dw, x, row),
        offset_of(dw, x, row) + w * 4 <= dw * dh * 4,
{
    assert(0 <= row * dw) by (nonlinear_arith)
        requires
            0 <= row,
            0 <= dw,
    ;
    assert(row * dw + dw <= dw * dh) by (nonlinear_arith)
        requires
            0 <= row < dh,
            0 <= dw,
    ;
}

proof fn lemma_crop_rows_len(s: Seq<u8>, dw: int, dh: int, x: int, y: int, w: int, k: int)
    requires
        0 <= x,
        0 <= y,
        0 <= w,
        x + w <= dw,
        0 <= k,
        y + k <= dh,
        s.len() == dw * dh * 4,
    ensures
        crop_rows(s, dw, x, y, w, k).len() == k * w * 4,
    decreases k,
{
    if k > 0 {
        lemma_crop_rows_len(s, dw, dh, x, y, w, k - 1);
        lemma_row_in_bounds(dw, dh, x, y + k - 1, w);
        let start = offset_of(dw, x, y + k - 1);
        assert(s.subrange(start, start + w * 4).len() == w * 4);
        assert((k - 1) * w * 4 + w * 4 == k * w * 4) by (nonlinear_arith);
    } else {
        assert(k * w * 4 == 0) by (nonlinear_arith)
            requires
                k == 0,
        ;
    }
}

/// Byte offset of pixel `(x, y)` in a buffer `width` pixels wide.
pub fn pixel_offset(width: u32, x: u32, y: u32) -> (r: usize)
    requires
        offset_of(width as int, x as int, y as int) <= usize::MAX,
    ensures
        r == offset_of(width as int, x as int, y as int),
{
    assert(0 <= y * width) by (nonlinear_arith);
    ((y as usize) * (width as usize) + (x as usize)) * 4
}

/// Whether a pixel is nearly transparent black padding.
pub fn is_low_alpha_black_padding(r: u8, g: u8, b: u8, a: u8) -> (res: bool)
    ensures
        res == low_alpha_black(r, g, b, a),
{
    a <= EDGE_BLEED_ALPHA_MAX && r <= EDGE_BLEED_RGB_MAX && g <= EDGE_BLEED_RGB_MAX && b
        <= EDGE_BLEED_RGB_MAX
}

/// Whether a pixel is opaque and bright enough to lend its colour.
pub fn is_edge_color_source(r: u8, g: u8, b: u8, a: u8) -> (res: bool)
    ensures
        res == edge_source(r, g, b, a),
{
    let mut max = r;
    if g > max {
        max = g;
    }
    if b > max {
        max = b;
    }
    a > EDGE_SOURCE_ALPHA_MIN && max > EDGE_SOURCE_RGB_MIN
}

/// The colour pixel `(x, y)` lends, if it is an edge-colour source.
fn edge_rgb_at(source: &Vec<u8>, width: u32, height: u32, x: u32, y: u32) -> (r: Option<
    (u8, u8, u8),
>)
    requires
        source@.len() == width * height * 4,
        x < width,
        y < height,
    ensures
        r == edge_at(source@, width as int, x as int, y as int),
{
    let n = source.len();
    proof {
        lemma_pixel_in_bounds(x as int, y as int, width as int, height as int);
    }
    let offset = pixel_offset(width, x, y);
    let (r, g, b, a) = (source[offset], source[offset + 1], source[offset + 2], source[offset
        + 3]);
    if is_edge_color_source(r, g, b, a) {
        Some((r, g, b))
    } else {
        None
    }
}

/// The nearest edge colour for pixel `(x, y)`: at growing radius, the pixel
/// to the left, then to the right, then above.
fn nearest_edge_rgb(source: &Vec<u8>, width: u32, height: u32, x: u32, y: u32) -> (r: Option<
    (u8, u8, u8),
>)
    requires
        source@.len() == width * height * 4,
        x < width,
        y < height,
    ensures
        r == spec_nearest_edge(source@, width as int, height as int, x as int, y as int),
{
    let max_radius: u64 = if width >= height {
        width as u64
    } else {
        height as u64
    };
    let mut radius: u64 = 1;
    while radius <= max_radius
        invariant
            source@.len() == width * height * 4,
            x < width,
            y < height,
            max_radius == (if width >= height {
                width as int
            } else {
                height as int
            }),
            1 <= radius <= max_radius + 1,
            spec_nearest_edge(source@, width as int, height as int, x as int, y as int)
                == nearest_from(
                source@,
                width as int,
                height as int,
                x as int,
                y as int,
                radius as int,
            ),
        decreases max_radius + 1 - radius,
    {
        if (x as u64) >= radius {
            let sx = (x as u64 - radius) as u32;
            let found = edge_rgb_at(source, width, height, sx, y);
            if found.is_some() {
                return found;
            }
        }
        if (x as u64) + radius < width as u64 {
            let sx = (x as u64 + radius) as u32;
            let found = edge_rgb_at(source, width, height, sx, y);
            if found.is_some() {
                return found;
            }
        }
        if (y as u64) >= radius {
            let sy = (y as u64 - radius) as u32;
            let found = edge_rgb_at(source, width, height, x, sy);
            if found.is_some() {
                return found;
            }
        }
        radius = radius + 1;
    }
    None
}

/// Bleeds edge colour into every padding pixel of a `width` x `height`
/// buffer; each lookup reads the buffer as it was before the call.
pub fn bleed_low_alpha_black_padding(pixels: &mut Vec<u8>, width: u32, height: u32)
    requires
        old(pixels)@.len() == width * height * 4,
    ensures
        final(pixels)@ == spec_bleed(old(pixels)@, width as int, height as int),
{
    let n = pixels.len();
    let mut source: Vec<u8> = Vec::new();
    let mut i: usize = 0;
    while i < n
        invariant
            n == pixels@.len(),
            i <= n,
            source@ == pixels@.subrange(0, i as int),
        decreases n - i,
    {
        source.push(pixels[i]);
        i = i + 1;
    }
    assert(source@ == pixels@.subrange(0, n as int));
    assert(source@ == old(pixels)@);
    let ghost s = source@;
    assert(0 <= width * height) by (nonlinear_arith);
    let count: usize = (width as usize) * (height as usize);
    let mut p: usize = 0;
    while p < count
        invariant
            s == source@,
            s.len() == width * height * 4,
            count == width * height,
            n == s.len(),
            pixels@.len() == n,
            p <= count,
            forall|k: int| 0 <= k < p * 4 ==> #[trigger] pixels@[k] == bleed_byte(
                s,
                width as int,
                height as int,
                k,
            ),
            forall|k: int| p * 4 <= k < n ==> #[trigger] pixels@[k] == s[k],
        decreases count - p,
    {
        let offset = p * 4;
        assert(width > 0) by (nonlinear_arith)
            requires
                p < width * height,
        ;
        let x = (p % (width as usize)) as u32;
        proof {
            assert((p as int) / (width as int) < height) by (nonlinear_arith)
                requires
                    p < width * height,
                    width > 0,
            ;
            assert(0 <= (p as int) / (width as int)) by (nonlinear_arith)
                requires
                    p < width * height,
                    width > 0,
            ;
        }
        let y = (p / (width as usize)) as u32;
        let r0 = source[offset];
        let g0 = source[offset + 1];
        let b0 = source[offset + 2];
        let a0 = source[offset + 3];
        let ghost before = pixels@;
        if is_low_alpha_black_padding(r0, g0, b0, a0) {
            match nearest_edge_rgb(&source, width, height, x, y) {
                Some((r, g, b)) => {
                    pixels.set(offset, r);
                    pixels.set(offset + 1, g);
                    pixels.set(offset + 2, b);
                },
                None => {},
            }
        }
        proof {
            assert forall|k: int| 0 <= k < (p + 1) * 4 implies #[trigger] pixels@[k] == bleed_byte(
                s,
                width as int,
                height as int,
                k,
            ) by {
                if k >= p * 4 {
                    assert(k / 4 == p as int);
                    assert(k % 4 == k - p * 4);
                }
            }
        }
        p = p + 1;
    }
    proof {
        assert(pixels@ == spec_bleed(s, width as int, height as int));
    }
}

/// Crops the `width` x `height` window at `(x, y)` out of a texture, with
/// edge colour bled into its padding; `None` when the window leaves it.
pub fn extract_sub_region(data: &TextureData, x: u32, y: u32, width: u32, height: u32) -> (r:
    Option<TextureData>)
    requires
        data.wf(),
    ensures
        match spec_extract(*data, x as int, y as int, width as int, height as int) {
            None => r is None,
            Some(px) => r matches Some(t) && t.width == width && t.height == height && t.pixels@
                == px && t.wf(),
        },
{
    if (x as u64) + (width as u64) > (data.width as u64) || (y as u64) + (height as u64) > (
    data.height as u64) {
        return None;
    }
    let dlen = data.pixels.len();
    let ghost s = data.pixels@;
    let ghost dw = data.width as int;
    let ghost dh = data.height as int;
    let mut pixels: Vec<u8> = Vec::new();
    let mut k: u32 = 0;
    while k < height
        invariant
            s == data.pixels@,
            dlen == s.len(),
            dw == data.width,
            dh == data.height,
            s.len() == dw * dh * 4,
            x + width <= dw,
            y + height <= dh,
            k <= height,
            pixels@ == crop_rows(s, dw, x as int, y as int, width as int, k as int),
        decreases height - k,
    {
        let row = y + k;
        proof {
            lemma_row_in_bounds(dw, dh, x as int, row as int, width as int);
            lemma_crop_rows_len(s, dw, dh, x as int, y as int, width as int, k as int);
        }
        let start = pixel_offset(data.width, x, row);
        let row_len = (width as usize) * 4;
        let ghost prefix = pixels@;
        let mut j: usize = 0;
        while j < row_len
            invariant
                s == data.pixels@,
                s.len() == dw * dh * 4,
                dlen == s.len(),
                start + row_len <= s.len(),
                row_len == width * 4,
                j <= row_len,
                pixels@ == prefix + s.subrange(start as int, start + j),
            decreases row_len - j,
        {
            pixels.push(data.pixels[start + j]);
            assert(s.subrange(start as int, start + j + 1) == s.subrange(start as int, start + j).push(
                s[start + j],
            ));
            j = j + 1;
        }
        k = k + 1;
    }
    proof {
        lemma_crop_rows_len(s, dw, dh, x as int, y as int, width as int, height as int);
        assert(height * width * 4 == width * height * 4) by (nonlinear_arith);
    }
    bleed_low_alpha_black_padding(&mut pixels, width, height);
    Some(TextureData { width, height, pixels })
}

/// Bleeding only recolours padding: every alpha byte is kept, and every
/// byte of a pixel that is not nearly transparent black is kept.
pub proof fn lemma_bleed_only_recolours_padding(s: Seq<u8>, w: int, h: int)
    requires
        s.len() % 4 == 0,
    ensures
        spec_bleed(s, w, h).len() == s.len(),
        forall|i: int| 0 <= i < s.len() && i % 4 == 3 ==> #[trigger] spec_bleed(s, w, h)[i] == s[i],
        forall|i: int|
            0 <= i < s.len() && !low_alpha_black(
                s[(i / 4) * 4],
                s[(i / 4) * 4 + 1],
                s[(i / 4) * 4 + 2],
                s[(i / 4) * 4 + 3],
            ) ==> #[trigger] spec_bleed(s, w, h)[i] == s[i],
{
}

/// Byte `c` (a colour channel or alpha) of pixel `(x, y)` of a `w` x `h`
/// buffer, after bleeding, read through the pixel's own coordinates.
proof fn lemma_bleed_byte_at(s: Seq<u8>, w: int, h: int, x: int, y: int, c: int)
    requires
        0 <= x < w,
        0 <= y < h,
        0 <= c < 4,
        s.len() == w * h * 4,
    ensures
        spec_bleed(s, w, h)[offset_of(w, x, y) + c] == ({
            let o = offset_of(w, x, y);
            if c < 3 && low_alpha_black(s[o], s[o + 1], s[o + 2], s[o + 3]) {
                match spec_nearest_edge(s, w, h, x, y) {
                    Some((r, g, b)) => if c == 0 {
                        r
                    } else if c == 1 {
                        g
                    } else {
                        b
                    },
                    None => s[o + c],
                }
            } else {
                s[o + c]
            }
        }),
{
    lemma_pixel_in_bounds(x, y, w, h);
    let p = y * w + x;
    let i = offset_of(w, x, y) + c;
    vstd::arithmetic::div_mod::lemma_fundamental_div_mod_converse(i, 4, p, c);
    vstd::arithmetic::div_mod::lemma_fundamental_div_mod_converse(p, w, y, x);
}

/// Edge bleeding at radius one: a padding pixel (alpha at most 128, each
/// colour channel at most 4) takes the colour of its left neighbour when
/// that one lends colour (alpha above 128, some channel above 64), else of
/// its right neighbour when that one does, else of the pixel above when that
/// one does; its alpha is never changed.
pub proof fn lemma_padding_takes_adjacent_edge_colour(s: Seq<u8>, w: int, h: int, x: int, y: int)
    requires
        0 <= x < w,
        0 <= y < h,
        s.len() == w * h * 4,
        s[offset_of(w, x, y) + 3] <= 128,
        s[offset_of(w, x, y)] <= 4,
        s[offset_of(w, x, y) + 1] <= 4,
        s[offset_of(w, x, y) + 2] <= 4,
    ensures
        ({
            let o = offset_of(w, x, y);
            let l = offset_of(w, x - 1, y);
            let rt = offset_of(w, x + 1, y);
            let u = offset_of(w, x, y - 1);
            let b = spec_bleed(s, w, h);
            let left_lends = x >= 1 && s[l + 3] > 128 && (s[l] > 64 || s[l + 1] > 64 || s[l + 2]
                > 64);
            let right_lends = x + 1 < w && s[rt + 3] > 128 && (s[rt] > 64 || s[rt + 1] > 64
                || s[rt + 2] > 64);
            let up_lends = y >= 1 && s[u + 3] > 128 && (s[u] > 64 || s[u + 1] > 64 || s[u + 2]
                > 64);
            &&& b[o + 3] == s[o + 3]
            &&& left_lends ==> b[o] == s[l] && b[o + 1] == s[l + 1] && b[o + 2] == s[l + 2]
            &&& !left_lends && right_lends ==> b[o] == s[rt] && b[o + 1] == s[rt + 1] && b[o + 2]
                == s[rt + 2]
            &&& !left_lends && !right_lends && up_lends ==> b[o] == s[u] && b[o + 1] == s[u + 1]
                && b[o + 2] == s[u + 2]
        }),
{
    lemma_bleed_byte_at(s, w, h, x, y, 0);
    lemma_bleed_byte_at(s, w, h, x, y, 1);
    lemma_bleed_byte_at(s, w, h, x, y, 2);
    lemma_bleed_byte_at(s, w, h, x, y, 3);
    if x >= 1 {
        lemma_pixel_in_bounds(x - 1, y, w, h);
    }
    if x + 1 < w {
        lemma_pixel_in_bounds(x + 1, y, w, h);
    }
    if y >= 1 {
        lemma_pixel_in_bounds(x, y - 1, w, h);
    }
    assert(offset_of(w, x - 1, y) == offset_of(w, x, y) - 4);
    assert(offset_of(w, x + 1, y) == offset_of(w, x, y) + 4);
}

/// A pixel that is not padding (alpha above 128, or some colour channel
/// above 4) keeps all four of its bytes when edge colour is bled.
pub proof fn lemma_opaque_or_coloured_pixels_are_kept(s: Seq<u8>, w: int, h: int, x: int, y: int)
    requires
        0 <= x < w,
        0 <= y < h,
        s.len() == w * h * 4,
        s[offset_of(w, x, y) + 3] > 128 || s[offset_of(w, x, y)] > 4 || s[offset_of(w, x, y) + 1]
            > 4 || s[offset_of(w, x, y) + 2] > 4,
    ensures
        spec_bleed(s, w, h)[offset_of(w, x, y)] == s[offset_of(w, x, y)],
        spec_bleed(s, w, h)[offset_of(w, x, y) + 1] == s[offset_of(w, x, y) + 1],
        spec_bleed(s, w, h)[offset_of(w, x, y) + 2] == s[offset_of(w, x, y) + 2],
        spec_bleed(s, w, h)[offset_of(w, x, y) + 3] == s[offset_of(w, x, y) + 3],
{
    lemma_bleed_byte_at(s, w, h, x, y, 0);
    lemma_bleed_byte_at(s, w, h, x, y, 1);
    lemma_bleed_byte_at(s, w, h, x, y, 2);
    lemma_bleed_byte_at(s, w, h, x, y, 3);
}

/// Pixel `(x, y)` lends colour: alpha above 128 and some channel above 64.
pub open spec fn lends_colour(s: Seq<u8>, w: int, x: int, y: int) -> bool {
    let o = offset_of(w, x, y);
    s[o + 3] > 128 && (s[o] > 64 || s[o + 1] > 64 || s[o + 2] > 64)
}

/// None of the three candidates at radius `r` (left, right, above) lends.
pub open spec fn none_lend_at(s: Seq<u8>, w: int, x: int, y: int, r: int) -> bool {
    &&& x >= r ==> !lends_colour(s, w, x - r, y)
    &&& x + r < w ==> !lends_colour(s, w, x + r, y)
    &&& y >= r ==> !lends_colour(s, w, x, y - r)
}

proof fn lemma_edge_at_lends(s: Seq<u8>, w: int, h: int, x: int, y: int)
    requires
        0 <= x < w,
        0 <= y < h,
        s.len() == w * h * 4,
    ensures
        edge_at(s, w, x, y) == (if lends_colour(s, w, x, y) {
            Some((s[offset_of(w, x, y)], s[offset_of(w, x, y) + 1], s[offset_of(w, x, y) + 2]))
        } else {
            None
        }),
{
    lemma_pixel_in_bounds(x, y, w, h);
}

/// Radii at which nothing lends are passed over.
proof fn lemma_nearest_skips_empty_radii(s: Seq<u8>, w: int, h: int, x: int, y: int, k: int, r: int)
    requires
        0 <= x < w,
        0 <= y < h,
        s.len() == w * h * 4,
        1 <= k <= r,
        r <= (if w >= h {
            w
        } else {
            h
        }) + 1,
        forall|q: int| k <= q < r ==> #[trigger] none_lend_at(s, w, x, y, q),
    ensures
        nearest_from(s, w, h, x, y, k) == nearest_from(s, w, h, x, y, r),
    decreases r - k,
{
    if k < r {
        assert(none_lend_at(s, w, x, y, k));
        if x >= k {
            lemma_edge_at_lends(s, w, h, x - k, y);
        }
        if x + k < w {
            lemma_edge_at_lends(s, w, h, x + k, y);
        }
        if y >= k {
            lemma_edge_at_lends(s, w, h, x, y - k);
        }
        lemma_nearest_skips_empty_radii(s, w, h, x, y, k + 1, r);
    }
}

/// Edge bleeding searches outwards: when nothing lends colour at any radius
/// below `r`, a padding pixel takes the colour of the pixel `r` to its left
/// when that one lends, else of the pixel `r` to its right when that one
/// does, else of the pixel `r` above when that one does; a padding pixel with
/// no lender at any radius keeps its colour.
pub proof fn lemma_padding_takes_nearest_edge_colour(
    s: Seq<u8>,
    w: int,
    h: int,
    x: int,
    y: int,
    r: int,
)
    requires
        0 <= x < w,
        0 <= y < h,
        s.len() == w * h * 4,
        s[offset_of(w, x, y) + 3] <= 128,
        s[offset_of(w, x, y)] <= 4,
        s[offset_of(w, x, y) + 1] <= 4,
        s[offset_of(w, x, y) + 2] <= 4,
        1 <= r,
        forall|q: int| 1 <= q < r ==> #[trigger] none_lend_at(s, w, x, y, q),
    ensures
        ({
            let o = offset_of(w, x, y);
            let l = offset_of(w, x - r, y);
            let rt = offset_of(w, x + r, y);
            let u = offset_of(w, x, y - r);
            let b = spec_bleed(s, w, h);
            let left_lends = x >= r && lends_colour(s, w, x - r, y);
            let right_lends = x + r < w && lends_colour(s, w, x + r, y);
            let up_lends = y >= r && lends_colour(s, w, x, y - r);
            &&& b[o + 3] == s[o + 3]
            &&& left_lends ==> b[o] == s[l] && b[o + 1] == s[l + 1] && b[o + 2] == s[l + 2]
            &&& !left_lends && right_lends ==> b[o] == s[rt] && b[o + 1] == s[rt + 1] && b[o + 2]
                == s[rt + 2]
            &&& !left_lends && !right_lends && up_lends ==> b[o] == s[u] && b[o + 1] == s[u + 1]
                && b[o + 2] == s[u + 2]
            &&& (!left_lends && !right_lends && !up_lends && (forall|q: int|
                r < q <= w + h ==> #[trigger] none_lend_at(s, w, x, y, q))) ==> b[o] == s[o]
                && b[o + 1] == s[o + 1] && b[o + 2] == s[o + 2]
        }),
{
    let max_radius = if w >= h {
        w
    } else {
        h
    };
    lemma_bleed_byte_at(s, w, h, x, y, 0);
    lemma_bleed_byte_at(s, w, h, x, y, 1);
    lemma_bleed_byte_at(s, w, h, x, y, 2);
    lemma_bleed_byte_at(s, w, h, x, y, 3);
    if x >= r {
        lemma_edge_at_lends(s, w, h, x - r, y);
    }
    if x + r < w {
        lemma_edge_at_lends(s, w, h, x + r, y);
    }
    if y >= r {
        lemma_edge_at_lends(s, w, h, x, y - r);
    }
    if r <= max_radius {
        lemma_nearest_skips_empty_radii(s, w, h, x, y, 1, r);
        let left_lends = x >= r && lends_colour(s, w, x - r, y);
        let right_lends = x + r < w && lends_colour(s, w, x + r, y);
        let up_lends = y >= r && lends_colour(s, w, x, y - r);
        if !left_lends && !right_lends && !up_lends && (forall|q: int|
            r < q <= w + h ==> #[trigger] none_lend_at(s, w, x, y, q)) {
            assert(none_lend_at(s, w, x, y, r));
            assert forall|q: int| 1 <= q < max_radius + 1 implies #[trigger] none_lend_at(
                s,
                w,
                x,
                y,
                q,
            ) by {
                if q > r {
                    assert(q <= w + h);
                }
            }
            lemma_nearest_skips_empty_radii(s, w, h, x, y, 1, max_radius + 1);
        }
    } else {
        assert(x < r && x + r >= w && y < r);
        assert forall|q: int| 1 <= q < max_radius + 1 implies #[trigger] none_lend_at(
            s,
            w,
            x,
            y,
            q,
        ) by {}
        lemma_nearest_skips_empty_radii(s, w, h, x, y, 1, max_radius + 1);
    }
}

} // verus!
