//! Read-back of headless renders: the layout of the buffer the GPU copies a
//! render into, the tight RGBA image taken out of it, and the glyph atlas
//! handed to the render primitive.

use vstd::prelude::*;

verus! {

/// Bytes per RGBA8 pixel.
pub const BYTES_PER_PIXEL: u32 = 4;
/// Row alignment the GPU requires for buffer copies.
pub const READ_BACK_ROW_ALIGNMENT: u32 = 256;

/// Layout of the buffer a render is copied into.
#[derive(Debug, Clone, Copy, PartialEq, Eq, Structural)]
pub struct ReadBackBufferLayout {
    /// Row pitch: the row's pixel bytes rounded up to a multiple of 256.
    pub bytes_per_row: u32,
    /// Size of the whole buffer.
    pub size_bytes: u64,
}

/// `n` rounded up to a multiple of 256.
pub open spec fn align_256(n: int) -> int {
    ((n + 255) / 256) * 256
}

/// The read-back layout of a `width` x `height` render: rows padded to the
/// 256-byte alignment, and the buffer as large as all its rows.
pub fn read_back_buffer_layout(width: u32, height: u32) -> (r: ReadBackBufferLayout)
    requires
        width * 4 + 256 <= u32::MAX,
        align_256(width * 4) * height <= u32::MAX,
    ensures
        r.bytes_per_row == align_256(width * 4),
        r.size_bytes == align_256(width * 4) * height,
{
    let row_bytes = width * BYTES_PER_PIXEL;
    let padded = row_bytes + READ_BACK_ROW_ALIGNMENT - 1;
    let bytes_per_row = padded & !(READ_BACK_ROW_ALIGNMENT - 1);
    assert(padded & !255u32 == padded - padded % 256) by (bit_vector);
    assert(padded - padded % 256 == (padded / 256) * 256);
    let size = bytes_per_row * height;
    ReadBackBufferLayout { bytes_per_row, size_bytes: size as u64 }
}

/// The tight pixels of a read-back buffer: row `y` is the first `width * 4`
/// bytes of the buffer's row `y`, the padding after them dropped.
pub open spec fn tight_rows(data: Seq<u8>, width: int, bytes_per_row: int, k: int) -> Seq<u8>
    decreases k,
{
    if k <= 0 {
        Seq::empty()
    } else {
        tight_rows(data, width, bytes_per_row, k - 1) + data.subrange(
            (k - 1) * bytes_per_row,
            (k - 1) * bytes_per_row + width * 4,
        )
    }
}

/// The rows of a `width` x `height` image, row-major RGBA, taken out of a
/// read-back buffer whose rows are `bytes_per_row` apart.
pub fn image_from_read_back_buffer(data: &[u8], width: u32, height: u32, bytes_per_row: u32) -> (r:
    Vec<u8>)
    requires
        height > 0 ==> (height - 1) * bytes_per_row + width * 4 <= data@.len(),
        height > 0 ==> (height - 1) * bytes_per_row <= u32::MAX,
        width * 4 <= u32::MAX,
    ensures
        r@ == tight_rows(data@, width as int, bytes_per_row as int, height as int),
{
    let n = data.len();
    let mut out: Vec<u8> = Vec::new();
    let mut y: u32 = 0;
    while y < height
        invariant
            n == data@.len(),
            y <= height,
            height > 0 ==> (height - 1) * bytes_per_row + width * 4 <= data@.len(),
            height > 0 ==> (height - 1) * bytes_per_row <= u32::MAX,
            width * 4 <= u32::MAX,
            out@ == tight_rows(data@, width as int, bytes_per_row as int, y as int),
        decreases height - y,
    {
        proof {
            assert(y * bytes_per_row <= (height - 1) * bytes_per_row) by (nonlinear_arith)
                requires
                    y <= height - 1,
            ;
        }
        let src_offset = (y as usize) * (bytes_per_row as usize);
        let row_len = (width as usize) * 4;
        let ghost prefix = out@;
        let mut i: usize = 0;
        while i < row_len
            invariant
                n == data@.len(),
                src_offset + row_len <= data@.len(),
                i <= row_len,
                out@ == prefix + data@.subrange(src_offset as int, src_offset + i),
            decreases row_len - i,
        {
            out.push(data[src_offset + i]);
            assert(data@.subrange(src_offset as int, src_offset + i + 1) == data@.subrange(
                src_offset as int,
                src_offset + i,
            ).push(data@[src_offset + i]));
            i = i + 1;
        }
        y = y + 1;
    }
    out
}

/// The read-back image holds `height` rows of `width` pixels, and byte `c`
/// of row `y` is byte `c` of the buffer's row `y`.
pub proof fn lemma_read_back_pixels_keep_their_place(
    data: Seq<u8>,
    width: int,
    bytes_per_row: int,
    height: int,
)
    requires
        0 <= width,
        0 <= height,
        width * 4 <= bytes_per_row,
        height > 0 ==> (height - 1) * bytes_per_row + width * 4 <= data.len(),
    ensures
        tight_rows(data, width, bytes_per_row, height).len() == height * width * 4,
        forall|y: int, c: int|
            0 <= y < height && 0 <= c < width * 4 ==> #[trigger] tight_rows(
                data,
                width,
                bytes_per_row,
                height,
            )[y * width * 4 + c] == data[y * bytes_per_row + c],
    decreases height,
{
    if height > 0 {
        let k = height - 1;
        if k > 0 {
            assert((k - 1) * bytes_per_row + width * 4 <= k * bytes_per_row + width * 4)
                by (nonlinear_arith)
                requires
                    0 <= bytes_per_row,
                    k >= 1,
            ;
        }
        lemma_read_back_pixels_keep_their_place(data, width, bytes_per_row, k);
        let prev = tight_rows(data, width, bytes_per_row, k);
        assert(0 <= k * bytes_per_row) by (nonlinear_arith)
            requires
                0 <= k,
                0 <= width * 4 <= bytes_per_row,
        ;
        let row = data.subrange(k * bytes_per_row, k * bytes_per_row + width * 4);
        assert(k * width * 4 + width * 4 == height * width * 4) by (nonlinear_arith)
            requires
                k == height - 1,
        ;
        assert forall|y: int, c: int| 0 <= y < height && 0 <= c < width * 4 implies #[trigger] tight_rows(
            data,
            width,
            bytes_per_row,
            height,
        )[y * width * 4 + c] == data[y * bytes_per_row + c] by {
            if y < k {
                assert(y * width * 4 + c < k * width * 4) by (nonlinear_arith)
                    requires
                        y < k,
                        0 <= c < width * 4,
                ;
                assert(0 <= y * width * 4) by (nonlinear_arith)
                    requires
                        0 <= y,
                        0 <= width,
                ;
                assert(prev[y * width * 4 + c] == data[y * bytes_per_row + c]);
            } else {
                assert(y == k);
            }
        }
    } else {
        assert(height * width * 4 == 0);
    }
}

/// The part of the render primitive that carries the glyph atlas.
#[derive(Debug)]
pub struct WowUiPrimitive {
    pub glyph_atlas_data: Option<Vec<u8>>,
    pub glyph_atlas_size: u32,
}

impl WowUiPrimitive {
    /// A primitive without glyph atlas.
    pub fn empty() -> (r: Self)
        ensures
            r.glyph_atlas_data is None,
            r.glyph_atlas_size == 0,
    {
        WowUiPrimitive { glyph_atlas_data: None, glyph_atlas_size: 0 }
    }
}

/// Hands a copy of the glyph atlas pixels and its size to the primitive;
/// without an atlas the primitive is left as it is.
pub fn install_glyph_atlas_data(primitive: &mut WowUiPrimitive, glyph_atlas_data: Option<(&[u8], u32)>)
    ensures
        match glyph_atlas_data {
            None => *final(primitive) == *old(primitive),
            Some((data, size)) => final(primitive).glyph_atlas_data matches Some(v) && v@ == data@
                && final(primitive).glyph_atlas_size == size,
        },
{
    match glyph_atlas_data {
        None => {},
        Some((data, size)) => {
            let mut v: Vec<u8> = Vec::new();
            let mut i: usize = 0;
            while i < data.len()
                invariant
                    i <= data@.len(),
                    v@ == data@.subrange(0, i as int),
                decreases data@.len() - i,
            {
                v.push(data[i]);
                i = i + 1;
            }
            assert(data@.subrange(0, data@.len() as int) == data@);
            primitive.glyph_atlas_data = Some(v);
            primitive.glyph_atlas_size = size;
        },
    }
}

/// A read-back row is the smallest multiple of 256 bytes that holds the
/// row's pixels.
pub proof fn lemma_row_pitch_is_least_aligned(n: int)
    requires
        n >= 0,
    ensures
        align_256(n) >= n,
        align_256(n) % 256 == 0,
        align_256(n) < n + 256,
{
    vstd::arithmetic::div_mod::lemma_fundamental_div_mod(n + 255, 256);
    vstd::arithmetic::div_mod::lemma_mod_multiples_basic((n + 255) / 256, 256);
}


/// What the headless renderer keeps between frames to reuse GPU work: the
/// size of the render target it holds, the glyph-atlas revision it last
/// uploaded, and, per stratum, the identity of the batch it last uploaded.
/// (The device, pipeline, target and batches themselves are held beside it
/// by the caller.)
#[derive(Debug)]
pub struct HeadlessRenderer {
    pub target_size: Option<(u32, u32)>,
    pub last_glyph_revision: Option<u64>,
    pub strata_cache: Vec<Option<u64>>,
}

/// The batch last uploaded for stratum `i`: none beyond the strata held.
pub open spec fn cached_stratum(cache: Seq<Option<u64>>, i: int) -> Option<u64> {
    if 0 <= i < cache.len() {
        cache[i]
    } else {
        None
    }
}

/// Rendering the same strata twice uploads nothing the second time: after
/// `select_dirty_strata` remembered `current`, no stratum of `current` is
/// dirty; a stratum is dirty exactly when its batch differs from the one
/// remembered.
pub proof fn lemma_unchanged_strata_are_clean(cache: Seq<Option<u64>>, current: Seq<Option<u64>>)
    ensures
        forall|i: int| 0 <= i < current.len() ==> !(#[trigger] cached_stratum(current, i) != current[i]),
        forall|i: int|
            0 <= i < current.len() && i < cache.len() ==> ((#[trigger] cached_stratum(cache, i)
                != current[i]) <==> cache[i] != current[i]),
{
}

/// Whether the glyph atlas at `revision` has to be uploaded.
pub open spec fn spec_needs_glyph_upload(r: HeadlessRenderer, revision: u64) -> bool {
    r.last_glyph_revision != Some(revision)
}

/// The renderer after a render with the glyph atlas at `revision`, uploaded
/// or not.
pub open spec fn spec_after_glyph_upload(r: HeadlessRenderer, revision: u64, uploaded: bool) -> HeadlessRenderer {
    if uploaded {
        HeadlessRenderer { last_glyph_revision: Some(revision), ..r }
    } else {
        r
    }
}

impl HeadlessRenderer {
    /// A renderer without a target that has uploaded no glyphs.
    pub fn new() -> (r: Self)
        ensures
            r.target_size is None,
            r.last_glyph_revision is None,
            r.strata_cache@.len() == 0,
    {
        HeadlessRenderer { target_size: None, last_glyph_revision: None, strata_cache: Vec::new() }
    }

    /// Whether the glyph atlas at `revision` has to be uploaded: unless
    /// that revision was the last one uploaded.
    pub fn needs_glyph_upload(&self, revision: u64) -> (r: bool)
        ensures
            r == spec_needs_glyph_upload(*self, revision),
    {
        match self.last_glyph_revision {
            Some(last) => last != revision,
            None => true,
        }
    }

    /// Records a render with the glyph atlas at `revision`: an upload makes
    /// it the last revision uploaded.
    pub fn record_glyph_upload(&mut self, revision: u64, uploaded: bool)
        ensures
            final(self).last_glyph_revision == spec_after_glyph_upload(*old(self), revision, uploaded).last_glyph_revision,
            final(self).target_size == old(self).target_size,
            final(self).strata_cache == old(self).strata_cache,
    {
        if uploaded {
            self.last_glyph_revision = Some(revision);
        }
    }

    /// Whether a `width` x `height` render needs a new render target (the
    /// one held has another size, or there is none); the target held
    /// afterwards has that size.
    pub fn ensure_target(&mut self, width: u32, height: u32) -> (r: bool)
        ensures
            r == (old(self).target_size != Some((width, height))),
            final(self).target_size == Some((width, height)),
            final(self).last_glyph_revision == old(self).last_glyph_revision,
            final(self).strata_cache == old(self).strata_cache,
    {
        let same = match self.target_size {
            Some((w, h)) => w == width && h == height,
            None => false,
        };
        self.target_size = Some((width, height));
        !same
    }
}

impl HeadlessRenderer {
    /// The strata whose batch changed since the last render (`current` gives
    /// each stratum's batch identity, `None` for an empty stratum): a stratum
    /// is dirty when its batch is not the one last uploaded. The batches of
    /// `current` are remembered for the next render.
    pub fn select_dirty_strata(&mut self, current: &[Option<u64>]) -> (r: Vec<bool>)
        ensures
            r@.len() == current@.len(),
            forall|i: int|
                0 <= i < current@.len() ==> #[trigger] r@[i] == (cached_stratum(old(self).strata_cache@, i)
                    != current@[i]),
            final(self).strata_cache@ == current@,
            final(self).target_size == old(self).target_size,
            final(self).last_glyph_revision == old(self).last_glyph_revision,
    {
        let mut dirty: Vec<bool> = Vec::new();
        let mut i: usize = 0;
        while i < current.len()
            invariant
                i <= current@.len(),
                dirty@.len() == i,
                forall|k: int|
                    0 <= k < i ==> #[trigger] dirty@[k] == (cached_stratum(self.strata_cache@, k)
                        != current@[k]),
            decreases current@.len() - i,
        {
            let previous = if i < self.strata_cache.len() {
                self.strata_cache[i]
            } else {
                None
            };
            let unchanged = match (previous, current[i]) {
                (Some(a), Some(b)) => a == b,
                (None, None) => true,
                _ => false,
            };
            dirty.push(!unchanged);
            i = i + 1;
        }
        let mut kept: Vec<Option<u64>> = Vec::new();
        let mut j: usize = 0;
        while j < current.len()
            invariant
                j <= current@.len(),
                kept@ == current@.subrange(0, j as int),
            decreases current@.len() - j,
        {
            kept.push(current[j]);
            j = j + 1;
        }
        assert(current@.subrange(0, current@.len() as int) == current@);
        self.strata_cache = kept;
        dirty
    }

    /// Forgets the uploaded batches (every stratum is uploaded anew by the
    /// next cached render).
    pub fn clear_strata_cache(&mut self)
        ensures
            final(self).strata_cache@.len() == 0,
            final(self).target_size == old(self).target_size,
            final(self).last_glyph_revision == old(self).last_glyph_revision,
    {
        self.strata_cache = Vec::new();
    }
}

/// A glyph atlas revision that was uploaded is not uploaded again until the
/// atlas changes; a render without upload changes nothing about uploads.
pub proof fn lemma_uploaded_revision_is_not_uploaded_again(r: HeadlessRenderer, revision: u64, other: u64)
    ensures
        !spec_needs_glyph_upload(spec_after_glyph_upload(r, revision, true), revision),
        other != revision ==> spec_needs_glyph_upload(spec_after_glyph_upload(r, revision, true), other),
        spec_needs_glyph_upload(spec_after_glyph_upload(r, revision, false), other)
            == spec_needs_glyph_upload(r, other),
{
}

} // verus!
