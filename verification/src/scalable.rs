//! Rasterized-font atlas geometry: fitting a ramp's glyph boxes into a cell
//! and copying glyph bitmaps into their tiles without leaving them.

use vstd::prelude::*;
use vstd::string::StrSliceExecFns;
use crate::clock::{elapsed_nanos, now};
use std::time::Instant;
use crate::font::{atlas_len, char_debug, char_debug_text, FontError, GlyphAtlas};
use crate::frame::{try_reserve_exact_bytes, zeros};
use crate::ft::{
    bitmap_bytes, bitmap_left, bitmap_mode, bitmap_pitch, bitmap_rows, bitmap_top, bitmap_width,
    char_index, family_name, init_library, is_fixed_width, is_scalable, load_outline, memory_face,
    render_loaded, set_pixel_size, size_metrics, style_name, BitmapMode, LoadedFace,
};
use crate::text::{cat, decimal, padded_hex_text, padded_hex_upper};

verus! {

/// What building a scalable-font atlas reports.
#[derive(Debug)]
pub struct FontDiagnostics {
    pub family: String,
    pub style: String,
    pub version: (i32, i32, i32),
    pub pixel_size: u32,
    pub baseline: i32,
    /// Time spent reading and validating the face, in nanoseconds.
    pub load_wall_nanos: u128,
    /// Time spent fitting and rasterizing, in nanoseconds.
    pub build_wall_nanos: u128,
}

/// `|pitch|`.
pub open spec fn pitch_abs(pitch: i32) -> nat {
    if pitch < 0 { (-(pitch as int)) as nat } else { pitch as nat }
}

/// The row of a bitmap stored at display row `y`: a negative pitch stores
/// the bottom row first.
pub open spec fn stored_row(y: nat, rows: nat, pitch: i32) -> nat {
    if pitch < 0 { (rows - 1 - y) as nat } else { y }
}

/// Byte offset of display row `y` in a bitmap of `rows` rows.
pub fn bitmap_row_offset(y: usize, rows: usize, pitch: i32) -> (r: usize)
    requires
        y < rows,
        stored_row(y as nat, rows as nat, pitch) * pitch_abs(pitch) <= usize::MAX,
    ensures
        r == stored_row(y as nat, rows as nat, pitch) * pitch_abs(pitch),
{
    let row: usize = if pitch < 0 { rows - 1 - y } else { y };
    let magnitude: usize = if pitch < 0 {
        if pitch == i32::MIN { 2147483648usize } else { (-pitch) as usize }
    } else {
        pitch as usize
    };
    row * magnitude
}

/// Whether `(x, y)` lies in a `width` x `height` tile; the bounds are
/// compared as `i32`, as the pixels' coordinates are.
pub open spec fn in_tile(x: i32, y: i32, width: u32, height: u32) -> bool {
    0 <= x && 0 <= y && x < (width as i32) && y < (height as i32)
}

/// Offset of `(x, y)` within a tile of `width` x `height`, if it lies in it.
pub fn tile_offset(x: i32, y: i32, width: u32, height: u32) -> (r: Option<usize>)
    requires
        in_tile(x, y, width, height) ==> (y as int) * (width as int) + (x as int) <= usize::MAX,
    ensures
        r == (if in_tile(x, y, width, height) { Some(((y as int) * (width as int) + (x as int)) as usize) } else { None }),
{
    let w = width as i32;
    let h = height as i32;
    if x >= 0 && y >= 0 && x < w && y < h {
        proof {
            assert((y as int) * (width as int) >= 0) by (nonlinear_arith)
                requires y >= 0;
        }
        Some(y as usize * width as usize + x as usize)
    } else {
        None
    }
}

/// A rendered glyph as plain values: bearings, size, row pitch (negative
/// when the bottom row is stored first), whether it holds one bit per
/// pixel (most significant bit leftmost) rather than one byte, and its bytes.
#[derive(Clone, Debug)]
pub struct GlyphBitmap {
    pub left: i32,
    pub top: i32,
    pub width: u32,
    pub rows: u32,
    pub pitch: i32,
    pub mono: bool,
    pub buffer: Vec<u8>,
}

/// Bytes one row of pixels takes.
pub open spec fn row_bytes_spec(b: GlyphBitmap) -> nat {
    if b.mono { ((b.width + 7) / 8) as nat } else { b.width as nat }
}

/// Each row fits its pitch and the bytes hold every row.
pub open spec fn bitmap_ok(b: GlyphBitmap) -> bool {
    &&& row_bytes_spec(b) <= pitch_abs(b.pitch)
    &&& pitch_abs(b.pitch) * b.rows <= b.buffer@.len()
}

/// Coverage of pixel `(x, y)` of the glyph: its byte, or 255 / 0 for a set /
/// clear bit.
pub open spec fn coverage_at(b: GlyphBitmap, x: int, y: int) -> u8 {
    let row = stored_row(y as nat, b.rows as nat, b.pitch) * pitch_abs(b.pitch);
    if b.mono {
        if b.buffer@[row + x / 8] & (0x80u8 >> ((x % 8) as u8)) != 0 { 255u8 } else { 0u8 }
    } else {
        b.buffer@[row + x]
    }
}

/// The glyph pixel drawn at offset `k` of a tile `width` wide, when the
/// glyph's origin sits at column `origin` and its baseline at row `baseline`.
pub open spec fn blit_source(b: GlyphBitmap, origin: i32, baseline: i32, width: u32, k: int) -> Option<(int, int)> {
    let x = k % (width as int) - origin - b.left;
    let y = k / (width as int) - baseline + b.top;
    if 0 <= x < b.width && 0 <= y < b.rows { Some((x, y)) } else { None }
}

/// The byte at tile offset `k` once glyph rows before `rows_done`, and
/// `cols_done` pixels of row `rows_done`, are drawn over `before`.
pub open spec fn blitted(b: GlyphBitmap, origin: i32, baseline: i32, width: u32, k: int, before: u8, rows_done: int, cols_done: int) -> u8 {
    match blit_source(b, origin, baseline, width, k) {
        Some((x, y)) => if y < rows_done || (y == rows_done && x < cols_done) { coverage_at(b, x, y) } else { before },
        None => before,
    }
}

proof fn lemma_row_in_buffer(b: GlyphBitmap, y: nat, x: nat)
    requires
        bitmap_ok(b),
        y < b.rows,
        x < row_bytes_spec(b),
    ensures
        stored_row(y, b.rows as nat, b.pitch) * pitch_abs(b.pitch) + x < b.buffer@.len(),
{
    let r = stored_row(y, b.rows as nat, b.pitch);
    let p = pitch_abs(b.pitch);
    assert(r + 1 <= b.rows);
    assert(r * p + p <= b.rows * p) by (nonlinear_arith)
        requires r + 1 <= b.rows;
    assert(b.rows * p == p * b.rows) by (nonlinear_arith);
}

proof fn lemma_tile_position(k: int, w: int, dx: int, dy: int)
    requires
        w > 0,
        0 <= dx < w,
        k == dy * w + dx,
    ensures
        k % w == dx,
        k / w == dy,
{
    vstd::arithmetic::div_mod::lemma_fundamental_div_mod_converse(k, w, dy, dx);
}

proof fn lemma_tile_unique(k: int, w: int, dx: int, dy: int)
    requires
        w > 0,
        k >= 0,
        k % w == dx,
        k / w == dy,
    ensures
        k == dy * w + dx,
{
    vstd::arithmetic::div_mod::lemma_fundamental_div_mod(k, w);
    assert(w * (k / w) == (k / w) * w) by (nonlinear_arith);
}

proof fn lemma_tile_row_bound(k: int, w: int, h: int)
    requires
        w > 0,
        h > 0,
        0 <= k < w * h,
    ensures
        0 <= k / w < h,
        0 <= k % w < w,
{
    vstd::arithmetic::div_mod::lemma_fundamental_div_mod(k, w);
    assert(0 <= k / w) by (nonlinear_arith) requires k >= 0, w > 0;
    assert(k / w < h) by (nonlinear_arith) requires 0 <= k < w * h, w > 0, k == w * (k / w) + k % w, 0 <= k % w;
}

/// Draws a glyph into the tile at `base`: every glyph pixel that lands
/// inside the `width` x `height` tile overwrites its byte; nothing outside
/// the tile changes.
pub fn blit_glyph(pixels: &mut Vec<u8>, base: usize, width: u32, height: u32, bitmap: &GlyphBitmap, origin: i32, baseline: i32)
    requires
        0 < width <= 4096,
        0 < height <= 4096,
        base + width * height <= old(pixels)@.len(),
        bitmap_ok(*bitmap),
    ensures
        final(pixels)@.len() == old(pixels)@.len(),
        forall|i: int| 0 <= i < old(pixels)@.len() ==> #[trigger] final(pixels)@[i] == (
            if base <= i < base + width * height {
                blitted(*bitmap, origin, baseline, width, i - base, old(pixels)@[i], bitmap.rows as int, 0)
            } else {
                old(pixels)@[i]
            }),
{
    let ghost before = pixels@;
    let ghost tile = width * height;
    let buffer_len = bitmap.buffer.len();
    let pixels_len = pixels.len();
    let mut y: u32 = 0;
    while y < bitmap.rows
        invariant
            0 < width <= 4096,
            0 < height <= 4096,
            tile == width * height,
            base + tile <= before.len(),
            pixels_len == before.len(),
            buffer_len == bitmap.buffer@.len(),
            bitmap_ok(*bitmap),
            y <= bitmap.rows,
            pixels@.len() == before.len(),
            forall|i: int| 0 <= i < before.len() ==> #[trigger] pixels@[i] == (
                if base <= i < base + tile {
                    blitted(*bitmap, origin, baseline, width, i - base, before[i], y as int, 0)
                } else {
                    before[i]
                }),
        decreases bitmap.rows - y,
    {
        proof {
            assert(pitch_abs(bitmap.pitch) * bitmap.rows <= bitmap.buffer@.len());
            assert(stored_row(y as nat, bitmap.rows as nat, bitmap.pitch) * pitch_abs(bitmap.pitch)
                <= pitch_abs(bitmap.pitch) * bitmap.rows) by (nonlinear_arith)
                requires stored_row(y as nat, bitmap.rows as nat, bitmap.pitch) < bitmap.rows;
        }
        let row_offset = bitmap_row_offset(y as usize, bitmap.rows as usize, bitmap.pitch);
        let mut x: u32 = 0;
        while x < bitmap.width
            invariant
                0 < width <= 4096,
                0 < height <= 4096,
                tile == width * height,
                base + tile <= before.len(),
                pixels_len == before.len(),
                buffer_len == bitmap.buffer@.len(),
                bitmap_ok(*bitmap),
                y < bitmap.rows,
                x <= bitmap.width,
                row_offset == stored_row(y as nat, bitmap.rows as nat, bitmap.pitch) * pitch_abs(bitmap.pitch),
                pixels@.len() == before.len(),
                forall|i: int| 0 <= i < before.len() ==> #[trigger] pixels@[i] == (
                    if base <= i < base + tile {
                        blitted(*bitmap, origin, baseline, width, i - base, before[i], y as int, x as int)
                    } else {
                        before[i]
                    }),
            decreases bitmap.width - x,
        {
            let coverage: u8 = if bitmap.mono {
                proof {
                    assert((x / 8) < row_bytes_spec(*bitmap));
                    lemma_row_in_buffer(*bitmap, y as nat, (x / 8) as nat);
                }
                let byte = bitmap.buffer[row_offset + (x / 8) as usize];
                if byte & (0x80u8 >> ((x % 8) as u8)) != 0 { 255 } else { 0 }
            } else {
                proof { lemma_row_in_buffer(*bitmap, y as nat, x as nat); }
                bitmap.buffer[row_offset + x as usize]
            };
            proof {
                assert(coverage == coverage_at(*bitmap, x as int, y as int));
            }
            let dx: i64 = origin as i64 + bitmap.left as i64 + x as i64;
            let dy: i64 = baseline as i64 - bitmap.top as i64 + y as i64;
            let ghost old_pixels = pixels@;
            if 0 <= dx && dx < width as i64 && 0 <= dy && dy < height as i64 {
                proof {
                    assert(dy * width + dx < 4096 * 4096) by (nonlinear_arith)
                        requires 0 <= dx < width, 0 <= dy < height, width <= 4096, height <= 4096;
                    assert(dy * width + dx < width * height) by (nonlinear_arith)
                        requires 0 <= dx < width, 0 <= dy < height;
                }
                let offset = match tile_offset(dx as i32, dy as i32, width, height) {
                    Some(o) => o,
                    None => 0,
                };
                proof {
                    let k = dy * width + dx;
                    assert(offset == k);
                    lemma_tile_position(k as int, width as int, dx as int, dy as int);
                    assert(blit_source(*bitmap, origin, baseline, width, k as int) == Some((x as int, y as int)));
                }
                pixels.set(base + offset, coverage);
                proof {
                    assert forall|i: int| 0 <= i < before.len() implies #[trigger] pixels@[i] == (
                        if base <= i < base + tile {
                            blitted(*bitmap, origin, baseline, width, i - base, before[i], y as int, x + 1)
                        } else {
                            before[i]
                        }) by {
                        if base <= i < base + tile && i != base + offset {
                            let k = i - base;
                            lemma_tile_row_bound(k, width as int, height as int);
                            if blit_source(*bitmap, origin, baseline, width, k) == Some((x as int, y as int)) {
                                lemma_tile_unique(k, width as int, dx as int, dy as int);
                                assert(false);
                            }
                            assert(old_pixels[i] == blitted(*bitmap, origin, baseline, width, k, before[i], y as int, x as int));
                        }
                    }
                }
            } else {
                proof {
                    assert forall|i: int| 0 <= i < before.len() implies #[trigger] pixels@[i] == (
                        if base <= i < base + tile {
                            blitted(*bitmap, origin, baseline, width, i - base, before[i], y as int, x + 1)
                        } else {
                            before[i]
                        }) by {
                        if base <= i < base + tile {
                            let k = i - base;
                            lemma_tile_row_bound(k, width as int, height as int);
                            if blit_source(*bitmap, origin, baseline, width, k) == Some((x as int, y as int)) {
                                assert(false);
                            }
                        }
                    }
                }
            }
            x = x + 1;
        }
        proof {
            assert forall|i: int| 0 <= i < before.len() implies #[trigger] pixels@[i] == (
                if base <= i < base + tile {
                    blitted(*bitmap, origin, baseline, width, i - base, before[i], y + 1, 0)
                } else {
                    before[i]
                }) by {
                if base <= i < base + tile {
                    let k = i - base;
                    lemma_tile_row_bound(k, width as int, height as int);
                }
            }
        }
        y = y + 1;
    }
}

/// Pixel extent of a ramp at one size, relative to the pen position on the
/// baseline: columns `left..right`, rows from `top` down to `bottom`.
#[derive(Clone, Copy, Debug, PartialEq, Eq, Structural)]
pub struct GlyphBox {
    pub left: i128,
    pub right: i128,
    pub top: i128,
    pub bottom: i128,
}

/// Rust's `/` on integers: rounds toward zero.
pub open spec fn trunc_div(a: int, d: int) -> int {
    if a >= 0 { a / d } else { -((-a) / d) }
}

/// The box the size metrics alone give (26.6 fixed point to pixels): no
/// left bearing, the maximal advance and ascender rounded up, the descender
/// rounded down.
pub open spec fn metrics_box_spec(max_advance: i64, ascender: i64, descender: i64) -> GlyphBox {
    GlyphBox {
        left: 0,
        right: trunc_div(max_advance + 63, 64) as i128,
        top: trunc_div(ascender + 63, 64) as i128,
        bottom: (descender as int / 64) as i128,
    }
}

/// Each bound within `2^64` pixels of the pen.
pub open spec fn box_bounded(b: GlyphBox) -> bool {
    &&& -0x1_0000_0000_0000_0000 <= b.left <= 0x1_0000_0000_0000_0000
    &&& -0x1_0000_0000_0000_0000 <= b.right <= 0x1_0000_0000_0000_0000
    &&& -0x1_0000_0000_0000_0000 <= b.top <= 0x1_0000_0000_0000_0000
    &&& -0x1_0000_0000_0000_0000 <= b.bottom <= 0x1_0000_0000_0000_0000
}

fn trunc_div_64(a: i128) -> (q: i128)
    requires
        -0x1_0000_0000_0000_0000_0000 <= a <= 0x1_0000_0000_0000_0000_0000,
    ensures
        q == trunc_div(a as int, 64),
{
    if a >= 0 {
        ((a as u128) / 64) as i128
    } else {
        let magnitude: u128 = (-a) as u128;
        -((magnitude / 64) as i128)
    }
}

/// The box the selected size's metrics give.
pub fn metrics_box(max_advance: i64, ascender: i64, descender: i64) -> (b: GlyphBox)
    ensures
        b == metrics_box_spec(max_advance, ascender, descender),
        box_bounded(b),
{
    let right = trunc_div_64(max_advance as i128 + 63);
    let top = trunc_div_64(ascender as i128 + 63);
    let bottom: i128 = if descender >= 0 {
        ((descender as u128) / 64) as i128
    } else {
        let magnitude: u128 = (-(descender as i128)) as u128;
        let q = (magnitude + 63) / 64;
        proof {
            let d = descender as int;
            assert(-((magnitude as int + 63) / 64) == d / 64) by (nonlinear_arith)
                requires d < 0, magnitude as int == -d;
        }
        -(q as i128)
    };
    GlyphBox { left: 0, right, top, bottom }
}

/// `b` grown to cover a glyph with the given bearings and size.
pub open spec fn extended(b: GlyphBox, left: i32, top: i32, width: i32, rows: i32) -> GlyphBox {
    GlyphBox {
        left: if (left as int) < b.left { left as i128 } else { b.left },
        right: if (left + width) > b.right { (left + width) as i128 } else { b.right },
        top: if (top as int) > b.top { top as i128 } else { b.top },
        bottom: if (top - rows) < b.bottom { (top - rows) as i128 } else { b.bottom },
    }
}

/// Grows `b` to cover a rendered glyph.
pub fn extend_box(b: GlyphBox, left: i32, top: i32, width: i32, rows: i32) -> (r: GlyphBox)
    ensures
        r == extended(b, left, top, width, rows),
        box_bounded(b) ==> box_bounded(r),
{
    let right_edge: i128 = left as i128 + width as i128;
    let bottom_edge: i128 = top as i128 - rows as i128;
    GlyphBox {
        left: if (left as i128) < b.left { left as i128 } else { b.left },
        right: if right_edge > b.right { right_edge } else { b.right },
        top: if (top as i128) > b.top { top as i128 } else { b.top },
        bottom: if bottom_edge < b.bottom { bottom_edge } else { b.bottom },
    }
}

/// The box fits a `width` x `height` cell and is not empty.
pub open spec fn box_fits(b: GlyphBox, width: u32, height: u32) -> bool {
    b.right > b.left && b.top > b.bottom && b.right - b.left <= width && b.top - b.bottom <= height
}

/// Pen column and baseline row that center the box in the cell.
pub open spec fn centered(b: GlyphBox, width: u32, height: u32) -> (i32, i32) {
    ((((width - (b.right - b.left)) / 2 - b.left) as i32), (((height - (b.top - b.bottom)) / 2 + b.top) as i32))
}

/// Where to put the pen and baseline so the box sits centered in the cell,
/// if it fits.
pub fn fit_cell(b: GlyphBox, width: u32, height: u32) -> (r: Option<(i32, i32)>)
    requires
        box_bounded(b),
    ensures
        r == (if box_fits(b, width, height) { Some(centered(b, width, height)) } else { None }),
{
    let span_x: i128 = b.right - b.left;
    let span_y: i128 = b.top - b.bottom;
    if b.right > b.left && b.top > b.bottom && span_x <= width as i128 && span_y <= height as i128 {
        let free_x: u128 = (width as i128 - span_x) as u128;
        let free_y: u128 = (height as i128 - span_y) as u128;
        let origin: i128 = (free_x / 2) as i128 - b.left;
        let baseline: i128 = (free_y / 2) as i128 + b.top;
        Some((origin as i32, baseline as i32))
    } else {
        None
    }
}

/// The largest font file read, in bytes.
pub const MAX_FONT_BYTES: usize = 33554432;

/// A failure of `operation` on the font at `path`.
pub open spec fn font_failure_of(e: FontError, path: Seq<char>, operation: Seq<char>, detail: Seq<char>) -> bool {
    e matches FontError::Font { path: p, operation: o, detail: d } && p@ == path && o@ == operation && d@ == detail
}

fn font_failure(path: &str, operation: &str, detail: String) -> (e: FontError)
    ensures
        font_failure_of(e, path@, operation@, detail@),
{
    FontError::Font { path: String::from_str(path), operation: String::from_str(operation), detail }
}

/// `missing glyph {c:?} (U+{code:04X})`.
pub open spec fn missing_glyph_text(c: char) -> Seq<char> {
    "missing glyph "@ + char_debug_text(c) + " (U+"@ + padded_hex_text(c as nat, 4) + ")"@
}

fn missing_glyph(c: char) -> (s: String)
    ensures
        s@ == missing_glyph_text(c),
{
    proof {
        reveal_strlit("missing glyph ");
        reveal_strlit(" (U+");
        reveal_strlit(")");
    }
    let debug = char_debug(c);
    let mut s = cat("missing glyph ", debug.as_str());
    s.append(" (U+");
    let code = padded_hex_upper(c as u32, 4);
    s.append(code.as_str());
    s.append(")");
    s
}

/// Two bitmaps with the same geometry and bytes draw the same pixels.
proof fn lemma_blitted_same(a: GlyphBitmap, b: GlyphBitmap, origin: i32, baseline: i32, width: u32, k: int, before: u8)
    requires
        a.left == b.left,
        a.top == b.top,
        a.width == b.width,
        a.rows == b.rows,
        a.pitch == b.pitch,
        a.mono == b.mono,
        a.buffer@ == b.buffer@,
    ensures
        blitted(a, origin, baseline, width, k, before, a.rows as int, 0)
            == blitted(b, origin, baseline, width, k, before, b.rows as int, 0),
{
    assert(blit_source(a, origin, baseline, width, k) == blit_source(b, origin, baseline, width, k));
    if let Some((x, y)) = blit_source(a, origin, baseline, width, k) {
        assert(coverage_at(a, x, y) == coverage_at(b, x, y));
    }
}

/// What FreeType handed back for one rendered glyph, as plain values: its
/// bearings, size, row pitch, pixel mode and bitmap bytes, with the face
/// index, glyph index and pixel size it was rendered from.
pub struct RenderedGlyph {
    pub face_index: isize,
    pub glyph_index: u32,
    pub pixel_size: u32,
    pub left: i32,
    pub top: i32,
    pub width: i32,
    pub rows: i32,
    pub pitch: i32,
    pub mode: core::result::Result<BitmapMode, String>,
    pub buffer: Vec<u8>,
}

/// A tile that stays empty: a space, or a glyph without pixels.
pub open spec fn tile_blank(character: char, g: RenderedGlyph) -> bool {
    character == ' ' || g.width == 0 || g.rows == 0
}

/// The bitmap a rendered glyph is drawn from.
pub open spec fn glyph_bitmap_of(g: RenderedGlyph) -> GlyphBitmap {
    GlyphBitmap {
        left: g.left,
        top: g.top,
        width: g.width as u32,
        rows: g.rows as u32,
        pitch: g.pitch,
        mono: g.mode matches Ok(BitmapMode::Mono),
        buffer: g.buffer,
    }
}

/// Why a glyph cannot be drawn, as `(operation, detail)`: an unreadable or
/// unsupported pixel mode, or rows that do not fit the pitch and bytes.
pub open spec fn draw_failure(character: char, g: RenderedGlyph) -> Option<(Seq<char>, Seq<char>)> {
    if tile_blank(character, g) {
        None
    } else {
        match g.mode {
            Err(e) => Some(("read bitmap mode"@, e@)),
            Ok(BitmapMode::Other(name)) => Some(("validate bitmap mode"@, "unsupported pixel mode "@ + name@)),
            Ok(_) => if bitmap_ok(glyph_bitmap_of(g)) {
                None
            } else {
                Some(("validate bitmap storage"@, "invalid bitmap pitch/buffer"@))
            },
        }
    }
}

/// `before` with glyph `g` drawn into tile `tile` of `width` x `height`
/// tiles, its origin at column `origin` and its baseline at row `baseline`.
pub open spec fn tile_drawn(before: Seq<u8>, tile: nat, width: u32, height: u32, character: char, g: RenderedGlyph, origin: i32, baseline: i32) -> Seq<u8> {
    if tile_blank(character, g) {
        before
    } else {
        let base = tile * (width * height);
        Seq::new(before.len(), |i: int|
            if base <= i < base + width * height {
                blitted(glyph_bitmap_of(g), origin, baseline, width, i - base, before[i], g.rows as u32 as int, 0)
            } else {
                before[i]
            })
    }
}

/// `pixels` with the glyph of each character of `chars` drawn into the tile
/// of the same index, in order.
pub open spec fn ramp_image(pixels: Seq<u8>, width: u32, height: u32, chars: Seq<char>, glyphs: Seq<RenderedGlyph>, origin: i32, baseline: i32) -> Seq<u8>
    decreases chars.len(),
{
    if chars.len() == 0 {
        pixels
    } else {
        tile_drawn(
            ramp_image(pixels, width, height, chars.drop_last(), glyphs.drop_last(), origin, baseline),
            (chars.len() - 1) as nat, width, height, chars.last(), glyphs[chars.len() - 1], origin, baseline,
        )
    }
}

/// The size search: counting down from the cell height, the common glyph box
/// measured at every size above `size` did not fit the cell, and the box
/// measured at `size` fits, centered by `origin` and `baseline`.
pub open spec fn size_search(boxes: Seq<GlyphBox>, width: u32, height: u32, size: u32, origin: i32, baseline: i32) -> bool {
    &&& 1 <= size <= height
    &&& boxes.len() == height - size + 1
    &&& forall|k: int| 0 <= k < boxes.len() - 1 ==> !box_fits(#[trigger] boxes[k], width, height)
    &&& box_fits(boxes.last(), width, height)
    &&& centered(boxes.last(), width, height) == (origin, baseline)
}

/// `pixels` is the atlas drawn from `glyphs`, one per character of `chars`
/// and in the same order, over a zero background; every glyph could be drawn.
pub open spec fn atlas_drawn(pixels: Seq<u8>, width: u32, height: u32, chars: Seq<char>, glyphs: Seq<RenderedGlyph>, origin: i32, baseline: i32) -> bool {
    &&& glyphs.len() == chars.len()
    &&& pixels == ramp_image(zeros(pixels.len()), width, height, chars, glyphs, origin, baseline)
    &&& forall|t: int| 0 <= t < chars.len() ==> (#[trigger] draw_failure(chars[t], glyphs[t])) is None
}

/// Every glyph was rendered from face `face_index` at `pixel_size` pixels.
pub open spec fn rendered_from(glyphs: Seq<RenderedGlyph>, face_index: isize, pixel_size: u32) -> bool {
    forall|t: int| 0 <= t < glyphs.len() ==>
        (#[trigger] glyphs[t]).face_index == face_index && glyphs[t].pixel_size == pixel_size
}

/// Draws one rendered glyph into tile `tile` of the atlas: nothing for a
/// space or a glyph without pixels; otherwise the glyph, once its pixel mode
/// and storage are checked. A glyph that cannot be drawn leaves the atlas as
/// it was and fails with the reason.
pub fn draw_tile(
    pixels: &mut Vec<u8>,
    tile: usize,
    width: u32,
    height: u32,
    character: char,
    glyph: &RenderedGlyph,
    origin: i32,
    baseline: i32,
    path: &str,
) -> (r: Result<(), FontError>)
    requires
        0 < width <= 4096,
        0 < height <= 4096,
        (tile + 1) * (width * height) <= old(pixels)@.len(),
    ensures
        draw_failure(character, *glyph) matches Some((operation, detail)) ==> (r matches Err(f)
            && font_failure_of(f, path@, operation, detail) && final(pixels)@ == old(pixels)@),
        draw_failure(character, *glyph) is None ==> (r is Ok
            && final(pixels)@ == tile_drawn(old(pixels)@, tile as nat, width, height, character, *glyph, origin, baseline)),
{
    proof {
        reveal_strlit("read bitmap mode");
        reveal_strlit("validate bitmap mode");
        reveal_strlit("unsupported pixel mode ");
        reveal_strlit("validate bitmap storage");
        reveal_strlit("invalid bitmap pitch/buffer");
    }
    if character == ' ' || glyph.width == 0 || glyph.rows == 0 {
        return Ok(());
    }
    let mono = match &glyph.mode {
        Err(e) => return Err(font_failure(path, "read bitmap mode", e.clone())),
        Ok(BitmapMode::Mono) => true,
        Ok(BitmapMode::Gray) => false,
        Ok(BitmapMode::Other(name)) => {
            let m = cat("unsupported pixel mode ", name.as_str());
            return Err(font_failure(path, "validate bitmap mode", m));
        },
    };
    let buffer = glyph.buffer.clone();
    proof { assert(buffer@ =~= glyph.buffer@); }
    let bitmap = GlyphBitmap {
        left: glyph.left,
        top: glyph.top,
        width: glyph.width as u32,
        rows: glyph.rows as u32,
        pitch: glyph.pitch,
        mono,
        buffer,
    };
    let magnitude: u64 = if bitmap.pitch < 0 {
        if bitmap.pitch == i32::MIN { 2147483648u64 } else { (-bitmap.pitch) as u64 }
    } else {
        bitmap.pitch as u64
    };
    let row_bytes: u64 = if mono { (bitmap.width as u64 + 7) / 8 } else { bitmap.width as u64 };
    proof {
        assert(magnitude == pitch_abs(bitmap.pitch));
        assert(magnitude * bitmap.rows <= 0x8000_0000u64 * 0xffff_ffffu64) by (nonlinear_arith)
            requires magnitude <= 0x8000_0000u64, bitmap.rows <= 0xffff_ffffu64;
    }
    if magnitude < row_bytes || magnitude * (bitmap.rows as u64) > bitmap.buffer.len() as u64 {
        return Err(font_failure(path, "validate bitmap storage", String::from_str("invalid bitmap pitch/buffer")));
    }
    proof {
        assert(width * height <= 4096 * 4096) by (nonlinear_arith) requires width <= 4096, height <= 4096;
    }
    let tile_len: usize = width as usize * height as usize;
    proof {
        assert(tile * tile_len + tile_len == (tile + 1) * tile_len) by (nonlinear_arith);
        assert(tile * tile_len >= 0) by (nonlinear_arith) requires tile >= 0, tile_len >= 0;
        assert(tile * tile_len <= pixels@.len());
    }
    let ghost before = pixels@;
    let pixels_len = pixels.len();
    assert(tile * tile_len <= pixels_len);
    let base: usize = tile * tile_len;
    blit_glyph(pixels, base, width, height, &bitmap, origin, baseline);
    proof {
        let g = glyph_bitmap_of(*glyph);
        assert forall|k: int, b: u8| blitted(bitmap, origin, baseline, width, k, b, bitmap.rows as int, 0)
            == #[trigger] blitted(g, origin, baseline, width, k, b, g.rows as int, 0) by {
            lemma_blitted_same(bitmap, g, origin, baseline, width, k, b);
        }
        assert(pixels@ =~= tile_drawn(before, tile as nat, width, height, character, *glyph, origin, baseline));
    }
    Ok(())
}

proof fn lemma_tile_in_atlas(tile: int, count: int, tile_len: int)
    requires
        0 <= tile < count,
        tile_len >= 0,
    ensures
        tile * tile_len + tile_len <= count * tile_len,
        tile * tile_len >= 0,
{
    assert(tile * tile_len + tile_len <= count * tile_len) by (nonlinear_arith)
        requires 0 <= tile < count, tile_len >= 0;
    assert(tile * tile_len >= 0) by (nonlinear_arith)
        requires 0 <= tile, tile_len >= 0;
}

/// Looks up, fits and draws every glyph of `ramp` with `face`.
fn rasterize_ramp(
    path: &str,
    face: &mut LoadedFace,
    ramp: &str,
    count: usize,
    width: u32,
    height: u32,
    length: usize,
    started: Instant,
) -> (r: Result<(GlyphAtlas, FontDiagnostics), FontError>)
    requires
        count == ramp@.len(),
        0 < width <= 4096,
        0 < height <= 4096,
        atlas_len(width, height, count) == Some(length as nat),
    ensures
        r matches Err(f) ==> f == FontError::AtlasTooLarge || (f matches FontError::Font { path: p, .. } && p@ == path@),
        r matches Ok((atlas, diagnostics)) ==> {
            &&& atlas.width_spec() == width
            &&& atlas.height_spec() == height
            &&& atlas.count() == ramp@.len()
            &&& 1 <= diagnostics.pixel_size <= height
            &&& diagnostics.version == (0i32, 0i32, 0i32)
            &&& exists|glyphs: Seq<RenderedGlyph>, boxes: Seq<GlyphBox>, origin: i32|
                #[trigger] atlas_drawn(atlas.pixels(), width, height, ramp@, glyphs, origin, diagnostics.baseline)
                && #[trigger] size_search(boxes, width, height, diagnostics.pixel_size, origin, diagnostics.baseline)
                && rendered_from(glyphs, old(face).index(), diagnostics.pixel_size)
        },
{
    proof {
        reveal_strlit("lookup glyph");
        reveal_strlit("set pixel size");
        reveal_strlit("read size metrics");
        reveal_strlit("missing metrics");
        reveal_strlit("load glyph outline");
        reveal_strlit("rasterize glyph");
        reveal_strlit("fit font metrics");
        reveal_strlit("cell ");
        reveal_strlit("x");
        reveal_strlit(" is too small for a common font baseline");
        reveal_strlit("allocate atlas");
        reveal_strlit("read bitmap mode");
        reveal_strlit("validate bitmap mode");
        reveal_strlit("unsupported pixel mode ");
        reveal_strlit("validate bitmap storage");
        reveal_strlit("invalid bitmap pitch/buffer");
    }
    let mut indices: Vec<u32> = Vec::new();
    let mut i: usize = 0;
    while i < count
        invariant
            count == ramp@.len(),
            i <= count,
            indices@.len() == i,
        decreases count - i,
    {
        let c = ramp.get_char(i);
        match char_index(face, c) {
            Some(index) => indices.push(index),
            None => return Err(font_failure(path, "lookup glyph", missing_glyph(c))),
        }
        i = i + 1;
    }
    let load_wall_nanos = elapsed_nanos(&started);
    let build_started = now();
    let mut selected: Option<(u32, i32, i32)> = None;
    let mut size: u32 = height;
    let ghost mut boxes: Seq<GlyphBox> = Seq::empty();
    while size >= 1
        invariant_except_break
            selected is None,
            boxes.len() == height - size,
        invariant
            size <= height,
            indices@.len() == count,
            face.index() == old(face).index(),
            forall|k: int| 0 <= k < height - size ==> !box_fits(#[trigger] boxes[k], width, height),
            selected matches Some((s, o, b)) ==> size_search(boxes, width, height, s, o, b) && face.pixel_size() == s,
        decreases size,
    {
        if let Err(e) = set_pixel_size(face, size) {
            return Err(font_failure(path, "set pixel size", e));
        }
        let (max_advance, ascender, descender) = match size_metrics(face) {
            Some(m) => m,
            None => return Err(font_failure(path, "read size metrics", String::from_str("missing metrics"))),
        };
        let mut bounds = metrics_box(max_advance, ascender, descender);
        let mut k: usize = 0;
        while k < indices.len()
            invariant
                k <= indices@.len(),
                box_bounded(bounds),
                face.index() == old(face).index(),
                face.pixel_size() == size,
            decreases indices@.len() - k,
        {
            if let Err(e) = load_outline(face, indices[k]) {
                return Err(font_failure(path, "load glyph outline", e));
            }
            if let Err(e) = render_loaded(face) {
                return Err(font_failure(path, "rasterize glyph", e));
            }
            bounds = extend_box(bounds, bitmap_left(face), bitmap_top(face), bitmap_width(face), bitmap_rows(face));
            k = k + 1;
        }
        let fitted = fit_cell(bounds, width, height);
        proof {
            boxes = boxes.push(bounds);
        }
        if let Some((origin, baseline)) = fitted {
            selected = Some((size, origin, baseline));
            proof {
                assert(size_search(boxes, width, height, size, origin, baseline));
            }
            break;
        }
        size = size - 1;
    }
    let (pixel_size, origin, baseline) = match selected {
        Some(v) => v,
        None => {
            let mut m = String::from_str("cell ");
            let w = decimal(width as u64);
            m.append(w.as_str());
            m.append("x");
            let h = decimal(height as u64);
            m.append(h.as_str());
            m.append(" is too small for a common font baseline");
            return Err(font_failure(path, "fit font metrics", m));
        },
    };
    let mut pixels: Vec<u8> = Vec::new();
    if let Err(e) = try_reserve_exact_bytes(&mut pixels, length) {
        return Err(font_failure(path, "allocate atlas", e));
    }
    pixels.resize(length, 0u8);
    let tile_len: usize = width as usize * height as usize;
    proof {
        assert(length == width * height * count);
        assert(width * height * count == (width * height) * count) by (nonlinear_arith);
        assert(tile_len * count == count * tile_len) by (nonlinear_arith);
    }
    proof {
        assert(pixels@ =~= zeros(length as nat));
        assert(ramp@.take(0) =~= Seq::<char>::empty());
    }
    let ghost mut glyphs: Seq<RenderedGlyph> = Seq::empty();
    let mut tile: usize = 0;
    while tile < count
        invariant
            count == ramp@.len(),
            indices@.len() == count,
            0 < width <= 4096,
            0 < height <= 4096,
            tile_len == width * height,
            pixels@.len() == length,
            length == count * tile_len,
            tile <= count,
            glyphs.len() == tile,
            face.index() == old(face).index(),
            face.pixel_size() == pixel_size,
            rendered_from(glyphs, old(face).index(), pixel_size),
            pixels@ == ramp_image(zeros(length as nat), width, height, ramp@.take(tile as int), glyphs, origin, baseline),
            forall|t: int| 0 <= t < tile ==> (#[trigger] draw_failure(ramp@[t], glyphs[t])) is None,
        decreases count - tile,
    {
        if let Err(e) = load_outline(face, indices[tile]) {
            return Err(font_failure(path, "load glyph outline", e));
        }
        if let Err(e) = render_loaded(face) {
            return Err(font_failure(path, "rasterize glyph", e));
        }
        let character = ramp.get_char(tile);
        let (glyph_index, glyph_size) = face.rendered_glyph().unwrap();
        let glyph = RenderedGlyph {
            face_index: face.face_index(),
            glyph_index,
            pixel_size: glyph_size,
            left: bitmap_left(face),
            top: bitmap_top(face),
            width: bitmap_width(face),
            rows: bitmap_rows(face),
            pitch: bitmap_pitch(face),
            mode: bitmap_mode(face),
            buffer: bitmap_bytes(face),
        };
        proof {
            lemma_tile_in_atlas(tile as int, count as int, tile_len as int);
            assert((tile + 1) * tile_len == tile * tile_len + tile_len) by (nonlinear_arith);
        }
        let ghost before = pixels@;
        draw_tile(&mut pixels, tile, width, height, character, &glyph, origin, baseline, path)?;
        proof {
            let chars = ramp@.take(tile as int + 1);
            assert(chars.drop_last() =~= ramp@.take(tile as int));
            assert(glyphs.push(glyph).drop_last() =~= glyphs);
            assert(chars.last() == character);
            glyphs = glyphs.push(glyph);
            assert(pixels@ == ramp_image(zeros(length as nat), width, height, chars, glyphs, origin, baseline));
        }
        tile = tile + 1;
    }
    proof {
        assert(ramp@.take(count as int) =~= ramp@);
    }
    let family = match family_name(face) {
        Some(f) => f,
        None => String::new(),
    };
    let style = match style_name(face) {
        Some(s) => s,
        None => String::new(),
    };
    let build_wall_nanos = elapsed_nanos(&build_started);
    let diagnostics = FontDiagnostics {
        family,
        style,
        version: (0, 0, 0),
        pixel_size,
        baseline,
        load_wall_nanos,
        build_wall_nanos,
    };
    let ghost drawn = pixels@;
    let atlas = GlyphAtlas::from_r8(width, height, count, pixels)?;
    proof {
        assert(drawn.len() == length);
        assert(atlas.pixels() == drawn);
        assert(atlas_drawn(atlas.pixels(), width, height, ramp@, glyphs, origin, diagnostics.baseline));
        assert(size_search(boxes, width, height, diagnostics.pixel_size, origin, diagnostics.baseline));
        assert(rendered_from(glyphs, old(face).index(), diagnostics.pixel_size));
    }
    Ok((atlas, diagnostics))
}

/// Builds an atlas of `width` x `height` tiles, one per character of
/// `ramp`, from a scalable monospaced face of the font whose file `path`
/// was read as `font_bytes`. Geometry is checked before the font is looked
/// at; one pixel size is chosen for the whole ramp, the largest whose
/// common glyph box fits the cell, and every glyph is drawn centered on
/// that shared box and baseline: tile `t` holds the glyph rendered for the
/// `t`-th character. The diagnostics' version is left zero: it takes a
/// FreeType query the caller makes.
pub fn build_font_atlas(
    path: &str,
    font_bytes: core::result::Result<Vec<u8>, String>,
    face_index: isize,
    ramp: &str,
    width: u32,
    height: u32,
) -> (r: Result<(GlyphAtlas, FontDiagnostics), FontError>)
    ensures
        (atlas_len(width, height, ramp@.len() as usize) is None || width > 4096 || height > 4096)
            ==> r == Err::<(GlyphAtlas, FontDiagnostics), FontError>(FontError::AtlasTooLarge),
        !(atlas_len(width, height, ramp@.len() as usize) is None || width > 4096 || height > 4096) ==> {
            &&& font_bytes is Err ==> (r matches Err(f)
                && font_failure_of(f, path@, "read font file"@, font_bytes->Err_0@))
            &&& (font_bytes is Ok && font_bytes->Ok_0@.len() > MAX_FONT_BYTES) ==> (r matches Err(f)
                && font_failure_of(f, path@, "read font file"@, "font exceeds 32 MiB limit"@))
        },
        r matches Err(f) ==> f == FontError::AtlasTooLarge || (f matches FontError::Font { path: p, .. } && p@ == path@),
        r matches Ok((atlas, diagnostics)) ==> {
            &&& atlas.width_spec() == width
            &&& atlas.height_spec() == height
            &&& atlas.count() == ramp@.len()
            &&& 1 <= diagnostics.pixel_size <= height
            &&& diagnostics.version == (0i32, 0i32, 0i32)
            &&& exists|glyphs: Seq<RenderedGlyph>, boxes: Seq<GlyphBox>, origin: i32|
                #[trigger] atlas_drawn(atlas.pixels(), width, height, ramp@, glyphs, origin, diagnostics.baseline)
                && #[trigger] size_search(boxes, width, height, diagnostics.pixel_size, origin, diagnostics.baseline)
                && rendered_from(glyphs, face_index, diagnostics.pixel_size)
        },
{
    proof {
        reveal_strlit("read font file");
        reveal_strlit("font exceeds 32 MiB limit");
        reveal_strlit("initialize FreeType");
        reveal_strlit("load face");
        reveal_strlit("validate face");
        reveal_strlit("a scalable face is required");
        reveal_strlit("Stage 4.3 currently requires a monospaced font");
        reveal_strlit("lookup glyph");
        reveal_strlit("set pixel size");
        reveal_strlit("read size metrics");
        reveal_strlit("missing metrics");
        reveal_strlit("load glyph outline");
        reveal_strlit("rasterize glyph");
        reveal_strlit("fit font metrics");
        reveal_strlit("cell ");
        reveal_strlit("x");
        reveal_strlit(" is too small for a common font baseline");
        reveal_strlit("allocate atlas");
        reveal_strlit("read bitmap mode");
        reveal_strlit("validate bitmap mode");
        reveal_strlit("unsupported pixel mode ");
        reveal_strlit("validate bitmap storage");
        reveal_strlit("invalid bitmap pitch/buffer");
    }
    let count = ramp.unicode_len();
    let length = GlyphAtlas::checked_len(width, height, count)?;
    if width > 4096 || height > 4096 {
        return Err(FontError::AtlasTooLarge);
    }
    let started = now();
    let bytes = match font_bytes {
        Ok(b) => b,
        Err(e) => return Err(font_failure(path, "read font file", e)),
    };
    if bytes.len() > MAX_FONT_BYTES {
        return Err(font_failure(path, "read font file", String::from_str("font exceeds 32 MiB limit")));
    }
    let library = match init_library() {
        Ok(l) => l,
        Err(e) => return Err(font_failure(path, "initialize FreeType", e)),
    };
    let mut face = match memory_face(&library, bytes, face_index) {
        Ok(f) => f,
        Err(e) => return Err(font_failure(path, "load face", e)),
    };
    if !is_scalable(&face) {
        return Err(font_failure(path, "validate face", String::from_str("a scalable face is required")));
    }
    if !is_fixed_width(&face) {
        return Err(font_failure(path, "validate face", String::from_str("Stage 4.3 currently requires a monospaced font")));
    }
    rasterize_ramp(path, &mut face, ramp, count, width, height, length, started)
}

} // verus!
