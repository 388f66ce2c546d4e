//! Maps a host NV12 or P010LE frame to a grid of glyph cells: each cell
//! averages the luma and chroma samples it covers and picks a glyph for its
//! average luma.

use vstd::prelude::*;
use vstd::string::StrSliceExecFns;
use crate::error::{Error, Result, cpu_with};
use crate::frame::{FrameDesc, PixelFormat, VideoFrame, bytes_per_sample_spec};
use crate::glyph::{glyph_lookup_table, lemma_lut_below_count, lemma_lut_endpoints, lemma_lut_monotone, lut_entry};

verus! {

/// One output cell: glyph index and average Y, U and V codes.
#[derive(Clone, Copy, Debug, PartialEq, Eq, Structural)]
pub struct AsciiCell {
    pub glyph: u16,
    pub y: u16,
    pub u: u16,
    pub v: u16,
}

/// Cells in row-major order.
#[derive(Clone, Debug, PartialEq, Eq)]
pub struct CellGrid {
    pub width: u32,
    pub height: u32,
    pub cells: Vec<AsciiCell>,
}

/// Maps NV12 and P010LE host frames to ASCII cell grids.
pub struct Nv12Mapper {
    glyph_lut: [u32; 256],
}

/// Code value of sample `i` of a plane: one byte for NV12, the top ten bits
/// of a little-endian word for P010LE.
pub open spec fn sample(plane: Seq<u8>, format: PixelFormat, i: int) -> nat {
    match format {
        PixelFormat::Nv12 => plane[i] as nat,
        PixelFormat::P010Le => ((plane[2 * i] as nat) + 256 * (plane[2 * i + 1] as nat)) / 64,
    }
}

/// Samples `base + x0 .. base + x1`.
pub open spec fn row_sum(plane: Seq<u8>, format: PixelFormat, base: int, x0: int, x1: int) -> nat
    decreases x1 - x0,
{
    if x1 <= x0 {
        0
    } else {
        row_sum(plane, format, base, x0, x1 - 1) + sample(plane, format, base + x1 - 1)
    }
}

/// Samples of rows `y0 .. y1`, columns `x0 .. x1`.
pub open spec fn block_sum(plane: Seq<u8>, format: PixelFormat, stride: int, y0: int, y1: int, x0: int, x1: int) -> nat
    decreases y1 - y0,
{
    if y1 <= y0 {
        0
    } else {
        block_sum(plane, format, stride, y0, y1 - 1, x0, x1) + row_sum(plane, format, (y1 - 1) * stride, x0, x1)
    }
}

/// Samples `base + x0 + off`, `base + x0 + 2 + off`, ... (`n` of them).
pub open spec fn pair_sum(plane: Seq<u8>, format: PixelFormat, base: int, x0: int, n: int, off: int) -> nat
    decreases n,
{
    if n <= 0 {
        0
    } else {
        pair_sum(plane, format, base, x0, n - 1, off) + sample(plane, format, base + x0 + 2 * (n - 1) + off)
    }
}

/// Chroma samples of rows `y0 .. y1`.
pub open spec fn chroma_sum(plane: Seq<u8>, format: PixelFormat, stride: int, y0: int, y1: int, x0: int, n: int, off: int) -> nat
    decreases y1 - y0,
{
    if y1 <= y0 {
        0
    } else {
        chroma_sum(plane, format, stride, y0, y1 - 1, x0, n, off)
            + pair_sum(plane, format, (y1 - 1) * stride, x0, n, off)
    }
}

/// The `i`-th of `parts` slices of `0 .. total`, at least one wide.
pub open spec fn span(i: int, total: int, parts: int) -> (int, int) {
    let a = i * total / parts;
    let b = (i + 1) * total / parts;
    (a, if b > a + 1 { b } else { a + 1 })
}

/// Pixels covered by a cell.
pub open spec fn cell_pixels(desc: FrameDesc, gw: u32, gh: u32, cx: int, cy: int) -> int {
    let (x0, x1) = span(cx, desc.width as int, gw as int);
    let (y0, y1) = span(cy, desc.height as int, gh as int);
    (x1 - x0) * (y1 - y0)
}

pub open spec fn luma_plane(desc: FrameDesc, bytes: Seq<u8>) -> Seq<u8> {
    bytes.subrange(0, desc.y_len_spec() as int)
}

pub open spec fn chroma_plane(desc: FrameDesc, bytes: Seq<u8>) -> Seq<u8> {
    bytes.subrange(desc.y_len_spec() as int, bytes.len() as int)
}

/// Average luma of a cell.
pub open spec fn cell_luma(desc: FrameDesc, luma: Seq<u8>, gw: u32, gh: u32, cx: int, cy: int) -> nat {
    let (x0, x1) = span(cx, desc.width as int, gw as int);
    let (y0, y1) = span(cy, desc.height as int, gh as int);
    block_sum(luma, desc.format, desc.width as int, y0, y1, x0, x1) / cell_pixels(desc, gw, gh, cx, cy) as nat
}

/// The chroma block of a cell: first and last chroma row, first even
/// column, and number of sample pairs per row.
pub open spec fn chroma_block(desc: FrameDesc, gw: u32, gh: u32, cx: int, cy: int) -> (int, int, int, int) {
    let (x0, x1) = span(cx, desc.width as int, gw as int);
    let (y0, y1) = span(cy, desc.height as int, gh as int);
    let ux0 = x0 - x0 % 2;
    let end = if x1 + 1 < desc.width { x1 + 1 } else { desc.width as int };
    let ux1 = end - end % 2;
    (y0 / 2, (y1 + 1) / 2, ux0, (ux1 - ux0) / 2)
}

/// Average of one chroma component (`off` 0 for U, 1 for V), or neutral
/// chroma when the block is empty.
pub open spec fn cell_chroma(desc: FrameDesc, chroma: Seq<u8>, gw: u32, gh: u32, cx: int, cy: int, off: int) -> nat {
    let (uy0, uy1, ux0, n) = chroma_block(desc, gw, gh, cx, cy);
    let count = n * (uy1 - uy0);
    if count == 0 {
        match desc.format {
            PixelFormat::Nv12 => 128,
            PixelFormat::P010Le => 512,
        }
    } else {
        chroma_sum(chroma, desc.format, desc.width as int, uy0, uy1, ux0, n, off) / count as nat
    }
}

/// The cell at column `cx`, row `cy`, from the two planes.
pub open spec fn cell_of_planes(desc: FrameDesc, luma: Seq<u8>, chroma: Seq<u8>, gw: u32, gh: u32, lut: Seq<u32>, cx: int, cy: int) -> AsciiCell {
    let y = cell_luma(desc, luma, gw, gh, cx, cy);
    let glyph_luma = match desc.format {
        PixelFormat::Nv12 => y,
        PixelFormat::P010Le => y / 4,
    };
    AsciiCell {
        glyph: lut[glyph_luma as int] as u16,
        y: y as u16,
        u: cell_chroma(desc, chroma, gw, gh, cx, cy, 0) as u16,
        v: cell_chroma(desc, chroma, gw, gh, cx, cy, 1) as u16,
    }
}

/// The cell at column `cx`, row `cy` of a frame's bytes.
pub open spec fn cell_spec(desc: FrameDesc, bytes: Seq<u8>, gw: u32, gh: u32, lut: Seq<u32>, cx: int, cy: int) -> AsciiCell {
    cell_of_planes(desc, luma_plane(desc, bytes), chroma_plane(desc, bytes), gw, gh, lut, cx, cy)
}

/// The grid fits inside the frame.
pub open spec fn grid_fits(desc: FrameDesc, gw: u32, gh: u32) -> bool {
    gw != 0 && gh != 0 && gw <= desc.width && gh <= desc.height
}

/// Some cell covers more pixels than a 64-bit luma sum can hold.
pub open spec fn some_cell_too_large(desc: FrameDesc, gw: u32, gh: u32) -> bool {
    exists|cx: int, cy: int| 0 <= cx < gw && 0 <= cy < gh && #[trigger] cell_pixels(desc, gw, gh, cx, cy) > u64::MAX / 1023
}

/// What `Nv12Mapper::map` returns.
pub open spec fn map_outcome(r: Result<CellGrid>, desc: FrameDesc, bytes: Seq<u8>, gw: u32, gh: u32, lut: Seq<u32>) -> bool {
    if !grid_fits(desc, gw, gh) {
        cpu_with(r, "cell grid must fit inside the source frame"@)
    } else if gw * gh > usize::MAX {
        cpu_with(r, "cell count overflows usize"@)
    } else if some_cell_too_large(desc, gw, gh) {
        cpu_with(r, "cell luma sum exceeds u64"@)
    } else {
        r matches Ok(g) && g.width == gw && g.height == gh && g.cells@.len() == gw * gh
            && forall|k: int| 0 <= k < gw * gh ==> #[trigger] g.cells@[k] == cell_spec(desc, bytes, gw, gh, lut, k % (gw as int), k / (gw as int))
    }
}

proof fn lemma_sample_max(plane: Seq<u8>, format: PixelFormat, i: int)
    ensures
        sample(plane, format, i) <= 1023,
        format == PixelFormat::Nv12 ==> sample(plane, format, i) <= 255,
{
    if format == PixelFormat::P010Le {
        let lo = plane[2 * i] as nat;
        let hi = plane[2 * i + 1] as nat;
        assert((lo + 256 * hi) / 64 <= 1023) by (nonlinear_arith) requires lo <= 255, hi <= 255;
    }
}

proof fn lemma_row_sum_max(plane: Seq<u8>, format: PixelFormat, base: int, x0: int, x1: int, m: nat)
    requires
        x0 <= x1,
        m == (if format == PixelFormat::Nv12 { 255nat } else { 1023nat }),
    ensures
        row_sum(plane, format, base, x0, x1) <= (x1 - x0) * m,
    decreases x1 - x0,
{
    if x0 < x1 {
        lemma_row_sum_max(plane, format, base, x0, x1 - 1, m);
        lemma_sample_max(plane, format, base + x1 - 1);
        assert((x1 - 1 - x0) * m + m == (x1 - x0) * m) by (nonlinear_arith);
    }
}

proof fn lemma_block_sum_max(plane: Seq<u8>, format: PixelFormat, stride: int, y0: int, y1: int, x0: int, x1: int, m: nat)
    requires
        y0 <= y1,
        x0 <= x1,
        m == (if format == PixelFormat::Nv12 { 255nat } else { 1023nat }),
    ensures
        block_sum(plane, format, stride, y0, y1, x0, x1) <= (y1 - y0) * (x1 - x0) * m,
    decreases y1 - y0,
{
    if y0 < y1 {
        lemma_block_sum_max(plane, format, stride, y0, y1 - 1, x0, x1, m);
        lemma_row_sum_max(plane, format, (y1 - 1) * stride, x0, x1, m);
        assert((y1 - 1 - y0) * (x1 - x0) * m + (x1 - x0) * m == (y1 - y0) * (x1 - x0) * m) by (nonlinear_arith);
    }
}

proof fn lemma_pair_sum_max(plane: Seq<u8>, format: PixelFormat, base: int, x0: int, n: int, off: int, m: nat)
    requires
        0 <= n,
        m == (if format == PixelFormat::Nv12 { 255nat } else { 1023nat }),
    ensures
        pair_sum(plane, format, base, x0, n, off) <= n * m,
    decreases n,
{
    if n > 0 {
        lemma_pair_sum_max(plane, format, base, x0, n - 1, off, m);
        lemma_sample_max(plane, format, base + x0 + 2 * (n - 1) + off);
        assert((n - 1) * m + m == n * m) by (nonlinear_arith);
    }
}

proof fn lemma_chroma_sum_max(plane: Seq<u8>, format: PixelFormat, stride: int, y0: int, y1: int, x0: int, n: int, off: int, m: nat)
    requires
        y0 <= y1,
        0 <= n,
        m == (if format == PixelFormat::Nv12 { 255nat } else { 1023nat }),
    ensures
        chroma_sum(plane, format, stride, y0, y1, x0, n, off) <= n * (y1 - y0) * m,
    decreases y1 - y0,
{
    if y0 < y1 {
        lemma_chroma_sum_max(plane, format, stride, y0, y1 - 1, x0, n, off, m);
        lemma_pair_sum_max(plane, format, (y1 - 1) * stride, x0, n, off, m);
        assert(n * (y1 - 1 - y0) * m + n * m == n * (y1 - y0) * m) by (nonlinear_arith);
    }
}

/// Bounds of a slice: non-empty and inside `0 .. total`.
proof fn lemma_span(i: int, total: int, parts: int)
    requires
        0 <= i < parts,
        0 < parts <= total,
    ensures
        0 <= span(i, total, parts).0 < span(i, total, parts).1 <= total,
        span(i, total, parts).1 - span(i, total, parts).0 <= total,
{
    let a = i * total / parts;
    let b = (i + 1) * total / parts;
    assert(0 <= a) by (nonlinear_arith) requires i >= 0, total > 0, parts > 0, a == i * total / parts;
    assert(a < total) by (nonlinear_arith) requires i < parts, total > 0, parts > 0, a == i * total / parts, i >= 0;
    assert(b <= total) by (nonlinear_arith) requires i + 1 <= parts, total > 0, parts > 0, b == (i + 1) * total / parts, i >= 0;
}

/// The first `n` samples of a block `cw` samples wide whose top-left sample
/// is at row `y0`, column `x0`, counted row by row.
pub open spec fn block_samples(plane: Seq<u8>, format: PixelFormat, stride: int, y0: int, x0: int, cw: int, n: int) -> nat
    decreases n,
{
    if n <= 0 {
        0
    } else {
        block_samples(plane, format, stride, y0, x0, cw, n - 1)
            + sample(plane, format, (y0 + (n - 1) / cw) * stride + x0 + (n - 1) % cw)
    }
}

proof fn lemma_block_samples_rows(plane: Seq<u8>, format: PixelFormat, stride: int, y0: int, x0: int, cw: int, r: int, c: int)
    requires
        cw > 0,
        r >= 0,
        0 <= c <= cw,
    ensures
        block_samples(plane, format, stride, y0, x0, cw, r * cw + c)
            == block_sum(plane, format, stride, y0, y0 + r, x0, x0 + cw) + row_sum(plane, format, (y0 + r) * stride, x0, x0 + c),
    decreases r, c,
{
    assert(r * cw >= 0) by (nonlinear_arith) requires r >= 0, cw > 0;
    if c > 0 {
        lemma_block_samples_rows(plane, format, stride, y0, x0, cw, r, c - 1);
        let k = r * cw + c - 1;
        assert(k / cw == r && k % cw == c - 1) by (nonlinear_arith) requires k == r * cw + c - 1, 0 <= c - 1 < cw;
        assert((y0 + r) * stride + x0 + (c - 1) == (y0 + r) * stride + (x0 + c) - 1);
    } else if r > 0 {
        assert(r * cw + c == (r - 1) * cw + cw) by (nonlinear_arith) requires c == 0;
        lemma_block_samples_rows(plane, format, stride, y0, x0, cw, r - 1, cw);
        assert(y0 + r - 1 == (y0 + r) - 1);
    } else {
        assert(r * cw + c == 0) by (nonlinear_arith) requires r == 0, c == 0;
    }
}

/// A cell's luma is the average of every luma sample in its block, rounded
/// down: `y · n <= S < (y + 1) · n` for the `n` samples of the block and
/// their sum `S`, counted row by row. The value fits the cell's field.
pub proof fn lemma_cell_luma_is_block_average(desc: FrameDesc, bytes: Seq<u8>, gw: u32, gh: u32, lut: Seq<u32>, cx: int, cy: int)
    ensures
        ({
            let (x0, x1) = span(cx, desc.width as int, gw as int);
            let (y0, y1) = span(cy, desc.height as int, gh as int);
            let n = (x1 - x0) * (y1 - y0);
            let total = block_samples(luma_plane(desc, bytes), desc.format, desc.width as int, y0, x0, x1 - x0, n);
            let y = cell_spec(desc, bytes, gw, gh, lut, cx, cy).y as int;
            &&& n >= 1
            &&& y * n <= total < (y + 1) * n
            &&& y <= (if desc.format == PixelFormat::Nv12 { 255int } else { 1023int })
            &&& y == cell_luma(desc, luma_plane(desc, bytes), gw, gh, cx, cy)
        }),
{
    let luma = luma_plane(desc, bytes);
    let (x0, x1) = span(cx, desc.width as int, gw as int);
    let (y0, y1) = span(cy, desc.height as int, gh as int);
    let cw = x1 - x0;
    let rows = y1 - y0;
    let n = cw * rows;
    assert(n >= 1) by (nonlinear_arith) requires cw >= 1, rows >= 1, n == cw * rows;
    assert(n == rows * cw + 0) by (nonlinear_arith) requires n == cw * rows;
    lemma_block_samples_rows(luma, desc.format, desc.width as int, y0, x0, cw, rows, 0);
    assert(row_sum(luma, desc.format, (y0 + rows) * (desc.width as int), x0, x0) == 0);
    let total = block_sum(luma, desc.format, desc.width as int, y0, y1, x0, x1);
    assert(block_samples(luma, desc.format, desc.width as int, y0, x0, cw, n) == total);
    let m: nat = if desc.format == PixelFormat::Nv12 { 255nat } else { 1023nat };
    lemma_block_sum_max(luma, desc.format, desc.width as int, y0, y1, x0, x1, m);
    assert(cell_pixels(desc, gw, gh, cx, cy) == n);
    let avg = total / (n as nat);
    assert(cell_luma(desc, luma, gw, gh, cx, cy) == avg);
    assert(avg <= m) by (nonlinear_arith)
        requires avg == total / (n as nat), total <= rows * cw * m, n == cw * rows, n >= 1;
    assert(avg * n <= total < (avg + 1) * n) by (nonlinear_arith) requires avg == total / (n as nat), n >= 1;
    assert(cell_spec(desc, bytes, gw, gh, lut, cx, cy).y == avg);
}

/// The first `k` chroma samples of component `off` (0 for U, 1 for V) in a
/// block of `n` sample pairs per row whose first pair is at row `y0`,
/// column `x0`, counted row by row.
pub open spec fn chroma_samples(plane: Seq<u8>, format: PixelFormat, stride: int, y0: int, x0: int, n: int, off: int, k: int) -> nat
    decreases k,
{
    if k <= 0 {
        0
    } else {
        chroma_samples(plane, format, stride, y0, x0, n, off, k - 1)
            + sample(plane, format, (y0 + (k - 1) / n) * stride + x0 + 2 * ((k - 1) % n) + off)
    }
}

proof fn lemma_chroma_samples_rows(plane: Seq<u8>, format: PixelFormat, stride: int, y0: int, x0: int, n: int, off: int, r: int, c: int)
    requires
        n > 0,
        r >= 0,
        0 <= c <= n,
    ensures
        chroma_samples(plane, format, stride, y0, x0, n, off, r * n + c)
            == chroma_sum(plane, format, stride, y0, y0 + r, x0, n, off) + pair_sum(plane, format, (y0 + r) * stride, x0, c, off),
    decreases r, c,
{
    assert(r * n >= 0) by (nonlinear_arith) requires r >= 0, n > 0;
    if c > 0 {
        lemma_chroma_samples_rows(plane, format, stride, y0, x0, n, off, r, c - 1);
        let k = r * n + c - 1;
        assert(k / n == r && k % n == c - 1) by (nonlinear_arith) requires k == r * n + c - 1, 0 <= c - 1 < n;
    } else if r > 0 {
        assert(r * n + c == (r - 1) * n + n) by (nonlinear_arith) requires c == 0;
        lemma_chroma_samples_rows(plane, format, stride, y0, x0, n, off, r - 1, n);
        assert(y0 + r - 1 == (y0 + r) - 1);
    } else {
        assert(r * n + c == 0) by (nonlinear_arith) requires r == 0, c == 0;
    }
}

/// A cell's U and V are the averages, rounded down, of every U and every V
/// sample in its chroma block (`count` of each, counted pair by pair); a
/// cell whose block holds no chroma gets neutral chroma.
pub proof fn lemma_cell_chroma_is_block_average(desc: FrameDesc, bytes: Seq<u8>, gw: u32, gh: u32, lut: Seq<u32>, cx: int, cy: int)
    ensures
        ({
            let (uy0, uy1, ux0, n) = chroma_block(desc, gw, gh, cx, cy);
            let count = n * (uy1 - uy0);
            let chroma = chroma_plane(desc, bytes);
            let stride = desc.width as int;
            let cell = cell_spec(desc, bytes, gw, gh, lut, cx, cy);
            let u_total = chroma_samples(chroma, desc.format, stride, uy0, ux0, n, 0, count);
            let v_total = chroma_samples(chroma, desc.format, stride, uy0, ux0, n, 1, count);
            &&& count > 0 ==> (cell.u as int) * count <= u_total < (cell.u as int + 1) * count
            &&& count > 0 ==> (cell.v as int) * count <= v_total < (cell.v as int + 1) * count
            &&& count == 0 ==> cell.u == cell.v && cell.u == (match desc.format {
                PixelFormat::Nv12 => 128u16,
                PixelFormat::P010Le => 512u16,
            })
        }),
{
    let (uy0, uy1, ux0, n) = chroma_block(desc, gw, gh, cx, cy);
    let count = n * (uy1 - uy0);
    let chroma = chroma_plane(desc, bytes);
    let stride = desc.width as int;
    let (x0, x1) = span(cx, desc.width as int, gw as int);
    let (y0, y1) = span(cy, desc.height as int, gh as int);
    assert(uy1 - uy0 >= 0) by (nonlinear_arith) requires y1 >= y0 + 1, uy0 == y0 / 2, uy1 == (y1 + 1) / 2;
    if count > 0 {
        let rows = uy1 - uy0;
        assert(n > 0 && rows > 0) by (nonlinear_arith) requires count == n * rows, count > 0, rows >= 0;
        let m: nat = if desc.format == PixelFormat::Nv12 { 255nat } else { 1023nat };
        assert(count == rows * n + 0) by (nonlinear_arith) requires count == n * rows;
        lemma_chroma_samples_rows(chroma, desc.format, stride, uy0, ux0, n, 0, rows, 0);
        lemma_chroma_samples_rows(chroma, desc.format, stride, uy0, ux0, n, 1, rows, 0);
        lemma_chroma_sum_max(chroma, desc.format, stride, uy0, uy1, ux0, n, 0, m);
        lemma_chroma_sum_max(chroma, desc.format, stride, uy0, uy1, ux0, n, 1, m);
        let su = chroma_sum(chroma, desc.format, stride, uy0, uy1, ux0, n, 0);
        let sv = chroma_sum(chroma, desc.format, stride, uy0, uy1, ux0, n, 1);
        let au = su / (count as nat);
        let av = sv / (count as nat);
        assert(au <= m) by (nonlinear_arith) requires au == su / (count as nat), su <= n * rows * m, count == n * rows, count > 0;
        assert(av <= m) by (nonlinear_arith) requires av == sv / (count as nat), sv <= n * rows * m, count == n * rows, count > 0;
        assert(au * count <= su < (au + 1) * count) by (nonlinear_arith) requires au == su / (count as nat), count > 0;
        assert(av * count <= sv < (av + 1) * count) by (nonlinear_arith) requires av == sv / (count as nat), count > 0;
        assert(cell_chroma(desc, chroma, gw, gh, cx, cy, 0) == au);
        assert(cell_chroma(desc, chroma, gw, gh, cx, cy, 1) == av);
    }
}

/// With the table of an `n`-glyph charset, every cell names a glyph of the
/// charset, a brighter cell never gets an earlier glyph, and black and
/// white luma give the first and last glyph.
pub proof fn lemma_cell_glyph_follows_luma(
    desc: FrameDesc,
    bytes: Seq<u8>,
    gw: u32,
    gh: u32,
    lut: Seq<u32>,
    n: nat,
    cx: int,
    cy: int,
    cx2: int,
    cy2: int,
)
    requires
        0 < n <= 65535,
        lut.len() == 256,
        forall|v: int| 0 <= v < 256 ==> lut[v] == lut_entry(n, v as nat),
    ensures
        ({
            let a = cell_spec(desc, bytes, gw, gh, lut, cx, cy);
            let b = cell_spec(desc, bytes, gw, gh, lut, cx2, cy2);
            let (black, white): (int, int) = match desc.format {
                PixelFormat::Nv12 => (16, 235),
                PixelFormat::P010Le => (67, 940),
            };
            &&& a.glyph < n
            &&& a.y <= b.y ==> a.glyph <= b.glyph
            &&& a.y <= black ==> a.glyph == 0
            &&& a.y >= white ==> a.glyph == n - 1
        }),
{
    lemma_cell_luma_is_block_average(desc, bytes, gw, gh, lut, cx, cy);
    lemma_cell_luma_is_block_average(desc, bytes, gw, gh, lut, cx2, cy2);
    let a = cell_spec(desc, bytes, gw, gh, lut, cx, cy);
    let b = cell_spec(desc, bytes, gw, gh, lut, cx2, cy2);
    let ya = a.y as int;
    let yb = b.y as int;
    let ia: int = match desc.format { PixelFormat::Nv12 => ya, PixelFormat::P010Le => ya / 4 };
    let ib: int = match desc.format { PixelFormat::Nv12 => yb, PixelFormat::P010Le => yb / 4 };
    let la = cell_luma(desc, luma_plane(desc, bytes), gw, gh, cx, cy);
    let lb = cell_luma(desc, luma_plane(desc, bytes), gw, gh, cx2, cy2);
    assert(ya == la && yb == lb);
    assert(0 <= ia < 256 && 0 <= ib < 256);
    assert(a.glyph == lut[ia] as u16);
    assert(b.glyph == lut[ib] as u16);
    lemma_lut_below_count(n, ia as nat);
    lemma_lut_below_count(n, ib as nat);
    lemma_lut_endpoints(n, ia as nat);
    if ya <= yb {
        assert(ia <= ib);
        lemma_lut_monotone(n, ia as nat, ib as nat);
    }
}

/// Sample value at index `i` of a plane.
fn read_sample(plane: &[u8], p010: bool, i: usize) -> (s: u32)
    requires
        p010 ==> 2 * i + 1 < plane@.len(),
        !p010 ==> i < plane@.len(),
    ensures
        s == sample(plane@, if p010 { PixelFormat::P010Le } else { PixelFormat::Nv12 }, i as int),
{
    let len = plane.len();
    if p010 {
        let lo = plane[2 * i] as u32;
        let hi = plane[2 * i + 1] as u32;
        (lo + 256 * hi) / 64
    } else {
        plane[i] as u32
    }
}

pub open spec fn format_of(p010: bool) -> PixelFormat {
    if p010 { PixelFormat::P010Le } else { PixelFormat::Nv12 }
}

pub open spec fn max_code(p010: bool) -> nat {
    if p010 { 1023 } else { 255 }
}

/// `plane` holds `samples` samples of the format.
pub open spec fn holds(plane: Seq<u8>, p010: bool, samples: int) -> bool {
    plane.len() == samples * (if p010 { 2int } else { 1int })
}

proof fn lemma_index_in_plane(row: int, x: int, stride: int, rows: int)
    requires
        0 <= row < rows,
        0 <= x < stride,
    ensures
        row * stride + x < rows * stride,
        0 <= row * stride,
{
    assert(row * stride + x < rows * stride) by (nonlinear_arith) requires 0 <= row < rows, 0 <= x < stride;
    assert(0 <= row * stride) by (nonlinear_arith) requires 0 <= row, 0 <= stride;
}

/// Sum of the luma block rows `y0 .. y1`, columns `x0 .. x1`.
fn luma_block_sum(plane: &[u8], p010: bool, stride: usize, rows: usize, y0: usize, y1: usize, x0: usize, x1: usize) -> (s: u128)
    requires
        holds(plane@, p010, rows * stride),
        rows * stride <= usize::MAX,
        y0 < y1 <= rows,
        x0 < x1 <= stride,
        (y1 - y0) * (x1 - x0) <= u64::MAX,
    ensures
        s == block_sum(plane@, format_of(p010), stride as int, y0 as int, y1 as int, x0 as int, x1 as int),
{
    let ghost f = format_of(p010);
    let ghost m = max_code(p010);
    let mut sum: u128 = 0;
    let mut row: usize = y0;
    while row < y1
        invariant
            holds(plane@, p010, rows * stride),
            rows * stride <= usize::MAX,
            y0 <= row <= y1 <= rows,
            x0 < x1 <= stride,
            (y1 - y0) * (x1 - x0) <= u64::MAX,
            f == format_of(p010),
            m == max_code(p010),
            sum == block_sum(plane@, f, stride as int, y0 as int, row as int, x0 as int, x1 as int),
        decreases y1 - row,
    {
        proof { lemma_index_in_plane(row as int, 0, stride as int, rows as int); }
        let base: usize = row * stride;
        let mut x: usize = x0;
        let ghost before = sum;
        while x < x1
            invariant
                holds(plane@, p010, rows * stride),
                rows * stride <= usize::MAX,
                y0 <= row < y1 <= rows,
                x0 <= x <= x1 <= stride,
                (y1 - y0) * (x1 - x0) <= u64::MAX,
                base == row * stride,
                f == format_of(p010),
                m == max_code(p010),
                before == block_sum(plane@, f, stride as int, y0 as int, row as int, x0 as int, x1 as int),
                sum == before + row_sum(plane@, f, base as int, x0 as int, x as int),
            decreases x1 - x,
        {
            proof {
                lemma_index_in_plane(row as int, x as int, stride as int, rows as int);
                lemma_block_sum_max(plane@, f, stride as int, y0 as int, row as int, x0 as int, x1 as int, m);
                lemma_row_sum_max(plane@, f, base as int, x0 as int, x as int + 1, m);
                assert((row - y0) * (x1 - x0) * m + (x + 1 - x0) * m <= (y1 - y0) * (x1 - x0) * 1023) by (nonlinear_arith)
                    requires row + 1 <= y1, x + 1 <= x1, m <= 1023, x0 <= x, y0 <= row;
            }
            let v = read_sample(plane, p010, base + x);
            sum = sum + v as u128;
            x = x + 1;
        }
        row = row + 1;
    }
    sum
}

/// Sum of one chroma component over rows `y0 .. y1`, `n` pairs from column `x0`.
fn chroma_block_sum(plane: &[u8], p010: bool, stride: usize, rows: usize, y0: usize, y1: usize, x0: usize, n: usize, off: usize) -> (s: u128)
    requires
        holds(plane@, p010, rows * stride),
        rows * stride <= usize::MAX,
        y0 <= y1 <= rows,
        off <= 1,
        x0 + 2 * n <= stride,
        n * (y1 - y0) <= u64::MAX,
    ensures
        s == chroma_sum(plane@, format_of(p010), stride as int, y0 as int, y1 as int, x0 as int, n as int, off as int),
{
    let ghost f = format_of(p010);
    let ghost m = max_code(p010);
    let mut sum: u128 = 0;
    let mut row: usize = y0;
    while row < y1
        invariant
            holds(plane@, p010, rows * stride),
            rows * stride <= usize::MAX,
            y0 <= row <= y1 <= rows,
            off <= 1,
            x0 + 2 * n <= stride,
            n * (y1 - y0) <= u64::MAX,
            f == format_of(p010),
            m == max_code(p010),
            sum == chroma_sum(plane@, f, stride as int, y0 as int, row as int, x0 as int, n as int, off as int),
        decreases y1 - row,
    {
        assert(row * stride <= rows * stride) by (nonlinear_arith) requires row < rows;
        let base: usize = row * stride;
        let mut k: usize = 0;
        let ghost before = sum;
        while k < n
            invariant
                holds(plane@, p010, rows * stride),
                rows * stride <= usize::MAX,
                y0 <= row < y1 <= rows,
                off <= 1,
                x0 + 2 * n <= stride,
                k <= n,
                n * (y1 - y0) <= u64::MAX,
                base == row * stride,
                f == format_of(p010),
                m == max_code(p010),
                before == chroma_sum(plane@, f, stride as int, y0 as int, row as int, x0 as int, n as int, off as int),
                sum == before + pair_sum(plane@, f, base as int, x0 as int, k as int, off as int),
            decreases n - k,
        {
            proof {
                lemma_index_in_plane(row as int, (x0 + 2 * k + off) as int, stride as int, rows as int);
                lemma_chroma_sum_max(plane@, f, stride as int, y0 as int, row as int, x0 as int, n as int, off as int, m);
                lemma_pair_sum_max(plane@, f, base as int, x0 as int, k as int + 1, off as int, m);
                assert(n * (row - y0) * m + (k + 1) * m <= n * (y1 - y0) * 1023) by (nonlinear_arith)
                    requires row + 1 <= y1, k + 1 <= n, m <= 1023, y0 <= row;
            }
            let v = read_sample(plane, p010, base + x0 + 2 * k + off);
            sum = sum + v as u128;
            k = k + 1;
        }
        row = row + 1;
    }
    sum
}

/// Plane sizes of a well-formed descriptor.
proof fn lemma_plane_sizes(desc: FrameDesc)
    requires
        desc.wf(),
    ensures
        desc.y_len_spec() == (desc.height as int) * (desc.width as int) * bytes_per_sample_spec(desc.format),
        desc.byte_len - desc.y_len_spec() == ((desc.height / 2) as int) * (desc.width as int) * bytes_per_sample_spec(desc.format),
        desc.height % 2 == 0,
{
    let w = desc.width as int;
    let h = desc.height as int;
    let bps = bytes_per_sample_spec(desc.format) as int;
    let b = w * h * bps;
    assert(b == 2 * ((w / 2) * h * bps)) by (nonlinear_arith) requires b == w * h * bps, w % 2 == 0, w >= 0;
    assert(desc.byte_len == b + b / 2);
    assert(h * w * bps == b) by (nonlinear_arith) requires b == w * h * bps;
    assert((h / 2) * w * bps == b / 2) by (nonlinear_arith) requires b == w * h * bps, h % 2 == 0, h >= 0;
}

/// Plane sizes of a well-formed descriptor.
pub proof fn lemma_plane_sizes_pub(desc: FrameDesc)
    requires
        desc.wf(),
    ensures
        desc.y_len_spec() == (desc.height as int) * (desc.width as int) * bytes_per_sample_spec(desc.format),
        desc.byte_len - desc.y_len_spec() == ((desc.height / 2) as int) * (desc.width as int) * bytes_per_sample_spec(desc.format),
        desc.height % 2 == 0,
        desc.width % 2 == 0,
{
    lemma_plane_sizes(desc);
}

/// The `i`-th slice of `0 .. total` in `parts`.
fn span_exec(i: u32, total: u32, parts: u32) -> (r: (usize, usize))
    requires
        i < parts,
        0 < parts <= total,
    ensures
        r.0 as int == span(i as int, total as int, parts as int).0,
        r.1 as int == span(i as int, total as int, parts as int).1,
        r.0 < r.1 <= total,
{
    proof { lemma_span(i as int, total as int, parts as int); }
    assert((i as int + 1) * (total as int) <= 4294967296 * 4294967295) by (nonlinear_arith)
        requires i < 4294967296, total <= 4294967295;
    assert((i as int) * (total as int) <= 4294967296 * 4294967295) by (nonlinear_arith)
        requires i < 4294967296, total <= 4294967295;
    let a: u64 = (i as u64 * total as u64) / parts as u64;
    let b: u64 = ((i as u64 + 1) * total as u64) / parts as u64;
    let end = if b > a + 1 { b } else { a + 1 };
    (a as usize, end as usize)
}

/// Round down to even.
fn even_floor(x: usize) -> (r: usize)
    ensures
        r == x - x % 2,
{
    x - x % 2
}

impl Nv12Mapper {
    /// One cell, from the frame's planes.
    fn map_cell(&self, luma: &[u8], chroma: &[u8], desc: &FrameDesc, gw: u32, gh: u32, cx: u32, cy: u32) -> (c: AsciiCell)
        requires
            desc.wf(),
            grid_fits(*desc, gw, gh),
            cx < gw,
            cy < gh,
            luma@.len() == desc.y_len_spec(),
            chroma@.len() == desc.byte_len - desc.y_len_spec(),
            self.lut().len() == 256,
            cell_pixels(*desc, gw, gh, cx as int, cy as int) <= u64::MAX / 1023,
        ensures
            c == cell_of_planes(*desc, luma@, chroma@, gw, gh, self.lut(), cx as int, cy as int),
    {
        proof { lemma_plane_sizes(*desc); }
        let width = desc.width as usize;
        let height = desc.height as usize;
        let p010 = desc.format == PixelFormat::P010Le;
        let ghost f = desc.format;
        let ghost m = max_code(p010);
        assert(f == format_of(p010));
        let (x0, x1) = span_exec(cx, desc.width, gw);
        let (y0, y1) = span_exec(cy, desc.height, gh);
        assert((y1 - y0) * (x1 - x0) <= (height as int) * (width as int)) by (nonlinear_arith)
            requires 0 < y1 - y0 <= height, 0 < x1 - x0 <= width;
        assert((height as int) * (width as int) <= 4294967295 * 4294967295) by (nonlinear_arith)
            requires height <= 4294967295, width <= 4294967295;
        assert((height as int) * (width as int) <= desc.y_len_spec()) by (nonlinear_arith)
            requires desc.y_len_spec() == (height as int) * (width as int) * bytes_per_sample_spec(f),
                bytes_per_sample_spec(f) >= 1;
        let pixels: u64 = (x1 - x0) as u64 * (y1 - y0) as u64;
        assert(pixels as int == (x1 - x0) * (y1 - y0));
        assert(cell_pixels(*desc, gw, gh, cx as int, cy as int) == (x1 - x0) * (y1 - y0));
        assert(pixels > 0) by (nonlinear_arith) requires pixels as int == (x1 - x0) * (y1 - y0), x0 < x1, y0 < y1;
        let y_sum = luma_block_sum(luma, p010, width, height, y0, y1, x0, x1);
        proof {
            lemma_block_sum_max(luma@, f, width as int, y0 as int, y1 as int, x0 as int, x1 as int, m);
            assert((y_sum as int) / (pixels as int) <= m) by (nonlinear_arith)
                requires y_sum <= (y1 - y0) * (x1 - x0) * m, pixels == (x1 - x0) * (y1 - y0), pixels > 0;
        }
        let average_y: u128 = y_sum / pixels as u128;
        assert(average_y == cell_luma(*desc, luma@, gw, gh, cx as int, cy as int));
        let uy0 = y0 / 2;
        let uy1 = (y1 + 1) / 2;
        let ux0 = even_floor(x0);
        let end = if x1 + 1 < width { x1 + 1 } else { width };
        let ux1 = even_floor(end);
        let n = (ux1 - ux0) / 2;
        assert(uy1 <= height / 2);
        assert(ux0 + 2 * n <= width);
        assert(n * (uy1 - uy0) <= 4294967295 * 4294967295) by (nonlinear_arith)
            requires n <= 4294967295, uy1 - uy0 <= 4294967295, uy0 <= uy1;
        let count: u64 = n as u64 * (uy1 - uy0) as u64;
        let neutral: u128 = if p010 { 512 } else { 128 };
        let u_sum = chroma_block_sum(chroma, p010, width, height / 2, uy0, uy1, ux0, n, 0);
        let v_sum = chroma_block_sum(chroma, p010, width, height / 2, uy0, uy1, ux0, n, 1);
        proof {
            lemma_chroma_sum_max(chroma@, f, width as int, uy0 as int, uy1 as int, ux0 as int, n as int, 0, m);
            lemma_chroma_sum_max(chroma@, f, width as int, uy0 as int, uy1 as int, ux0 as int, n as int, 1, m);
            if count > 0 {
                assert((u_sum as int) / (count as int) <= m) by (nonlinear_arith)
                    requires u_sum <= n * (uy1 - uy0) * m, count == n * (uy1 - uy0), count > 0;
                assert((v_sum as int) / (count as int) <= m) by (nonlinear_arith)
                    requires v_sum <= n * (uy1 - uy0) * m, count == n * (uy1 - uy0), count > 0;
            }
        }
        let u: u128 = if count == 0 { neutral } else { u_sum / count as u128 };
        let v: u128 = if count == 0 { neutral } else { v_sum / count as u128 };
        assert(u == cell_chroma(*desc, chroma@, gw, gh, cx as int, cy as int, 0));
        assert(v == cell_chroma(*desc, chroma@, gw, gh, cx as int, cy as int, 1));
        let glyph_luma: usize = if p010 { (average_y / 4) as usize } else { average_y as usize };
        let glyph = self.glyph_lut[glyph_luma] as u16;
        AsciiCell { glyph, y: average_y as u16, u: u as u16, v: v as u16 }
    }

    /// Divides the frame into a `grid_width` × `grid_height` grid of cells,
    /// row by row, and maps each cell.
    pub fn map(&self, frame: &VideoFrame, grid_width: u32, grid_height: u32) -> (r: Result<CellGrid>)
        ensures
            map_outcome(r, frame.desc_spec(), frame.bytes(), grid_width, grid_height, self.lut()),
    {
        proof {
            reveal_strlit("cell grid must fit inside the source frame");
            reveal_strlit("cell count overflows usize");
            reveal_strlit("cell luma sum exceeds u64");
        }
        let desc = frame.desc();
        assert(frame.wf());
        if grid_width == 0 || grid_height == 0 || grid_width > desc.width || grid_height > desc.height {
            return Err(Error::Cpu(String::from_str("cell grid must fit inside the source frame")));
        }
        let ghost bytes = frame.bytes();
        proof { lemma_plane_sizes(*desc); }
        let (luma, chroma) = frame.host().planes(desc);
        let gw = grid_width as usize;
        let gh = grid_height as usize;
        let total = match gw.checked_mul(gh) {
            Some(t) => t,
            None => return Err(Error::Cpu(String::from_str("cell count overflows usize"))),
        };
        assert(self.glyph_lut@.len() == 256);
        let mut cells: Vec<AsciiCell> = Vec::new();
        let mut cy: u32 = 0;
        while cy < grid_height
            invariant
                desc.wf(),
                *desc == frame.desc_spec(),
                bytes == frame.bytes(),
                grid_fits(*desc, grid_width, grid_height),
                luma@ == luma_plane(*desc, bytes),
                chroma@ == chroma_plane(*desc, bytes),
                luma@.len() == desc.y_len_spec(),
                chroma@.len() == desc.byte_len - desc.y_len_spec(),
                self.lut().len() == 256,
                total == grid_width * grid_height,
                cy <= grid_height,
                cells@.len() == cy * grid_width,
                forall|k: int| 0 <= k < cells@.len() ==> #[trigger] cells@[k]
                    == cell_spec(*desc, bytes, grid_width, grid_height, self.lut(), k % (grid_width as int), k / (grid_width as int)),
                forall|a: int, b: int| 0 <= a < grid_width && 0 <= b < cy
                    ==> #[trigger] cell_pixels(*desc, grid_width, grid_height, a, b) <= u64::MAX / 1023,
            decreases grid_height - cy,
        {
            let mut cx: u32 = 0;
            while cx < grid_width
                invariant
                    desc.wf(),
                    *desc == frame.desc_spec(),
                    bytes == frame.bytes(),
                    grid_fits(*desc, grid_width, grid_height),
                    luma@ == luma_plane(*desc, bytes),
                    chroma@ == chroma_plane(*desc, bytes),
                    luma@.len() == desc.y_len_spec(),
                    chroma@.len() == desc.byte_len - desc.y_len_spec(),
                    self.lut().len() == 256,
                    total == grid_width * grid_height,
                    cy < grid_height,
                    cx <= grid_width,
                    cells@.len() == cy * grid_width + cx,
                    forall|k: int| 0 <= k < cells@.len() ==> #[trigger] cells@[k]
                        == cell_spec(*desc, bytes, grid_width, grid_height, self.lut(), k % (grid_width as int), k / (grid_width as int)),
                    forall|a: int, b: int| (0 <= a < grid_width && 0 <= b < cy) || (0 <= a < cx && b == cy)
                        ==> #[trigger] cell_pixels(*desc, grid_width, grid_height, a, b) <= u64::MAX / 1023,
                decreases grid_width - cx,
            {
                let (x0, x1) = span_exec(cx, desc.width, grid_width);
                let (y0, y1) = span_exec(cy, desc.height, grid_height);
                assert((x1 - x0) * (y1 - y0) <= 4294967295 * 4294967295) by (nonlinear_arith)
                    requires x1 - x0 <= 4294967295, y1 - y0 <= 4294967295, x0 <= x1, y0 <= y1;
                let pixels: u64 = (x1 - x0) as u64 * (y1 - y0) as u64;
                assert(cell_pixels(*desc, grid_width, grid_height, cx as int, cy as int) == pixels);
                if pixels > u64::MAX / 1023 {
                    return Err(Error::Cpu(String::from_str("cell luma sum exceeds u64")));
                }
                let cell = self.map_cell(luma, chroma, desc, grid_width, grid_height, cx, cy);
                let ghost k = cells@.len() as int;
                assert(k % (grid_width as int) == cx && k / (grid_width as int) == cy) by (nonlinear_arith)
                    requires k == cy * grid_width + cx, 0 <= cx < grid_width;
                cells.push(cell);
                cx = cx + 1;
            }
            assert(cells@.len() == (cy + 1) * grid_width) by (nonlinear_arith)
                requires cells@.len() == cy * grid_width + grid_width;
            cy = cy + 1;
        }
        assert(!some_cell_too_large(*desc, grid_width, grid_height));
        assert(cells@.len() == grid_width * grid_height) by (nonlinear_arith)
            requires cells@.len() == cy * grid_width, cy == grid_height;
        Ok(CellGrid { width: grid_width, height: grid_height, cells })
    }

    /// The glyph lookup table in use.
    pub closed spec fn lut(self) -> Seq<u32> {
        self.glyph_lut@
    }

    /// A mapper for a ramp of `charset`'s characters.
    pub fn new(charset: &str) -> (r: Result<Self>)
        ensures
            (charset@.len() == 0 || charset@.len() > 65535) ==> cpu_with(r, "invalid charset length"@),
            0 < charset@.len() <= 65535 ==> (r matches Ok(m)
                && m.lut().len() == 256
                && forall|v: int| 0 <= v < 256 ==> m.lut()[v] == lut_entry(charset@.len(), v as nat)),
    {
        let glyph_count = charset.unicode_len();
        if glyph_count == 0 || glyph_count > 65535 {
            proof { reveal_strlit("invalid charset length"); }
            return Err(Error::Cpu(String::from_str("invalid charset length")));
        }
        let glyph_lut = glyph_lookup_table(glyph_count);
        Ok(Nv12Mapper { glyph_lut })
    }
}

} // verus!
