//! Renders a cell grid into a host frame: every output pixel takes the
//! coverage of its cell's glyph at the matching tile position and blends
//! the cell's color over a black background (limited range).

use vstd::prelude::*;
use crate::cpu::mapper::{AsciiCell, CellGrid};
use crate::error::{Error, Result, cpu_with, unsupported_with};
use crate::font::GlyphAtlas;
use crate::frame::{FrameDesc, HostFrame, PixelFormat, VideoFrame, bytes_per_sample_spec, dimension_message, even_nonzero, host_desc_ok};

verus! {

/// Renders an ASCII cell grid into the descriptor's host format (NV12 or P010LE).
pub struct Nv12Renderer<'a> {
    atlas: &'a GlyphAtlas,
}

/// Background luma, neutral chroma and monochrome foreground luma.
pub open spec fn levels(format: PixelFormat) -> (nat, nat, nat) {
    match format {
        PixelFormat::Nv12 => (16, 128, 235),
        PixelFormat::P010Le => (64, 512, 940),
    }
}

pub open spec fn max_code(format: PixelFormat) -> nat {
    match format {
        PixelFormat::Nv12 => 255,
        PixelFormat::P010Le => 1023,
    }
}

/// `foreground` over `background` at coverage `alpha` of 255, rounded.
pub open spec fn blend_spec(background: nat, foreground: nat, alpha: nat) -> nat {
    ((background * (255 - alpha) + foreground * alpha + 127) / 255) as nat
}

/// The cell that output pixel `(px, py)` falls in.
pub open spec fn cell_at(grid: CellGrid, desc: FrameDesc, py: int, px: int) -> AsciiCell {
    let gw = grid.width as int;
    let gh = grid.height as int;
    grid.cells@[(py * gh / (desc.height as int)) * gw + px * gw / (desc.width as int)]
}

/// Coverage of glyph `g` at the tile position of output pixel `(px, py)`.
pub open spec fn coverage(atlas: GlyphAtlas, grid: CellGrid, desc: FrameDesc, g: int, py: int, px: int) -> nat {
    let aw = atlas.width_spec() as int;
    let ah = atlas.height_spec() as int;
    let ly = (py * (grid.height as int) * ah / (desc.height as int)) % ah;
    let lx = (px * (grid.width as int) * aw / (desc.width as int)) % aw;
    atlas.pixels()[g * (aw * ah) + ly * aw + lx] as nat
}

/// Luma code of output pixel `(px, py)`.
pub open spec fn luma_code(atlas: GlyphAtlas, grid: CellGrid, desc: FrameDesc, color: bool, py: int, px: int) -> nat {
    let cell = cell_at(grid, desc, py, px);
    let (background, _, mono) = levels(desc.format);
    blend_spec(background, if color { cell.y as nat } else { mono }, coverage(atlas, grid, desc, cell.glyph as int, py, px))
}

/// Chroma code at chroma row `r`, sample `col` (even for U, odd for V):
/// neutral without color, else the cell's chroma over the 2×2 block's
/// average coverage.
pub open spec fn chroma_code(atlas: GlyphAtlas, grid: CellGrid, desc: FrameDesc, color: bool, r: int, col: int) -> nat {
    let (_, neutral, _) = levels(desc.format);
    if !color {
        neutral
    } else {
        let py = 2 * r;
        let px = col - col % 2;
        let cell = cell_at(grid, desc, py, px);
        let g = cell.glyph as int;
        let alpha = coverage(atlas, grid, desc, g, py, px) + coverage(atlas, grid, desc, g, py, px + 1)
            + coverage(atlas, grid, desc, g, py + 1, px) + coverage(atlas, grid, desc, g, py + 1, px + 1);
        blend_spec(neutral, if col % 2 == 0 { cell.u as nat } else { cell.v as nat }, alpha / 4)
    }
}

/// Byte `j` of a stored sample code: NV12 stores the code, P010LE the code
/// in the top ten bits of a little-endian word.
pub open spec fn code_byte(code: nat, format: PixelFormat, j: int) -> u8 {
    match format {
        PixelFormat::Nv12 => code as u8,
        PixelFormat::P010Le => if j == 0 { ((code * 64) % 256) as u8 } else { ((code * 64) / 256) as u8 },
    }
}

/// Byte `b` of the rendered frame.
pub open spec fn rendered_byte(atlas: GlyphAtlas, grid: CellGrid, desc: FrameDesc, color: bool, b: int) -> u8 {
    let bps = bytes_per_sample_spec(desc.format) as int;
    let w = desc.width as int;
    let luma_len = w * (desc.height as int) * bps;
    if b < luma_len {
        let s = b / bps;
        code_byte(luma_code(atlas, grid, desc, color, s / w, s % w), desc.format, b % bps)
    } else {
        let c = b - luma_len;
        let s = c / bps;
        code_byte(chroma_code(atlas, grid, desc, color, s / w, s % w), desc.format, c % bps)
    }
}

/// Every byte of the rendered frame.
pub open spec fn rendered_bytes(atlas: GlyphAtlas, grid: CellGrid, desc: FrameDesc, color: bool) -> Seq<u8> {
    Seq::new(desc.byte_len as nat, |b: int| rendered_byte(atlas, grid, desc, color, b))
}

pub open spec fn glyphs_in_atlas(grid: CellGrid, atlas: GlyphAtlas) -> bool {
    forall|i: int| 0 <= i < grid.cells@.len() ==> (#[trigger] grid.cells@[i]).glyph < atlas.count()
}

pub open spec fn codes_in_range(grid: CellGrid, format: PixelFormat) -> bool {
    forall|i: int| 0 <= i < grid.cells@.len() ==> {
        let c = #[trigger] grid.cells@[i];
        c.y <= max_code(format) && c.u <= max_code(format) && c.v <= max_code(format)
    }
}

/// What `Nv12Renderer::render` returns.
pub open spec fn render_outcome(
    r: Result<VideoFrame>,
    atlas: GlyphAtlas,
    grid: CellGrid,
    desc: FrameDesc,
    pts: Option<i64>,
    color: bool,
) -> bool {
    if !desc.wf() {
        &&& r is Err
        &&& !even_nonzero(desc.width, desc.height)
            ==> unsupported_with(r, dimension_message(desc.format, desc.width, desc.height))
        &&& host_desc_ok(desc.width, desc.height, desc.format)
            ==> unsupported_with(r, "frame descriptor layout is inconsistent"@)
    } else if grid.cells@.len() != grid.width * grid.height {
        cpu_with(r, "cell grid storage is incomplete"@)
    } else if !glyphs_in_atlas(grid, atlas) {
        cpu_with(r, "cell glyph index exceeds atlas"@)
    } else if !codes_in_range(grid, desc.format) {
        cpu_with(r, "cell color exceeds pixel format range"@)
    } else {
        &&& desc.format == PixelFormat::Nv12 ==> r is Ok
        &&& r is Err ==> r->Err_0 is UnsupportedFrame
        &&& r is Ok ==> r->Ok_0.parts() == (desc, pts, rendered_bytes(atlas, grid, desc, color))
    }
}

/// Without color, a luma sample is the fixed white foreground blended over
/// the fixed black background by the glyph's coverage at that pixel: 16 to
/// 235 for NV12, 64 to 940 for P010LE, rounded; the cell's own levels play
/// no part. Chroma is neutral.
pub proof fn lemma_monochrome_levels(atlas: GlyphAtlas, grid: CellGrid, desc: FrameDesc, py: int, px: int, r: int, col: int)
    ensures
        ({
            let a = coverage(atlas, grid, desc, cell_at(grid, desc, py, px).glyph as int, py, px) as int;
            &&& a <= 255
            &&& luma_code(atlas, grid, desc, false, py, px) == (match desc.format {
                PixelFormat::Nv12 => (16 * (255 - a) + 235 * a + 127) / 255,
                PixelFormat::P010Le => (64 * (255 - a) + 940 * a + 127) / 255,
            })
            &&& a == 255 ==> luma_code(atlas, grid, desc, false, py, px) == (match desc.format {
                PixelFormat::Nv12 => 235int,
                PixelFormat::P010Le => 940int,
            })
            &&& a == 0 ==> luma_code(atlas, grid, desc, false, py, px) == (match desc.format {
                PixelFormat::Nv12 => 16int,
                PixelFormat::P010Le => 64int,
            })
        }),
        chroma_code(atlas, grid, desc, false, r, col) == (match desc.format {
            PixelFormat::Nv12 => 128int,
            PixelFormat::P010Le => 512int,
        }),
{
    let a = coverage(atlas, grid, desc, cell_at(grid, desc, py, px).glyph as int, py, px) as int;
    let aw = atlas.width_spec() as int;
    let ah = atlas.height_spec() as int;
    let g = cell_at(grid, desc, py, px).glyph as int;
    let ly = (py * (grid.height as int) * ah / (desc.height as int)) % ah;
    let lx = (px * (grid.width as int) * aw / (desc.width as int)) % aw;
    let byte = atlas.pixels()[g * (aw * ah) + ly * aw + lx];
    assert(a == byte as int);
    assert(a <= 255);
}

/// With color, a fully covered luma sample shows the cell's own luma and an
/// uncovered one the black background; in between it lies between them.
pub proof fn lemma_color_levels(atlas: GlyphAtlas, grid: CellGrid, desc: FrameDesc, py: int, px: int)
    ensures
        ({
            let cell = cell_at(grid, desc, py, px);
            let a = coverage(atlas, grid, desc, cell.glyph as int, py, px) as int;
            let background: int = match desc.format { PixelFormat::Nv12 => 16, PixelFormat::P010Le => 64 };
            let v = luma_code(atlas, grid, desc, true, py, px) as int;
            &&& a == 255 ==> v == cell.y
            &&& a == 0 ==> v == background
            &&& (background <= cell.y ==> background <= v <= cell.y)
            &&& (cell.y <= background ==> cell.y <= v <= background)
        }),
{
    lemma_monochrome_levels(atlas, grid, desc, py, px, 0, 0);
    let cell = cell_at(grid, desc, py, px);
    let a = coverage(atlas, grid, desc, cell.glyph as int, py, px) as int;
    let bg: int = match desc.format { PixelFormat::Nv12 => 16, PixelFormat::P010Le => 64 };
    let y = cell.y as int;
    let v = luma_code(atlas, grid, desc, true, py, px) as int;
    assert(v == (bg * (255 - a) + y * a + 127) / 255);
    assert((bg * (255 - 255) + y * 255 + 127) / 255 == y) by (nonlinear_arith) requires y >= 0;
    assert((bg * (255 - 0) + y * 0 + 127) / 255 == bg) by (nonlinear_arith) requires bg >= 0;
    assert(bg <= y ==> bg <= (bg * (255 - a) + y * a + 127) / 255 <= y) by (nonlinear_arith)
        requires 0 <= a <= 255, bg >= 0, y >= 0;
    assert(y <= bg ==> y <= (bg * (255 - a) + y * a + 127) / 255 <= bg) by (nonlinear_arith)
        requires 0 <= a <= 255, bg >= 0, y >= 0;
}

/// With color, a chroma sample lies between neutral chroma and its cell's
/// own U (even samples) or V (odd samples): it is the cell's value where
/// the 2×2 block is fully covered and neutral where it is uncovered.
pub proof fn lemma_color_chroma_levels(atlas: GlyphAtlas, grid: CellGrid, desc: FrameDesc, r: int, col: int)
    ensures
        ({
            let py = 2 * r;
            let px = col - col % 2;
            let cell = cell_at(grid, desc, py, px);
            let g = cell.glyph as int;
            let alpha = coverage(atlas, grid, desc, g, py, px) + coverage(atlas, grid, desc, g, py, px + 1)
                + coverage(atlas, grid, desc, g, py + 1, px) + coverage(atlas, grid, desc, g, py + 1, px + 1);
            let own: int = if col % 2 == 0 { cell.u as int } else { cell.v as int };
            let neutral: int = match desc.format { PixelFormat::Nv12 => 128, PixelFormat::P010Le => 512 };
            let c = chroma_code(atlas, grid, desc, true, r, col) as int;
            &&& alpha == 4 * 255 ==> c == own
            &&& alpha == 0 ==> c == neutral
            &&& (neutral <= own ==> neutral <= c <= own)
            &&& (own <= neutral ==> own <= c <= neutral)
        }),
{
    let py = 2 * r;
    let px = col - col % 2;
    let cell = cell_at(grid, desc, py, px);
    let g = cell.glyph as int;
    lemma_monochrome_levels(atlas, grid, desc, py, px, r, col);
    let c0 = coverage(atlas, grid, desc, g, py, px);
    let c1 = coverage(atlas, grid, desc, g, py, px + 1);
    let c2 = coverage(atlas, grid, desc, g, py + 1, px);
    let c3 = coverage(atlas, grid, desc, g, py + 1, px + 1);
    lemma_coverage_byte(atlas, grid, desc, g, py, px);
    lemma_coverage_byte(atlas, grid, desc, g, py, px + 1);
    lemma_coverage_byte(atlas, grid, desc, g, py + 1, px);
    lemma_coverage_byte(atlas, grid, desc, g, py + 1, px + 1);
    let alpha = c0 + c1 + c2 + c3;
    let a = (alpha / 4) as int;
    assert(0 <= a <= 255);
    let own: int = if col % 2 == 0 { cell.u as int } else { cell.v as int };
    let neutral: int = match desc.format { PixelFormat::Nv12 => 128, PixelFormat::P010Le => 512 };
    let c = chroma_code(atlas, grid, desc, true, r, col) as int;
    assert(c == (neutral * (255 - a) + own * a + 127) / 255);
    assert((neutral * (255 - 255) + own * 255 + 127) / 255 == own) by (nonlinear_arith) requires own >= 0;
    assert((neutral * (255 - 0) + own * 0 + 127) / 255 == neutral) by (nonlinear_arith) requires neutral >= 0;
    assert(neutral <= own ==> neutral <= (neutral * (255 - a) + own * a + 127) / 255 <= own) by (nonlinear_arith)
        requires 0 <= a <= 255, neutral >= 0, own >= 0;
    assert(own <= neutral ==> own <= (neutral * (255 - a) + own * a + 127) / 255 <= neutral) by (nonlinear_arith)
        requires 0 <= a <= 255, neutral >= 0, own >= 0;
}

proof fn lemma_coverage_byte(atlas: GlyphAtlas, grid: CellGrid, desc: FrameDesc, g: int, py: int, px: int)
    ensures
        coverage(atlas, grid, desc, g, py, px) <= 255,
{
    let aw = atlas.width_spec() as int;
    let ah = atlas.height_spec() as int;
    let ly = (py * (grid.height as int) * ah / (desc.height as int)) % ah;
    let lx = (px * (grid.width as int) * aw / (desc.width as int)) % aw;
    let byte = atlas.pixels()[g * (aw * ah) + ly * aw + lx];
    assert(coverage(atlas, grid, desc, g, py, px) == byte as nat);
}

/// Two grids of the same shape that differ only in their cells' levels
/// render the same monochrome luma at every pixel.
pub proof fn lemma_monochrome_ignores_cell_levels(
    atlas: GlyphAtlas,
    grid: CellGrid,
    other: CellGrid,
    desc: FrameDesc,
    py: int,
    px: int,
)
    requires
        grid.width == other.width,
        grid.height == other.height,
        grid.cells@.len() == grid.width * grid.height,
        other.cells@.len() == other.width * other.height,
        grid.cells@.len() > 0,
        forall|i: int| 0 <= i < grid.cells@.len() ==> (#[trigger] grid.cells@[i]).glyph == other.cells@[i].glyph,
        0 <= py < desc.height,
        0 <= px < desc.width,
    ensures
        luma_code(atlas, grid, desc, false, py, px) == luma_code(atlas, other, desc, false, py, px),
{
    let gw = grid.width as int;
    let gh = grid.height as int;
    let h = desc.height as int;
    let w = desc.width as int;
    let row = py * gh / h;
    let col = px * gw / w;
    assert(0 <= row < gh || gh == 0) by (nonlinear_arith) requires 0 <= py < h, gh >= 0, row == py * gh / h;
    assert(0 <= col < gw || gw == 0) by (nonlinear_arith) requires 0 <= px < w, gw >= 0, col == px * gw / w;
    assert(gw > 0 && gh > 0) by (nonlinear_arith) requires gw * gh > 0, gw >= 0, gh >= 0;
    assert(0 <= row * gw + col < gw * gh) by (nonlinear_arith) requires 0 <= row < gh, 0 <= col < gw;
    let i = row * gw + col;
    assert(grid.cells@[i].glyph == other.cells@[i].glyph);
    assert(cell_at(grid, desc, py, px).glyph == cell_at(other, desc, py, px).glyph);
}

/// For NV12 the monochrome frame's luma byte at `(px, py)` is that level.
pub proof fn lemma_monochrome_nv12_bytes(atlas: GlyphAtlas, grid: CellGrid, desc: FrameDesc, py: int, px: int)
    requires
        desc.wf(),
        desc.format == PixelFormat::Nv12,
        0 <= py < desc.height,
        0 <= px < desc.width,
    ensures
        ({
            let a = coverage(atlas, grid, desc, cell_at(grid, desc, py, px).glyph as int, py, px) as int;
            rendered_bytes(atlas, grid, desc, false)[py * (desc.width as int) + px] as int
                == (16 * (255 - a) + 235 * a + 127) / 255
        }),
{
    lemma_monochrome_levels(atlas, grid, desc, py, px, 0, 0);
    let w = desc.width as int;
    let h = desc.height as int;
    let b = py * w + px;
    assert(0 <= b < w * h) by (nonlinear_arith) requires b == py * w + px, 0 <= py < h, 0 <= px < w;
    assert(b / w == py && b % w == px) by (nonlinear_arith) requires b == py * w + px, 0 <= px < w;
    assert(b / 1 == b);
    assert(desc.byte_len >= w * h);
    let a = coverage(atlas, grid, desc, cell_at(grid, desc, py, px).glyph as int, py, px) as int;
    assert((16 * (255 - a) + 235 * a + 127) / 255 <= 235) by (nonlinear_arith) requires 0 <= a <= 255;
}

fn blend(background: u32, foreground: u32, alpha: u32) -> (v: u32)
    requires
        background <= 1023,
        foreground <= 1023,
        alpha <= 255,
    ensures
        v == blend_spec(background as nat, foreground as nat, alpha as nat),
        v <= (if background > foreground { background } else { foreground }),
{
    assert(background * (255 - alpha) + foreground * alpha + 127 <= 1023 * 255 + 127) by (nonlinear_arith)
        requires background <= 1023, foreground <= 1023, alpha <= 255;
    let m: u32 = if background > foreground { background } else { foreground };
    assert(background * (255 - alpha) + foreground * alpha <= m * 255) by (nonlinear_arith)
        requires background <= m, foreground <= m, alpha <= 255;
    (background * (255 - alpha) + foreground * alpha + 127) / 255
}

/// Preconditions of the per-pixel work: the checks `render` makes.
pub open spec fn renderable(atlas: GlyphAtlas, grid: CellGrid, desc: FrameDesc) -> bool {
    &&& desc.wf()
    &&& grid.cells@.len() == grid.width * grid.height
    &&& grid.cells@.len() > 0
    &&& glyphs_in_atlas(grid, atlas)
    &&& codes_in_range(grid, desc.format)
}

proof fn lemma_scaled_index(p: int, n: int, total: int)
    requires
        0 <= p < total,
        0 < n,
    ensures
        0 <= p * n / total < n,
{
    assert(0 <= p * n / total < n) by (nonlinear_arith) requires 0 <= p < total, 0 < n;
}

proof fn lemma_split_index(s: int, w: int, row: int, col: int)
    requires
        s == row * w + col,
        0 <= col < w,
        0 <= row,
    ensures
        s / w == row,
        s % w == col,
{
    assert(s / w == row && s % w == col) by (nonlinear_arith) requires s == row * w + col, 0 <= col < w, 0 <= row;
}

proof fn lemma_byte_index(b: int, bps: int, s: int, j: int)
    requires
        b == bps * s + j,
        0 <= j < bps,
        0 <= s,
    ensures
        b / bps == s,
        b % bps == j,
{
    assert(b / bps == s && b % bps == j) by (nonlinear_arith) requires b == bps * s + j, 0 <= j < bps, 0 <= s;
}

impl<'a> Nv12Renderer<'a> {
    /// The atlas glyphs are drawn from.
    pub closed spec fn atlas_spec(self) -> GlyphAtlas {
        *self.atlas
    }

    pub fn new(atlas: &'a GlyphAtlas) -> (r: Self)
        ensures
            r.atlas_spec() == *atlas,
    {
        Nv12Renderer { atlas }
    }

    /// Coverage of glyph `glyph` at the tile position of pixel `(px, py)`.
    fn coverage_at(&self, grid: &CellGrid, desc: &FrameDesc, glyph: u16, py: usize, px: usize) -> (a: u32)
        requires
            renderable(self.atlas_spec(), *grid, *desc),
            glyph < self.atlas_spec().count(),
            py < desc.height,
            px < desc.width,
        ensures
            a == coverage(self.atlas_spec(), *grid, *desc, glyph as int, py as int, px as int),
            a <= 255,
    {
        let count = self.atlas.glyph_count();
        let aw = self.atlas.width();
        let ah = self.atlas.height();
        let pixels = self.atlas.as_r8_slice();
        assert(aw > 0 && ah > 0) by (nonlinear_arith) requires aw * ah > 0, aw >= 0, ah >= 0;
        assert((py as int) * (grid.height as int) <= 0xffff_ffff * 0xffff_ffff
            && (py as int) * (grid.height as int) * (ah as int) <= 0xffff_ffff * 0xffff_ffff * 0xffff_ffff) by (nonlinear_arith)
            requires py <= 0xffff_ffff, grid.height <= 0xffff_ffff, ah <= 0xffff_ffff;
        assert((px as int) * (grid.width as int) <= 0xffff_ffff * 0xffff_ffff
            && (px as int) * (grid.width as int) * (aw as int) <= 0xffff_ffff * 0xffff_ffff * 0xffff_ffff) by (nonlinear_arith)
            requires px <= 0xffff_ffff, grid.width <= 0xffff_ffff, aw <= 0xffff_ffff;
        let ly = ((py as u128 * grid.height as u128 * ah as u128) / desc.height as u128) % ah as u128;
        let lx = ((px as u128 * grid.width as u128 * aw as u128) / desc.width as u128) % aw as u128;
        let tile = aw as usize * ah as usize;
        assert(glyph as int * tile + ly * aw + lx < (glyph as int + 1) * tile) by (nonlinear_arith)
            requires ly < ah, lx < aw, tile == aw * ah;
        assert((glyph as int + 1) * tile <= count * tile) by (nonlinear_arith) requires glyph < count, tile >= 0;
        let plen = pixels.len();
        assert(count * tile == plen);
        assert(glyph as int * tile <= glyph as int * tile + ly * aw && ly * aw <= ly * aw + lx) by (nonlinear_arith)
            requires ly >= 0, aw >= 0, lx >= 0;
        assert(ly * aw <= 0xffff_ffff * 0xffff_ffff) by (nonlinear_arith) requires ly < ah, ah <= 0xffff_ffff, aw <= 0xffff_ffff, ly >= 0;
        let index = glyph as usize * tile + ly as usize * aw as usize + lx as usize;
        pixels[index] as u32
    }

    /// Luma code of pixel `(px, py)`.
    fn luma_at(&self, grid: &CellGrid, desc: &FrameDesc, color: bool, py: usize, px: usize) -> (code: u32)
        requires
            renderable(self.atlas_spec(), *grid, *desc),
            py < desc.height,
            px < desc.width,
        ensures
            code == luma_code(self.atlas_spec(), *grid, *desc, color, py as int, px as int),
            code <= max_code(desc.format),
    {
        let gw = grid.width as usize;
        let gh = grid.height as usize;
        assert(gw > 0 && gh > 0) by (nonlinear_arith) requires gw * gh > 0, gw >= 0, gh >= 0;
        proof {
            lemma_scaled_index(py as int, gh as int, desc.height as int);
            lemma_scaled_index(px as int, gw as int, desc.width as int);
        }
        assert((py as int) * (gh as int) <= 0xffff_ffff * 0xffff_ffff) by (nonlinear_arith)
            requires py <= 0xffff_ffff, gh <= 0xffff_ffff;
        assert((px as int) * (gw as int) <= 0xffff_ffff * 0xffff_ffff) by (nonlinear_arith)
            requires px <= 0xffff_ffff, gw <= 0xffff_ffff;
        let cy = ((py as u128 * gh as u128) / desc.height as u128) as usize;
        let cx = ((px as u128 * gw as u128) / desc.width as u128) as usize;
        assert(cy * gw + cx < gw * gh) by (nonlinear_arith) requires cy < gh, cx < gw;
        let n = grid.cells.len();
        assert(n == gw * gh);
        assert(cy * gw <= cy * gw + cx) by (nonlinear_arith) requires cx >= 0, cy >= 0, gw >= 0;
        let cell = grid.cells[cy * gw + cx];
        assert(cell == grid.cells@[cy * gw + cx]);
        let alpha = self.coverage_at(grid, desc, cell.glyph, py, px);
        let p010 = desc.format == PixelFormat::P010Le;
        let background: u32 = if p010 { 64 } else { 16 };
        let mono: u32 = if p010 { 940 } else { 235 };
        let foreground: u32 = if color { cell.y as u32 } else { mono };
        blend(background, foreground, alpha)
    }

    /// U and V codes of chroma row `r`, samples `2q` and `2q + 1`.
    fn chroma_at(&self, grid: &CellGrid, desc: &FrameDesc, color: bool, r: usize, q: usize) -> (codes: (u32, u32))
        requires
            renderable(self.atlas_spec(), *grid, *desc),
            r < desc.height / 2,
            q < desc.width / 2,
        ensures
            codes.0 == chroma_code(self.atlas_spec(), *grid, *desc, color, r as int, 2 * q as int),
            codes.1 == chroma_code(self.atlas_spec(), *grid, *desc, color, r as int, 2 * q as int + 1),
            codes.0 <= max_code(desc.format),
            codes.1 <= max_code(desc.format),
    {
        let p010 = desc.format == PixelFormat::P010Le;
        let neutral: u32 = if p010 { 512 } else { 128 };
        if !color {
            return (neutral, neutral);
        }
        let py = 2 * r;
        let px = 2 * q;
        let gw = grid.width as usize;
        let gh = grid.height as usize;
        assert(gw > 0 && gh > 0) by (nonlinear_arith) requires gw * gh > 0, gw >= 0, gh >= 0;
        proof {
            lemma_scaled_index(py as int, gh as int, desc.height as int);
            lemma_scaled_index(px as int, gw as int, desc.width as int);
        }
        assert((py as int) * (gh as int) <= 0xffff_ffff * 0xffff_ffff) by (nonlinear_arith)
            requires py <= 0xffff_ffff, gh <= 0xffff_ffff;
        assert((px as int) * (gw as int) <= 0xffff_ffff * 0xffff_ffff) by (nonlinear_arith)
            requires px <= 0xffff_ffff, gw <= 0xffff_ffff;
        let cy = ((py as u128 * gh as u128) / desc.height as u128) as usize;
        let cx = ((px as u128 * gw as u128) / desc.width as u128) as usize;
        assert(cy * gw + cx < gw * gh) by (nonlinear_arith) requires cy < gh, cx < gw;
        let n = grid.cells.len();
        assert(n == gw * gh);
        assert(cy * gw <= cy * gw + cx) by (nonlinear_arith) requires cx >= 0, cy >= 0, gw >= 0;
        let cell = grid.cells[cy * gw + cx];
        assert(cell == grid.cells@[cy * gw + cx]);
        assert(cell.glyph < self.atlas_spec().count());
        let a0 = self.coverage_at(grid, desc, cell.glyph, py, px);
        let a1 = self.coverage_at(grid, desc, cell.glyph, py, px + 1);
        let a2 = self.coverage_at(grid, desc, cell.glyph, py + 1, px);
        let a3 = self.coverage_at(grid, desc, cell.glyph, py + 1, px + 1);
        let average = (a0 + a1 + a2 + a3) / 4;
        assert((2 * q as int) % 2 == 0 && (2 * q as int + 1) % 2 == 1);
        assert((2 * q as int + 1) - (2 * q as int + 1) % 2 == 2 * q as int);
        (blend(neutral, cell.u as u32, average), blend(neutral, cell.v as u32, average))
    }

    /// Writes sample `s` of the plane starting at byte `base`.
    fn store(storage: &mut HostFrame, p010: bool, base: usize, s: usize, code: u32)
        requires
            base + (if p010 { 2 * s + 2 } else { s + 1 }) <= old(storage)@.len(),
            code <= (if p010 { 1023int } else { 255int }),
        ensures
            final(storage)@.len() == old(storage)@.len(),
            p010 ==> final(storage)@ == old(storage)@.update(base + 2 * s, code_byte(code as nat, PixelFormat::P010Le, 0))
                .update(base + 2 * s + 1, code_byte(code as nat, PixelFormat::P010Le, 1)),
            !p010 ==> final(storage)@ == old(storage)@.update(base + s, code_byte(code as nat, PixelFormat::Nv12, 0)),
    {
        let len = storage.as_slice().len();
        if p010 {
            let word = code * 64;
            storage.set(base + 2 * s, (word % 256) as u8);
            storage.set(base + 2 * s + 1, (word / 256) as u8);
        } else {
            storage.set(base + s, code as u8);
        }
    }

    /// Fills the luma plane.
    fn fill_luma(&self, storage: &mut HostFrame, grid: &CellGrid, desc: &FrameDesc, color: bool)
        requires
            renderable(self.atlas_spec(), *grid, *desc),
            old(storage)@.len() == desc.byte_len,
        ensures
            final(storage)@.len() == desc.byte_len,
            forall|b: int| 0 <= b < (desc.width as int) * (desc.height as int) * bytes_per_sample_spec(desc.format)
                ==> #[trigger] final(storage)@[b] == rendered_byte(self.atlas_spec(), *grid, *desc, color, b),
            forall|b: int| (desc.width as int) * (desc.height as int) * bytes_per_sample_spec(desc.format) <= b < desc.byte_len
                ==> #[trigger] final(storage)@[b] == old(storage)@[b],
    {
        let ghost atlas = self.atlas_spec();
        let ghost start = storage@;
        let p010 = desc.format == PixelFormat::P010Le;
        let width = desc.width as usize;
        let height = desc.height as usize;
        let ghost bps: int = bytes_per_sample_spec(desc.format) as int;
        let ghost luma_len = (width as int) * (height as int) * bps;
        proof {
            crate::cpu::mapper::lemma_plane_sizes_pub(*desc);
        }
        let mut py: usize = 0;
        while py < height
            invariant
                renderable(atlas, *grid, *desc),
                atlas == self.atlas_spec(),
                p010 == (desc.format == PixelFormat::P010Le),
                bps == (if p010 { 2int } else { 1int }),
                width == desc.width,
                height == desc.height,
                luma_len == (width as int) * (height as int) * bps,
                luma_len <= desc.byte_len,
                storage@.len() == desc.byte_len,
                py <= height,
                forall|b: int| 0 <= b < bps * ((py as int) * (width as int))
                    ==> #[trigger] storage@[b] == rendered_byte(atlas, *grid, *desc, color, b),
                forall|b: int| bps * ((py as int) * (width as int)) <= b < desc.byte_len
                    ==> #[trigger] storage@[b] == start[b],
            decreases height - py,
        {
            let mut px: usize = 0;
            while px < width
                invariant
                    renderable(atlas, *grid, *desc),
                    atlas == self.atlas_spec(),
                    p010 == (desc.format == PixelFormat::P010Le),
                    bps == (if p010 { 2int } else { 1int }),
                    width == desc.width,
                    height == desc.height,
                    luma_len == (width as int) * (height as int) * bps,
                    luma_len <= desc.byte_len,
                    storage@.len() == desc.byte_len,
                    py < height,
                    px <= width,
                    forall|b: int| 0 <= b < bps * ((py as int) * (width as int) + px)
                        ==> #[trigger] storage@[b] == rendered_byte(atlas, *grid, *desc, color, b),
                    forall|b: int| bps * ((py as int) * (width as int) + px) <= b < desc.byte_len
                        ==> #[trigger] storage@[b] == start[b],
                decreases width - px,
            {
                let code = self.luma_at(grid, desc, color, py, px);
                assert((py as int) * (width as int) + px < (width as int) * (height as int)) by (nonlinear_arith)
                    requires py < height, px < width;
                assert(bps * ((py as int) * (width as int) + px + 1) <= luma_len) by (nonlinear_arith)
                    requires (py as int) * (width as int) + px < (width as int) * (height as int),
                        luma_len == (width as int) * (height as int) * bps, bps >= 1;
                let s = py * width + px;
                let ghost before = storage@;
                Self::store(storage, p010, 0, s, code);
                proof {
                    assert forall|b: int| 0 <= b < bps * (s as int + 1) implies #[trigger] storage@[b]
                        == rendered_byte(atlas, *grid, *desc, color, b) by {
                        if b >= bps * (s as int) {
                            let j = b - bps * (s as int);
                            lemma_byte_index(b, bps, s as int, j);
                            lemma_split_index(s as int, width as int, py as int, px as int);
                        }
                    }
                }
                px = px + 1;
            }
            assert(bps * ((py as int) * (width as int) + width) == bps * ((py as int + 1) * (width as int))) by (nonlinear_arith);
            py = py + 1;
        }
        assert(bps * ((height as int) * (width as int)) == luma_len) by (nonlinear_arith)
            requires luma_len == (width as int) * (height as int) * bps;
    }

    /// Fills the chroma plane.
    fn fill_chroma(&self, storage: &mut HostFrame, grid: &CellGrid, desc: &FrameDesc, color: bool)
        requires
            renderable(self.atlas_spec(), *grid, *desc),
            old(storage)@.len() == desc.byte_len,
        ensures
            final(storage)@.len() == desc.byte_len,
            forall|b: int| (desc.width as int) * (desc.height as int) * bytes_per_sample_spec(desc.format) <= b < desc.byte_len
                ==> #[trigger] final(storage)@[b] == rendered_byte(self.atlas_spec(), *grid, *desc, color, b),
            forall|b: int| 0 <= b < (desc.width as int) * (desc.height as int) * bytes_per_sample_spec(desc.format)
                ==> #[trigger] final(storage)@[b] == old(storage)@[b],
    {
        let ghost atlas = self.atlas_spec();
        let ghost start = storage@;
        let p010 = desc.format == PixelFormat::P010Le;
        let width = desc.width as usize;
        let height = desc.height as usize;
        let ghost bps: int = bytes_per_sample_spec(desc.format) as int;
        proof {
            crate::cpu::mapper::lemma_plane_sizes_pub(*desc);
        }
        let base: usize = desc.y_plane_len();
        let ghost luma_len = base as int;
        assert(luma_len == (width as int) * (height as int) * bps) by (nonlinear_arith)
            requires luma_len == (height as int) * (width as int) * bps;
        let rows = height / 2;
        let pairs = width / 2;
        assert(desc.byte_len - luma_len == bps * (rows as int) * (width as int)) by (nonlinear_arith)
            requires desc.byte_len - luma_len == (rows as int) * (width as int) * bps;
        assert(width == 2 * pairs);
        let mut r: usize = 0;
        while r < rows
            invariant
                renderable(atlas, *grid, *desc),
                atlas == self.atlas_spec(),
                p010 == (desc.format == PixelFormat::P010Le),
                bps == (if p010 { 2int } else { 1int }),
                width == desc.width,
                height == desc.height,
                rows == height / 2,
                width == 2 * pairs,
                base as int == luma_len,
                luma_len == (width as int) * (height as int) * bps,
                desc.byte_len - luma_len == bps * (rows as int) * (width as int),
                storage@.len() == desc.byte_len,
                r <= rows,
                forall|b: int| luma_len <= b < luma_len + bps * ((r as int) * (width as int))
                    ==> #[trigger] storage@[b] == rendered_byte(atlas, *grid, *desc, color, b),
                forall|b: int| (0 <= b < luma_len || luma_len + bps * ((r as int) * (width as int)) <= b < desc.byte_len)
                    ==> #[trigger] storage@[b] == start[b],
            decreases rows - r,
        {
            let mut q: usize = 0;
            while q < pairs
                invariant
                    renderable(atlas, *grid, *desc),
                    atlas == self.atlas_spec(),
                    p010 == (desc.format == PixelFormat::P010Le),
                    bps == (if p010 { 2int } else { 1int }),
                    width == desc.width,
                    height == desc.height,
                    rows == height / 2,
                    width == 2 * pairs,
                    base as int == luma_len,
                    luma_len == (width as int) * (height as int) * bps,
                    desc.byte_len - luma_len == bps * (rows as int) * (width as int),
                    storage@.len() == desc.byte_len,
                    r < rows,
                    q <= pairs,
                    forall|b: int| luma_len <= b < luma_len + bps * ((r as int) * (width as int) + 2 * q)
                        ==> #[trigger] storage@[b] == rendered_byte(atlas, *grid, *desc, color, b),
                    forall|b: int| (0 <= b < luma_len || luma_len + bps * ((r as int) * (width as int) + 2 * q) <= b < desc.byte_len)
                        ==> #[trigger] storage@[b] == start[b],
                decreases pairs - q,
            {
                let (u, v) = self.chroma_at(grid, desc, color, r, q);
                assert((r as int) * (width as int) + 2 * q + 2 <= (rows as int) * (width as int)) by (nonlinear_arith)
                    requires r < rows, q < pairs, width == 2 * pairs;
                assert(bps * ((r as int) * (width as int) + 2 * q + 2) <= bps * (rows as int) * (width as int)) by (nonlinear_arith)
                    requires (r as int) * (width as int) + 2 * q + 2 <= (rows as int) * (width as int), bps >= 1;
                let s = r * width + 2 * q;
                Self::store(storage, p010, base, s, u);
                Self::store(storage, p010, base, s + 1, v);
                proof {
                    assert forall|b: int| luma_len <= b < luma_len + bps * (s as int + 2) implies #[trigger] storage@[b]
                        == rendered_byte(atlas, *grid, *desc, color, b) by {
                        if b >= luma_len + bps * (s as int) {
                            let c = b - luma_len;
                            assert(!(b < luma_len));
                            if c < bps * (s as int + 1) {
                                lemma_byte_index(c, bps, s as int, c - bps * (s as int));
                                lemma_split_index(s as int, width as int, r as int, 2 * q as int);
                            } else {
                                lemma_byte_index(c, bps, s as int + 1, c - bps * (s as int + 1));
                                lemma_split_index(s as int + 1, width as int, r as int, 2 * q as int + 1);
                            }
                        }
                    }
                }
                q = q + 1;
            }
            assert(bps * ((r as int) * (width as int) + 2 * pairs) == bps * ((r as int + 1) * (width as int))) by (nonlinear_arith)
                requires width == 2 * pairs;
            r = r + 1;
        }
        assert(bps * ((rows as int) * (width as int)) == bps * (rows as int) * (width as int)) by (nonlinear_arith);
    }

    /// Renders `grid` into a new frame of `desc`, keeping `pts`. With
    /// `color` the cells' own luma and chroma are drawn; otherwise glyphs
    /// are drawn in white over neutral chroma.
    pub fn render(&self, grid: &CellGrid, desc: FrameDesc, pts: Option<i64>, color: bool) -> (r: Result<VideoFrame>)
        requires
            !(desc.wf() && grid.cells@.len() == grid.width * grid.height && grid.cells@.len() == 0),
        ensures
            render_outcome(r, self.atlas_spec(), *grid, desc, pts, color),
    {
        proof {
            reveal_strlit("cell grid storage is incomplete");
            reveal_strlit("cell glyph index exceeds atlas");
            reveal_strlit("cell color exceeds pixel format range");
        }
        let ghost atlas = self.atlas_spec();
        desc.validate_layout()?;
        let n = grid.cells.len();
        assert((grid.width as int) * (grid.height as int) <= 0xffff_ffff * 0xffff_ffff) by (nonlinear_arith)
            requires grid.width <= 0xffff_ffff, grid.height <= 0xffff_ffff;
        if n as u64 != grid.width as u64 * grid.height as u64 {
            return Err(Error::Cpu(String::from_str("cell grid storage is incomplete")));
        }
        let count = self.atlas.glyph_count();
        let mut i: usize = 0;
        while i < n
            invariant
                desc.wf(),
                n == grid.cells@.len(),
                n == grid.width * grid.height,
                count == atlas.count(),
                atlas == self.atlas_spec(),
                i <= n,
                forall|k: int| 0 <= k < i ==> (#[trigger] grid.cells@[k]).glyph < atlas.count(),
            decreases n - i,
        {
            if grid.cells[i].glyph as usize >= count {
                assert(!glyphs_in_atlas(*grid, atlas)) by {
                    assert(grid.cells@[i as int].glyph >= atlas.count());
                }
                return Err(Error::Cpu(String::from_str("cell glyph index exceeds atlas")));
            }
            i = i + 1;
        }
        let p010 = desc.format == PixelFormat::P010Le;
        let max: u16 = if p010 { 1023 } else { 255 };
        let mut i: usize = 0;
        while i < n
            invariant
                desc.wf(),
                n == grid.cells@.len(),
                n == grid.width * grid.height,
                glyphs_in_atlas(*grid, atlas),
                atlas == self.atlas_spec(),
                max == max_code(desc.format),
                i <= n,
                forall|k: int| 0 <= k < i ==> {
                    let c = #[trigger] grid.cells@[k];
                    c.y <= max_code(desc.format) && c.u <= max_code(desc.format) && c.v <= max_code(desc.format)
                },
            decreases n - i,
        {
            let c = grid.cells[i];
            if c.y > max || c.u > max || c.v > max {
                assert(!codes_in_range(*grid, desc.format)) by {
                    assert(c == grid.cells@[i as int]);
                }
                return Err(Error::Cpu(String::from_str("cell color exceeds pixel format range")));
            }
            i = i + 1;
        }
        assert(renderable(atlas, *grid, desc));
        let mut storage = if p010 {
            HostFrame::try_new_zeroed(&desc)?
        } else {
            HostFrame::new_zeroed(&desc)
        };
        self.fill_luma(&mut storage, grid, &desc, color);
        self.fill_chroma(&mut storage, grid, &desc, color);
        proof {
            crate::cpu::mapper::lemma_plane_sizes_pub(desc);
            assert(storage@ =~= rendered_bytes(atlas, *grid, desc, color));
        }
        VideoFrame::new_host(desc, pts, storage)
    }
}

} // verus!
