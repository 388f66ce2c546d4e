//! Glyph atlases: one R8 coverage tile per ramp character, stored tile after
//! tile. The built-in atlas comes from the `font8x8` Basic Latin bitmaps.

use vstd::prelude::*;
use vstd::string::StrSliceExecFns;
use crate::debug::{str_debug, str_debug_text};
use crate::text::cat;
use font8x8::UnicodeFonts;

verus! {

/// Rust `Debug` text of a character: quoted, with escapes.
pub uninterp spec fn char_debug_text(c: char) -> Seq<char>;

/// `Debug` formatting of a character.
#[verifier::external_body]
pub(crate) fn char_debug(c: char) -> (s: String)
    ensures
        s@ == char_debug_text(c),
{
    format!("{:?}", c)
}

/// The eight row bitmaps `font8x8` holds for a Basic Latin character
/// (bit `x` of row `y` is pixel `(x, y)`).
pub uninterp spec fn basic_font_rows(c: char) -> Seq<u8>;

/// `font8x8::BASIC_FONTS.get(c)`: the bitmap of a character below U+0080,
/// nothing for any other character.
#[verifier::external_body]
fn basic_font_glyph(c: char) -> (r: Option<[u8; 8]>)
    ensures
        r is Some <==> (c as u32) < 128,
        r matches Some(rows) ==> rows@ == basic_font_rows(c),
{
    font8x8::BASIC_FONTS.get(c)
}

/// Why an atlas cannot be built.
#[derive(Clone, Debug, PartialEq, Eq)]
pub enum FontError {
    MissingGlyph(char),
    UnsupportedFont(String),
    Font { path: String, operation: String, detail: String },
    AtlasTooLarge,
}

pub open spec fn font_error_text(e: FontError) -> Seq<char> {
    match e {
        FontError::MissingGlyph(c) => "the built-in font does not contain glyph "@ + char_debug_text(c),
        FontError::UnsupportedFont(f) => "only the built-in font is available in Stage 0; got "@ + str_debug_text(f@),
        FontError::Font { path, operation, detail } => operation@ + " failed for font "@ + path@ + ": "@ + detail@,
        FontError::AtlasTooLarge => "glyph atlas geometry is too large"@,
    }
}

impl FontError {
    /// The error's message.
    pub fn to_string(&self) -> (s: String)
        ensures
            s@ == font_error_text(*self),
    {
        proof {
            reveal_strlit("the built-in font does not contain glyph ");
            reveal_strlit("only the built-in font is available in Stage 0; got ");
            reveal_strlit(" failed for font ");
            reveal_strlit(": ");
            reveal_strlit("glyph atlas geometry is too large");
        }
        match self {
            FontError::MissingGlyph(c) => {
                let d = char_debug(*c);
                cat("the built-in font does not contain glyph ", d.as_str())
            },
            FontError::UnsupportedFont(f) => {
                let d = str_debug(f.as_str());
                cat("only the built-in font is available in Stage 0; got ", d.as_str())
            },
            FontError::Font { path, operation, detail } => {
                let mut s = cat(operation.as_str(), " failed for font ");
                s.append(path.as_str());
                s.append(": ");
                s.append(detail.as_str());
                s
            },
            FontError::AtlasTooLarge => String::from_str("glyph atlas geometry is too large"),
        }
    }
}

/// R8 glyph tiles of one size.
#[derive(Debug)]
pub struct GlyphAtlas {
    width: u32,
    height: u32,
    glyphs: Vec<u8>,
}

/// The largest atlas, in bytes.
pub const MAX_ATLAS_BYTES: usize = 268435456;

/// Bytes of an atlas: `width × height × count`, when the tiles are
/// non-empty and a tile and the total stay within the limit.
pub open spec fn atlas_len(width: u32, height: u32, count: usize) -> Option<nat> {
    if width == 0 || height == 0 || width * height > MAX_ATLAS_BYTES || width * height * count > MAX_ATLAS_BYTES {
        None
    } else {
        Some((width * height * count) as nat)
    }
}

/// Whether bit `x` of a bitmap row is set.
pub open spec fn bit_set(row: u8, x: u8) -> bool {
    row & (1u8 << x) != 0
}

/// The 64 coverage bytes of a built-in glyph, row by row.
pub open spec fn glyph_tile(rows: Seq<u8>) -> Seq<u8> {
    Seq::new(64, |i: int| if bit_set(rows[i / 8], (i % 8) as u8) { 255u8 } else { 0u8 })
}

/// Tiles of the first `n` characters, concatenated.
pub open spec fn builtin_pixels(chars: Seq<char>, n: int) -> Seq<u8>
    decreases n,
{
    if n <= 0 {
        Seq::empty()
    } else {
        builtin_pixels(chars, n - 1) + glyph_tile(basic_font_rows(chars[n - 1]))
    }
}

/// The first character among the first `n` that the built-in font lacks.
pub open spec fn first_missing(chars: Seq<char>, n: int) -> Option<char>
    decreases n,
{
    if n <= 0 {
        None
    } else if first_missing(chars, n - 1) is Some {
        first_missing(chars, n - 1)
    } else if chars[n - 1] as u32 >= 128 {
        Some(chars[n - 1])
    } else {
        None
    }
}

impl GlyphAtlas {
    pub closed spec fn width_spec(self) -> u32 {
        self.width
    }

    pub closed spec fn height_spec(self) -> u32 {
        self.height
    }

    /// Every tile's bytes, tile after tile.
    pub closed spec fn pixels(self) -> Seq<u8> {
        self.glyphs@
    }

    /// Bytes of one tile.
    pub open spec fn tile_len(self) -> nat {
        (self.width_spec() * self.height_spec()) as nat
    }

    /// Number of tiles.
    pub open spec fn count(self) -> nat {
        self.pixels().len() / self.tile_len()
    }

    /// Non-empty tiles that exactly fill the bytes.
    #[verifier::type_invariant]
    spec fn tiles_fill(self) -> bool {
        &&& self.width > 0 && self.height > 0
        &&& self.width * self.height <= u32::MAX
        &&& self.glyphs@.len() % ((self.width * self.height) as nat) == 0
    }

    /// The atlas of the built-in 8×8 font for the characters of `charset`.
    pub fn builtin(font: &str, charset: &str) -> (r: Result<Self, FontError>)
        ensures
            font@ != "builtin-8x8"@ ==> (r matches Err(FontError::UnsupportedFont(f)) && f@ == font@),
            font@ == "builtin-8x8"@ && first_missing(charset@, charset@.len() as int) is Some
                ==> r == Err::<Self, FontError>(FontError::MissingGlyph(first_missing(charset@, charset@.len() as int)->0)),
            font@ == "builtin-8x8"@ && first_missing(charset@, charset@.len() as int) is None
                ==> (r matches Ok(a) && a.width_spec() == 8 && a.height_spec() == 8
                    && a.pixels() == builtin_pixels(charset@, charset@.len() as int)),
    {
        proof { reveal_strlit("builtin-8x8"); }
        let name = String::from_str(font);
        let expected = String::from_str("builtin-8x8");
        if name != expected {
            return Err(FontError::UnsupportedFont(name));
        }
        let count = charset.unicode_len();
        let mut glyphs: Vec<u8> = Vec::new();
        let mut i: usize = 0;
        while i < count
            invariant
                font@ == "builtin-8x8"@,
                count == charset@.len(),
                i <= count,
                first_missing(charset@, i as int) is None,
                glyphs@ == builtin_pixels(charset@, i as int),
                glyphs@.len() == 64 * i,
            decreases count - i,
        {
            let c = charset.get_char(i);
            let rows = match basic_font_glyph(c) {
                Some(rows) => rows,
                None => {
                    proof { lemma_first_missing_stays(charset@, i as int + 1, count as int); }
                    return Err(FontError::MissingGlyph(c));
                },
            };
            let ghost before = glyphs@;
            let mut y: usize = 0;
            while y < 8
                invariant
                    y <= 8,
                    rows@ == basic_font_rows(c),
                    glyphs@.len() == before.len() + 8 * y,
                    glyphs@.subrange(0, before.len() as int) == before,
                    forall|k: int| 0 <= k < 8 * y ==> #[trigger] glyphs@[before.len() + k] == glyph_tile(rows@)[k],
                decreases 8 - y,
            {
                let row = rows[y];
                let mut x: u8 = 0;
                while x < 8
                    invariant
                        y < 8,
                        x <= 8,
                        row == rows@[y as int],
                        rows@ == basic_font_rows(c),
                        glyphs@.len() == before.len() + 8 * y + x,
                        glyphs@.subrange(0, before.len() as int) == before,
                        forall|k: int| 0 <= k < 8 * y + x ==> #[trigger] glyphs@[before.len() + k] == glyph_tile(rows@)[k],
                    decreases 8 - x,
                {
                    let value: u8 = if row & (1u8 << x) == 0 { 0 } else { 255 };
                    let ghost k = 8 * y + x;
                    assert(k / 8 == y && k % 8 == x);
                    glyphs.push(value);
                    assert(glyphs@.subrange(0, before.len() as int) =~= before);
                    x = x + 1;
                }
                y = y + 1;
            }
            assert forall|j: int| 0 <= j < glyphs@.len() implies #[trigger] glyphs@[j] == (before + glyph_tile(basic_font_rows(c)))[j] by {
                if j >= before.len() {
                    let k = j - before.len();
                    assert(glyphs@[before.len() + k] == glyph_tile(rows@)[k]);
                } else {
                    assert(glyphs@.subrange(0, before.len() as int)[j] == before[j]);
                }
            }
            assert(glyphs@ =~= before + glyph_tile(basic_font_rows(c)));
            i = i + 1;
        }
        assert(glyphs@.len() % 64 == 0);
        Ok(GlyphAtlas { width: 8, height: 8, glyphs })
    }

    pub fn width(&self) -> (w: u32)
        ensures
            w == self.width_spec(),
    {
        self.width
    }

    pub fn height(&self) -> (h: u32)
        ensures
            h == self.height_spec(),
    {
        self.height
    }

    /// Number of tiles.
    pub fn glyph_count(&self) -> (n: usize)
        ensures
            n == self.count(),
            self.tile_len() > 0,
            n * self.tile_len() == self.pixels().len(),
            self.tile_len() <= u32::MAX,
    {
        proof { use_type_invariant(self); }
        assert(self.width * self.height > 0) by (nonlinear_arith) requires self.width > 0, self.height > 0;
        let tile = self.width as usize * self.height as usize;
        let n = self.glyphs.len() / tile;
        assert(n * tile == self.glyphs@.len()) by (nonlinear_arith)
            requires n == (self.glyphs@.len() as int) / (tile as int), (self.glyphs@.len() as int) % (tile as int) == 0, tile > 0;
        n
    }

    /// Every tile's bytes, tile after tile.
    pub fn as_r8_slice(&self) -> (s: &[u8])
        ensures
            s@ == self.pixels(),
    {
        self.glyphs.as_slice()
    }

    /// The bytes of tile `index`.
    pub fn glyph(&self, index: usize) -> (s: &[u8])
        requires
            index < self.count(),
        ensures
            s@ == self.pixels().subrange(index * self.tile_len(), (index + 1) * self.tile_len()),
    {
        proof { use_type_invariant(self); }
        let n = self.glyph_count();
        let len = self.glyphs.len();
        let tile = self.width as usize * self.height as usize;
        assert(tile == self.tile_len());
        assert((index + 1) * tile <= n * tile) by (nonlinear_arith) requires index < n, tile >= 0;
        assert(index * tile <= (index + 1) * tile) by (nonlinear_arith) requires tile >= 0;
        assert(n * tile == self.glyphs@.len());
        slice_range(self.glyphs.as_slice(), index * tile, (index + 1) * tile)
    }

    /// Bytes of an atlas of `count` tiles of `width × height`.
    pub fn checked_len(width: u32, height: u32, count: usize) -> (r: Result<usize, FontError>)
        ensures
            atlas_len(width, height, count) matches Some(n) ==> r == Ok::<usize, FontError>(n as usize),
            atlas_len(width, height, count) is None ==> r == Err::<usize, FontError>(FontError::AtlasTooLarge),
    {
        if width == 0 || height == 0 {
            return Err(FontError::AtlasTooLarge);
        }
        assert((width as int) * (height as int) <= 0xffff_ffff * 0xffff_ffff) by (nonlinear_arith)
            requires width <= 0xffff_ffff, height <= 0xffff_ffff;
        assert((width as int) * (height as int) > 0) by (nonlinear_arith) requires width > 0, height > 0;
        let tile = (width as u64) * (height as u64);
        if tile > MAX_ATLAS_BYTES as u64 {
            return Err(FontError::AtlasTooLarge);
        }
        if count as u64 > (MAX_ATLAS_BYTES as u64) / tile {
            assert(width * height * count > MAX_ATLAS_BYTES) by (nonlinear_arith)
                requires tile == width * height, count > (MAX_ATLAS_BYTES as int) / (tile as int), tile > 0;
            return Err(FontError::AtlasTooLarge);
        }
        assert(tile * count <= MAX_ATLAS_BYTES) by (nonlinear_arith)
            requires count <= (MAX_ATLAS_BYTES as int) / (tile as int), tile > 0;
        Ok((tile as usize) * count)
    }

    /// An atlas over caller-supplied R8 tiles.
    pub fn from_r8(width: u32, height: u32, count: usize, pixels: Vec<u8>) -> (r: Result<Self, FontError>)
        ensures
            atlas_len(width, height, count) is None ==> r == Err::<Self, FontError>(FontError::AtlasTooLarge),
            atlas_len(width, height, count) matches Some(n) && n != pixels@.len()
                ==> r == Err::<Self, FontError>(FontError::AtlasTooLarge),
            atlas_len(width, height, count) == Some(pixels@.len())
                ==> (r matches Ok(a) && a.width_spec() == width && a.height_spec() == height
                    && a.pixels() == pixels@ && a.count() == count),
    {
        let len = Self::checked_len(width, height, count)?;
        if len != pixels.len() {
            return Err(FontError::AtlasTooLarge);
        }
        assert(width * height * count == pixels@.len());
        assert(pixels@.len() % ((width * height) as nat) == 0
            && pixels@.len() / ((width * height) as nat) == count) by (nonlinear_arith)
            requires width * height * count == pixels@.len(), width > 0, height > 0;

        Ok(GlyphAtlas { width, height, glyphs: pixels })
    }
}

impl Clone for GlyphAtlas {
    fn clone(&self) -> (a: Self)
        ensures
            a.width_spec() == self.width_spec(),
            a.height_spec() == self.height_spec(),
            a.pixels() == self.pixels(),
    {
        proof { use_type_invariant(self); }
        let glyphs = self.glyphs.clone();
        assert(glyphs@ =~= self.glyphs@);
        GlyphAtlas { width: self.width, height: self.height, glyphs }
    }
}

proof fn lemma_first_missing_stays(chars: Seq<char>, k: int, n: int)
    requires
        0 <= k <= n,
        first_missing(chars, k) is Some,
    ensures
        first_missing(chars, n) == first_missing(chars, k),
    decreases n - k,
{
    if k < n {
        lemma_first_missing_stays(chars, k, n - 1);
    }
}

/// `s[start .. end]`.
fn slice_range(s: &[u8], start: usize, end: usize) -> (r: &[u8])
    requires
        start <= end <= s@.len(),
    ensures
        r@ == s@.subrange(start as int, end as int),
{
    let (head, _) = s.split_at(end);
    let (_, tail) = head.split_at(start);
    tail
}

} // verus!
