//! ASCII grid configuration and its validation.

use vstd::prelude::*;
use vstd::string::StrSliceExecFns;
use crate::error::{Error, Result, invalid_with};

verus! {

/// Requested processing backend.
#[derive(Clone, Copy, Debug, PartialEq, Eq, Structural)]
pub enum ProcessingBackend {
    Auto,
    Cpu,
    Vulkan,
}

impl Default for ProcessingBackend {
    fn default() -> (b: Self)
        ensures
            b == ProcessingBackend::Auto,
    {
        ProcessingBackend::Auto
    }
}

/// Grid geometry, glyph ramp, font and color mode.
#[derive(Clone, Debug, PartialEq)]
pub struct AsciiConfig {
    pub grid_width: u32,
    pub grid_height: Option<u32>,
    pub charset: String,
    pub font: String,
    pub color: bool,
}

/// The standard ramp, darkest glyph first.
pub open spec fn standard_ramp() -> Seq<char> {
    "@%#*+=-:. "@
}

impl Default for AsciiConfig {
    fn default() -> (c: Self)
        ensures
            c.grid_width == 160,
            c.grid_height is None,
            c.charset@ == standard_ramp(),
            c.font@ == "builtin-8x8"@,
            c.color,
    {
        AsciiConfig {
            grid_width: 160,
            grid_height: None,
            charset: String::from_str("@%#*+=-:. "),
            font: String::from_str("builtin-8x8"),
            color: true,
        }
    }
}

/// Why a configuration is invalid, if it is.
pub open spec fn config_error(c: AsciiConfig) -> Option<Seq<char>> {
    if c.grid_width == 0 || c.grid_width > 8192 {
        Some("width must be in 1..=8192"@)
    } else if c.grid_height matches Some(h) && (h == 0 || h > 8192) {
        Some("height must be in 1..=8192"@)
    } else if c.charset@.len() == 0 {
        Some("charset must contain at least one glyph"@)
    } else if c.charset@.len() > 65535 {
        Some("charset contains too many glyphs"@)
    } else {
        None
    }
}

/// The grid a frame of the given size is divided into.
pub open spec fn resolved_grid_spec(c: AsciiConfig, fw: u32, fh: u32) -> (u32, u32) {
    let width = if c.grid_width <= fw { c.grid_width } else { fw };
    let derived = ((width * fh + fw / 2) / (fw as int)) as u32;
    let fallback = if derived >= 1 { derived } else { 1u32 };
    let wanted = match c.grid_height { Some(h) => h, None => fallback };
    (width, if wanted <= fh { wanted } else { fh })
}

impl AsciiConfig {
    pub fn validate(&self) -> (r: Result<()>)
        ensures
            match config_error(*self) {
                None => r is Ok,
                Some(m) => invalid_with(r, m),
            },
    {
        if self.grid_width == 0 || self.grid_width > 8192 {
            proof { reveal_strlit("width must be in 1..=8192"); }
            return Err(Error::InvalidConfig(String::from_str("width must be in 1..=8192")));
        }
        if let Some(h) = self.grid_height {
            if h == 0 || h > 8192 {
                proof { reveal_strlit("height must be in 1..=8192"); }
                return Err(Error::InvalidConfig(String::from_str("height must be in 1..=8192")));
            }
        }
        let count = self.charset.as_str().unicode_len();
        if count == 0 {
            proof { reveal_strlit("charset must contain at least one glyph"); }
            return Err(Error::InvalidConfig(String::from_str("charset must contain at least one glyph")));
        }
        if count > 65535 {
            proof { reveal_strlit("charset contains too many glyphs"); }
            return Err(Error::InvalidConfig(String::from_str("charset contains too many glyphs")));
        }
        Ok(())
    }

    /// Grid columns and rows for a frame: the requested width clamped to the
    /// frame, and the requested (or aspect-derived) height clamped likewise.
    pub fn resolved_grid(&self, frame_width: u32, frame_height: u32) -> (r: Result<(u32, u32)>)
        ensures
            config_error(*self) matches Some(m) ==> invalid_with(r, m),
            config_error(*self) is None && (frame_width == 0 || frame_height == 0)
                ==> invalid_with(r, "frame dimensions must be non-zero"@),
            config_error(*self) is None && frame_width != 0 && frame_height != 0
                ==> r == Ok::<(u32, u32), Error>(resolved_grid_spec(*self, frame_width, frame_height)),
            r matches Ok((w, h)) ==> 1 <= w <= frame_width && 1 <= h <= frame_height,
    {
        self.validate()?;
        if frame_width == 0 || frame_height == 0 {
            proof { reveal_strlit("frame dimensions must be non-zero"); }
            return Err(Error::InvalidConfig(String::from_str("frame dimensions must be non-zero")));
        }
        let width = if self.grid_width <= frame_width { self.grid_width } else { frame_width };
        proof {
            assert(width as int * frame_height as int <= 4294967295 * 4294967295) by (nonlinear_arith)
                requires width <= 4294967295, frame_height <= 4294967295;
        }
        let num: u64 = width as u64 * frame_height as u64 + frame_width as u64 / 2;
        let q: u64 = num / frame_width as u64;
        proof {
            assert(width as int * frame_height as int <= frame_width as int * frame_height as int) by (nonlinear_arith)
                requires width <= frame_width;
            assert(num as int <= frame_width as int * frame_height as int + frame_width as int / 2);
            assert(q as int <= frame_height) by (nonlinear_arith)
                requires
                    q as int == num as int / frame_width as int,
                    num as int <= frame_width as int * frame_height as int + frame_width as int / 2,
                    frame_width > 0;
        }
        let derived = q as u32;
        let fallback = if derived >= 1 { derived } else { 1u32 };
        let wanted = match self.grid_height {
            Some(h) => h,
            None => fallback,
        };
        let height = if wanted <= frame_height { wanted } else { frame_height };
        Ok((width, height))
    }
}

/// The grid follows the request: the width is `--width` clamped to the
/// frame; an explicit `--height` is the height, clamped only to the frame;
/// without one the height keeps the frame's aspect ratio, rounded to the
/// nearest row and at least one.
pub proof fn lemma_resolved_grid_follows_request(c: AsciiConfig, fw: u32, fh: u32)
    requires
        config_error(c) is None,
        fw > 0,
        fh > 0,
    ensures
        resolved_grid_spec(c, fw, fh).0 == (if c.grid_width <= fw { c.grid_width } else { fw }),
        c.grid_height matches Some(h) ==> resolved_grid_spec(c, fw, fh).1 == (if h <= fh { h } else { fh }),
        c.grid_height is None ==> {
            let (w, h) = resolved_grid_spec(c, fw, fh);
            &&& 1 <= h <= fh
            &&& (h == 1 || 2 * h * fw <= 2 * w * fh + fw)
            &&& 2 * w * fh + fw <= 2 * (h + 1) * fw
        },
{
    let w = if c.grid_width <= fw { c.grid_width } else { fw };
    let num = w * fh + fw / 2;
    let d = num / (fw as int);
    assert(d * fw <= num < (d + 1) * fw) by (nonlinear_arith) requires d == num / (fw as int), fw > 0, num >= 0;
    assert(d <= fh) by (nonlinear_arith) requires d * fw <= num, num == w * fh + fw / 2, w <= fw, fw > 0, fh > 0;
    assert(0 <= d) by (nonlinear_arith) requires d == num / (fw as int), fw > 0, num >= 0;
    assert(((w * fh + fw / 2) / (fw as int)) as u32 == d);
    if c.grid_height is None {
        let h = resolved_grid_spec(c, fw, fh).1;
        assert(h == (if d >= 1 { d } else { 1 }));
        assert(2 * d * fw <= 2 * w * fh + fw) by (nonlinear_arith)
            requires d * fw <= num, num == w * fh + fw / 2, fw > 0;
        assert(2 * w * fh + fw <= 2 * (d + 1) * fw) by (nonlinear_arith)
            requires num < (d + 1) * fw, num == w * fh + fw / 2, fw > 0;
        assert(2 * w * fh + fw <= 2 * (h + 1) * fw) by (nonlinear_arith)
            requires 2 * w * fh + fw <= 2 * (d + 1) * fw, h >= d, fw > 0;
    }
}

} // verus!
