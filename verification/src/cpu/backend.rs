//! The CPU backend: maps each frame to cells and renders them with a glyph
//! atlas for the configured font and ramp.

use vstd::prelude::*;
use vstd::string::StrSliceExecFns;
use crate::backend::{AsciiBackend, BackendOutput, BackendTimings};
use crate::clock::{elapsed_nanos, now};
use crate::config::{AsciiConfig, config_error, resolved_grid_spec};
use crate::cpu::mapper::{CellGrid, Nv12Mapper, map_outcome};
use crate::cpu::renderer::{Nv12Renderer, rendered_bytes};
use crate::error::{Error, Result, cpu_with, invalid_with};
use crate::font::{GlyphAtlas, font_error_text};
use crate::frame::VideoFrame;
use crate::glyph::lut_entry;

verus! {

/// CPU mapping and rendering over a cached glyph atlas.
pub struct CpuAsciiBackend {
    supplied: bool,
    atlas_key: Option<(String, String)>,
    atlas: Option<GlyphAtlas>,
}

/// The glyph lookup table for `n` glyphs.
pub open spec fn lut_seq(n: nat) -> Seq<u32> {
    Seq::new(256, |v: int| lut_entry(n, v as nat) as u32)
}

pub open spec fn key_view(k: Option<(String, String)>) -> Option<(Seq<char>, Seq<char>)> {
    match k {
        Some((font, charset)) => Some((font@, charset@)),
        None => None,
    }
}

/// Font and ramp of a configuration.
pub open spec fn config_key(c: AsciiConfig) -> Option<(Seq<char>, Seq<char>)> {
    Some((c.font@, c.charset@))
}

impl CpuAsciiBackend {
    /// Whether the atlas was supplied by the caller (and may not change).
    pub closed spec fn is_supplied(self) -> bool {
        self.supplied
    }

    /// Font and ramp the current atlas was built for.
    pub closed spec fn key(self) -> Option<(Seq<char>, Seq<char>)> {
        key_view(self.atlas_key)
    }

    /// The current atlas.
    pub closed spec fn current_atlas(self) -> Option<GlyphAtlas> {
        self.atlas
    }

    /// A backend bound to a caller-supplied atlas for `config`'s font and ramp.
    pub fn with_atlas(atlas: GlyphAtlas, config: &AsciiConfig) -> (b: Self)
        ensures
            b.is_supplied(),
            b.key() == config_key(*config),
            b.current_atlas() == Some(atlas),
    {
        CpuAsciiBackend {
            supplied: true,
            atlas_key: Some((config.font.clone(), config.charset.clone())),
            atlas: Some(atlas),
        }
    }

    /// A backend that builds the built-in atlas on first use.
    pub fn new() -> (b: Self)
        ensures
            !b.is_supplied(),
            b.key() is None,
            b.current_atlas() is None,
    {
        CpuAsciiBackend { supplied: false, atlas_key: None, atlas: None }
    }

    /// Whether the cached atlas was built for this font and ramp.
    fn key_matches(&self, config: &AsciiConfig) -> (b: bool)
        ensures
            b == (self.key() == config_key(*config)),
    {
        match &self.atlas_key {
            Some((font, charset)) => *font == config.font && *charset == config.charset,
            None => false,
        }
    }
}

impl Default for CpuAsciiBackend {
    fn default() -> (b: Self)
        ensures
            !b.is_supplied(),
            b.key() is None,
            b.current_atlas() is None,
    {
        Self::new()
    }
}

impl AsciiBackend for CpuAsciiBackend {
    /// Maps and renders one frame; the output keeps the input's descriptor
    /// and timestamp.
    fn process(&mut self, input: VideoFrame, config: &AsciiConfig) -> (r: Result<BackendOutput>)
        ensures
            config_error(*config) matches Some(m) ==> invalid_with(r, m),
            config_error(*config) is None && old(self).is_supplied() && old(self).key() != config_key(*config)
                ==> cpu_with(r, "supplied atlas font/ramp identity changed"@),
            final(self).is_supplied() == old(self).is_supplied(),
            r is Ok ==> final(self).key() == config_key(*config) && final(self).current_atlas() is Some,
            r is Ok ==> ({
                &&& r->Ok_0.frame.desc_spec() == input.desc_spec()
                &&& r->Ok_0.frame.pts_spec() == input.pts_spec()
                &&& exists|g: CellGrid| map_outcome(Ok(g), input.desc_spec(), input.bytes(),
                        resolved_grid_spec(*config, input.desc_spec().width, input.desc_spec().height).0,
                        resolved_grid_spec(*config, input.desc_spec().width, input.desc_spec().height).1,
                        lut_seq(config.charset@.len()))
                    && #[trigger] r->Ok_0.frame.bytes() == rendered_bytes(final(self).current_atlas()->0, g, input.desc_spec(), config.color)
            }),
    {
        proof {
            reveal_strlit("supplied atlas font/ramp identity changed");
            reveal_strlit("atlas glyph count does not match the ramp");
        }
        let total_started = now();
        let desc = input.desc();
        let (grid_width, grid_height) = config.resolved_grid(desc.width, desc.height)?;
        let same = self.key_matches(config);
        if self.supplied && !same {
            return Err(Error::Cpu(String::from_str("supplied atlas font/ramp identity changed")));
        }
        if !same {
            match GlyphAtlas::builtin(config.font.as_str(), config.charset.as_str()) {
                Ok(atlas) => {
                    self.atlas = Some(atlas);
                    self.atlas_key = Some((config.font.clone(), config.charset.clone()));
                },
                Err(e) => return Err(Error::Cpu(e.to_string())),
            }
        }
        let mapping_started = now();
        let glyphs = config.charset.as_str().unicode_len();
        let atlas = match &self.atlas {
            Some(a) => a,
            None => return Err(Error::Cpu(String::from_str("atlas glyph count does not match the ramp"))),
        };
        if atlas.glyph_count() != glyphs {
            return Err(Error::Cpu(String::from_str("atlas glyph count does not match the ramp")));
        }
        let mapper = Nv12Mapper::new(config.charset.as_str())?;
        assert(mapper.lut() =~= lut_seq(config.charset@.len()));
        let grid = mapper.map(&input, grid_width, grid_height)?;
        let mapping_time = elapsed_nanos(&mapping_started);
        let render_started = now();
        assert(grid.cells@.len() > 0) by (nonlinear_arith)
            requires grid.cells@.len() == grid_width * grid_height, grid_width >= 1, grid_height >= 1;
        let frame = Nv12Renderer::new(atlas).render(&grid, desc.copied(), input.pts(), config.color)?;
        let mut timings = BackendTimings::default();
        timings.mapping = mapping_time;
        timings.render = elapsed_nanos(&render_started);
        timings.backend_wall = elapsed_nanos(&total_started);
        Ok(BackendOutput { frame, timings })
    }
}

} // verus!
