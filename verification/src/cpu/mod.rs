//! The CPU backend: cell mapping, glyph rendering, and the backend that
//! ties them to a glyph atlas.

pub mod mapper;
pub mod renderer;
pub mod backend;
