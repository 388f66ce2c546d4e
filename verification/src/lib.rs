//! Verified core of a bounded NV12/P010 ASCII video pipeline: frame layout,
//! color qualification, capability planning, CPU mapping and rendering.

pub mod text;
pub mod error;
pub mod frame;
pub mod config;
pub mod planner;
pub mod debug;
pub mod color;
pub mod qualification;
pub mod audio;
pub mod glyph;
pub mod cpu;
pub mod font;
pub mod metrics;
pub mod backend;
pub mod clock;
pub mod cancellation;
pub mod pipeline;
pub mod init;
pub mod probe;
pub mod probe_facts;
pub mod session;
pub mod args;
pub mod drm;
pub mod scalable;
pub mod ft;
pub mod report;
