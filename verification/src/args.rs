//! Command-line options of the converter, as plain values, and how they map
//! onto the planning policy.

use vstd::prelude::*;
use vstd::std_specs::convert::FromSpecImpl;
use crate::audio::AudioPolicy;
use crate::config::ProcessingBackend;
use crate::config::AsciiConfig;
use crate::planner::caps::VideoCodec;
use crate::planner::policy::{InteropRequest, MediaRequest, PipelinePolicy};

verus! {

#[derive(Clone, Copy, Debug, PartialEq, Eq, Structural)]
pub enum BackendArg {
    Auto,
    Cpu,
    Vulkan,
}

#[derive(Clone, Copy, Debug, PartialEq, Eq, Structural)]
pub enum VulkanMappingArg {
    Auto,
    Gpu,
    Cpu,
}

#[derive(Clone, Copy, Debug, PartialEq, Eq, Structural)]
pub enum MediaArg {
    Auto,
    Software,
    Vaapi,
}

#[derive(Clone, Copy, Debug, PartialEq, Eq, Structural)]
pub enum InteropArg {
    Auto,
    Off,
    On,
}

/// `Disabled` is the command line's `none`.
#[derive(Clone, Copy, Debug, PartialEq, Eq, Structural)]
pub enum AudioArg {
    Auto,
    Copy,
    Disabled,
}

/// The backend request an option value stands for.
pub open spec fn backend_request(value: BackendArg) -> ProcessingBackend {
    match value {
        BackendArg::Auto => ProcessingBackend::Auto,
        BackendArg::Cpu => ProcessingBackend::Cpu,
        BackendArg::Vulkan => ProcessingBackend::Vulkan,
    }
}

/// The media request an option value stands for.
pub open spec fn media_request(value: MediaArg) -> MediaRequest {
    match value {
        MediaArg::Auto => MediaRequest::Auto,
        MediaArg::Software => MediaRequest::Software,
        MediaArg::Vaapi => MediaRequest::Hardware,
    }
}

/// The interop request an option value stands for.
pub open spec fn interop_of(value: InteropArg) -> InteropRequest {
    match value {
        InteropArg::Auto => InteropRequest::Auto,
        InteropArg::Off => InteropRequest::Off,
        InteropArg::On => InteropRequest::On,
    }
}

impl From<AudioArg> for AudioPolicy {
    fn from(value: AudioArg) -> (p: Self) {
        match value {
            AudioArg::Auto => AudioPolicy::Auto,
            AudioArg::Copy => AudioPolicy::Copy,
            AudioArg::Disabled => AudioPolicy::Disabled,
        }
    }
}

impl FromSpecImpl<AudioArg> for AudioPolicy {
    open spec fn obeys_from_spec() -> bool {
        true
    }

    open spec fn from_spec(value: AudioArg) -> Self {
        match value {
            AudioArg::Auto => AudioPolicy::Auto,
            AudioArg::Copy => AudioPolicy::Copy,
            AudioArg::Disabled => AudioPolicy::Disabled,
        }
    }
}

impl From<MediaArg> for MediaRequest {
    fn from(value: MediaArg) -> (m: Self) {
        match value {
            MediaArg::Auto => MediaRequest::Auto,
            MediaArg::Software => MediaRequest::Software,
            MediaArg::Vaapi => MediaRequest::Hardware,
        }
    }
}

impl FromSpecImpl<MediaArg> for MediaRequest {
    open spec fn obeys_from_spec() -> bool {
        true
    }

    open spec fn from_spec(value: MediaArg) -> Self {
        media_request(value)
    }
}

impl From<BackendArg> for ProcessingBackend {
    fn from(value: BackendArg) -> (b: Self) {
        match value {
            BackendArg::Auto => ProcessingBackend::Auto,
            BackendArg::Cpu => ProcessingBackend::Cpu,
            BackendArg::Vulkan => ProcessingBackend::Vulkan,
        }
    }
}

impl FromSpecImpl<BackendArg> for ProcessingBackend {
    open spec fn obeys_from_spec() -> bool {
        true
    }

    open spec fn from_spec(value: BackendArg) -> Self {
        backend_request(value)
    }
}

impl From<InteropArg> for InteropRequest {
    fn from(value: InteropArg) -> (i: Self) {
        match value {
            InteropArg::Auto => InteropRequest::Auto,
            InteropArg::Off => InteropRequest::Off,
            InteropArg::On => InteropRequest::On,
        }
    }
}

impl FromSpecImpl<InteropArg> for InteropRequest {
    open spec fn obeys_from_spec() -> bool {
        true
    }

    open spec fn from_spec(value: InteropArg) -> Self {
        interop_of(value)
    }
}

/// The converter's options. Paths are carried as text.
#[derive(Clone, Debug)]
pub struct Args {
    pub input: String,
    pub output: Option<String>,
    pub backend: BackendArg,
    pub vulkan_mapping: VulkanMappingArg,
    pub decode: MediaArg,
    pub encode: MediaArg,
    pub audio: AudioArg,
    pub hw_device: Option<String>,
    pub vaapi_vulkan_input_interop: InteropArg,
    pub vaapi_vulkan_output_interop: InteropArg,
    pub explain_plan: bool,
    pub capabilities: bool,
    pub width: u32,
    pub height: Option<u32>,
    pub charset: String,
    pub font: String,
    pub font_face_index: u32,
    pub color: bool,
    pub max_frames: u64,
    pub no_progress: bool,
    pub verbose: bool,
}

/// The ramp named `standard`.
pub open spec fn standard_charset() -> Seq<char> {
    "@%#*+=-:. "@
}

/// The ramp named `detailed`.
pub open spec fn detailed_charset() -> Seq<char> {
    "$@B%8&WM#*oahkbdpqwmZO0QLCJUYXzcvunxrjft/\\|()1{}[]?-_+~<>i!lI;:,\"^`'. "@
}

/// A named ramp, or the option's text taken literally.
pub open spec fn charset_for(name: Seq<char>) -> Seq<char> {
    if name == "standard"@ {
        standard_charset()
    } else if name == "detailed"@ {
        detailed_charset()
    } else {
        name
    }
}

impl Args {
    /// The glyph ramp the `--charset` option selects.
    pub fn resolved_charset(&self) -> (s: String)
        ensures
            s@ == charset_for(self.charset@),
    {
        proof {
            reveal_strlit("standard");
            reveal_strlit("detailed");
            reveal_strlit("@%#*+=-:. ");
            reveal_strlit("$@B%8&WM#*oahkbdpqwmZO0QLCJUYXzcvunxrjft/\\|()1{}[]?-_+~<>i!lI;:,\"^`'. ");
        }
        if crate::text::str_eq(self.charset.as_str(), "standard") {
            String::from_str("@%#*+=-:. ")
        } else if crate::text::str_eq(self.charset.as_str(), "detailed") {
            String::from_str("$@B%8&WM#*oahkbdpqwmZO0QLCJUYXzcvunxrjft/\\|()1{}[]?-_+~<>i!lI;:,\"^`'. ")
        } else {
            self.charset.clone()
        }
    }
}

/// The first option combination a conversion rejects, given whether the
/// output path names an `.mp4` file and whether it is the input file.
pub open spec fn option_error(a: Args, output_is_mp4: bool, same_file: bool) -> Option<Seq<char>> {
    if a.output is None && !a.capabilities && !a.explain_plan {
        Some("output path is required unless --capabilities or --explain-plan is used"@)
    } else if a.output is Some && !output_is_mp4 {
        Some("the current output container is MP4; use an .mp4 path"@)
    } else if a.output is Some && same_file {
        Some("input and output must be different paths"@)
    } else if a.backend == BackendArg::Cpu && a.vulkan_mapping != VulkanMappingArg::Auto {
        Some("--vulkan-mapping requires --backend auto or --backend vulkan"@)
    } else if a.vulkan_mapping == VulkanMappingArg::Cpu
        && (a.vaapi_vulkan_input_interop == InteropArg::On || a.vaapi_vulkan_output_interop == InteropArg::On) {
        Some("hardware interop cannot be combined with diagnostic CPU Vulkan mapping"@)
    } else {
        None
    }
}

/// Interop requested by the options; diagnostic CPU mapping turns it off.
pub open spec fn interop_request(mapping: VulkanMappingArg, requested: InteropArg) -> InteropRequest {
    if mapping == VulkanMappingArg::Cpu {
        InteropRequest::Off
    } else {
        interop_of(requested)
    }
}

impl Args {
    /// Rejects option combinations that cannot run, in the order the
    /// converter checks them.
    pub fn check_options(&self, output_is_mp4: bool, same_file: bool) -> (r: core::result::Result<(), String>)
        ensures
            match option_error(*self, output_is_mp4, same_file) {
                None => r is Ok,
                Some(m) => r matches Err(e) && e@ == m,
            },
    {
        proof {
            reveal_strlit("output path is required unless --capabilities or --explain-plan is used");
            reveal_strlit("the current output container is MP4; use an .mp4 path");
            reveal_strlit("input and output must be different paths");
            reveal_strlit("--vulkan-mapping requires --backend auto or --backend vulkan");
            reveal_strlit("hardware interop cannot be combined with diagnostic CPU Vulkan mapping");
        }
        if self.output.is_none() && !self.capabilities && !self.explain_plan {
            return Err(String::from_str("output path is required unless --capabilities or --explain-plan is used"));
        }
        if self.output.is_some() {
            if !output_is_mp4 {
                return Err(String::from_str("the current output container is MP4; use an .mp4 path"));
            }
            if same_file {
                return Err(String::from_str("input and output must be different paths"));
            }
        }
        if self.backend == BackendArg::Cpu && self.vulkan_mapping != VulkanMappingArg::Auto {
            return Err(String::from_str("--vulkan-mapping requires --backend auto or --backend vulkan"));
        }
        if self.vulkan_mapping == VulkanMappingArg::Cpu
            && (self.vaapi_vulkan_input_interop == InteropArg::On || self.vaapi_vulkan_output_interop == InteropArg::On) {
            return Err(String::from_str("hardware interop cannot be combined with diagnostic CPU Vulkan mapping"));
        }
        Ok(())
    }

    /// The ASCII configuration the options describe.
    pub fn ascii_config(&self) -> (c: AsciiConfig)
        ensures
            c.grid_width == self.width,
            c.grid_height == self.height,
            c.charset@ == charset_for(self.charset@),
            c.font@ == self.font@,
            c.color == self.color,
    {
        AsciiConfig {
            grid_width: self.width,
            grid_height: self.height,
            charset: self.resolved_charset(),
            font: self.font.clone(),
            color: self.color,
        }
    }

    /// The planning policy the options request, for 8-bit H.264 output.
    pub fn pipeline_policy(&self) -> (p: PipelinePolicy)
        ensures
            p.backend == backend_request(self.backend),
            p.decode == media_request(self.decode),
            p.encode == media_request(self.encode),
            p.input_interop == interop_request(self.vulkan_mapping, self.vaapi_vulkan_input_interop),
            p.output_interop == interop_request(self.vulkan_mapping, self.vaapi_vulkan_output_interop),
            p.output_codec == VideoCodec::H264,
            p.output_bit_depth == 8,
    {
        let cpu_mapping = self.vulkan_mapping == VulkanMappingArg::Cpu;
        PipelinePolicy {
            backend: ProcessingBackend::from(self.backend),
            decode: MediaRequest::from(self.decode),
            encode: MediaRequest::from(self.encode),
            input_interop: if cpu_mapping { InteropRequest::Off } else { InteropRequest::from(self.vaapi_vulkan_input_interop) },
            output_interop: if cpu_mapping { InteropRequest::Off } else { InteropRequest::from(self.vaapi_vulkan_output_interop) },
            output_codec: VideoCodec::H264,
            output_bit_depth: 8,
        }
    }
}

/// `ceil(a / b)`.
pub open spec fn div_ceil(a: nat, b: nat) -> nat {
    if b == 0 { 0 } else { ((a + b - 1) as nat) / b }
}

proof fn lemma_div_ceil_bounded(a: nat, b: nat)
    requires
        b >= 1,
    ensures
        div_ceil(a, b) <= a || a == 0,
        ((a + b - 1) as nat) / b == div_ceil(a, b),
{
    if a > 0 {
        assert(((a + b - 1) as nat) / b <= a) by (nonlinear_arith)
            requires a >= 1, b >= 1;
    }
}

/// The glyph tile a cell of a `columns` x `rows` grid covers on a
/// `frame_width` x `frame_height` frame, rounding up.
pub fn cell_tile_size(frame_width: u32, frame_height: u32, columns: u32, rows: u32) -> (r: (u32, u32))
    requires
        columns > 0,
        rows > 0,
    ensures
        r.0 == div_ceil(frame_width as nat, columns as nat),
        r.1 == div_ceil(frame_height as nat, rows as nat),
{
    let w: u32 = ((frame_width as u64 + columns as u64 - 1) / columns as u64) as u32;
    let h: u32 = ((frame_height as u64 + rows as u64 - 1) / rows as u64) as u32;
    proof {
        lemma_div_ceil_bounded(frame_width as nat, columns as nat);
        lemma_div_ceil_bounded(frame_height as nat, rows as nat);
    }
    (w, h)
}

} // verus!
