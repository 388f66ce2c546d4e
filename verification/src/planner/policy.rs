//! Requested policy, plan nodes and plan description.

use vstd::prelude::*;
use crate::config::ProcessingBackend;
use crate::frame::PixelFormat;
use crate::planner::caps::{VideoCodec, codec_text};
use crate::planner::requirements::OutputVideoRequirements;
use crate::text::cat;

verus! {

/// Requested decode or encode implementation.
#[derive(Clone, Copy, Debug, PartialEq, Eq, Structural)]
pub enum MediaRequest {
    Auto,
    Software,
    Hardware,
}

impl Default for MediaRequest {
    fn default() -> (m: Self)
        ensures
            m == MediaRequest::Auto,
    {
        MediaRequest::Auto
    }
}

/// Requested VAAPI/Vulkan interop.
#[derive(Clone, Copy, Debug, PartialEq, Eq, Structural)]
pub enum InteropRequest {
    Auto,
    Off,
    On,
}

impl Default for InteropRequest {
    fn default() -> (m: Self)
        ensures
            m == InteropRequest::Auto,
    {
        InteropRequest::Auto
    }
}

/// The user's request: each field is `Auto` or explicit.
#[derive(Clone, Debug, PartialEq, Eq)]
pub struct PipelinePolicy {
    pub backend: ProcessingBackend,
    pub decode: MediaRequest,
    pub encode: MediaRequest,
    pub input_interop: InteropRequest,
    pub output_interop: InteropRequest,
    pub output_codec: VideoCodec,
    pub output_bit_depth: u8,
}

/// Everything automatic, 8-bit H.264 output.
pub open spec fn default_policy() -> PipelinePolicy {
    PipelinePolicy {
        backend: ProcessingBackend::Auto,
        decode: MediaRequest::Auto,
        encode: MediaRequest::Auto,
        input_interop: InteropRequest::Auto,
        output_interop: InteropRequest::Auto,
        output_codec: VideoCodec::H264,
        output_bit_depth: 8,
    }
}

impl Default for PipelinePolicy {
    fn default() -> (p: Self)
        ensures
            p == default_policy(),
    {
        PipelinePolicy {
            backend: ProcessingBackend::Auto,
            decode: MediaRequest::Auto,
            encode: MediaRequest::Auto,
            input_interop: InteropRequest::Auto,
            output_interop: InteropRequest::Auto,
            output_codec: VideoCodec::H264,
            output_bit_depth: 8,
        }
    }
}

impl PipelinePolicy {
    pub fn copied(&self) -> (p: Self)
        ensures
            p == *self,
    {
        PipelinePolicy {
            backend: self.backend,
            decode: self.decode,
            encode: self.encode,
            input_interop: self.input_interop,
            output_interop: self.output_interop,
            output_codec: self.output_codec.copied(),
            output_bit_depth: self.output_bit_depth,
        }
    }

    pub fn is_fully_explicit(&self) -> (b: bool)
        ensures
            b == (self.backend != ProcessingBackend::Auto && self.decode != MediaRequest::Auto
                && self.encode != MediaRequest::Auto && self.input_interop != InteropRequest::Auto
                && self.output_interop != InteropRequest::Auto),
    {
        self.backend != ProcessingBackend::Auto && self.decode != MediaRequest::Auto
            && self.encode != MediaRequest::Auto && self.input_interop != InteropRequest::Auto
            && self.output_interop != InteropRequest::Auto
    }
}

#[derive(Clone, Copy, Debug, PartialEq, Eq, Structural)]
pub enum MediaImplementation {
    Software,
    Hardware,
}

/// Where frames live between plan steps.
#[derive(Clone, Copy, Debug, PartialEq, Eq, Structural)]
pub enum FrameDomain {
    HostNv12,
    HardwareNv12,
    VulkanNv12Buffer,
    HostP010,
    HardwareP010,
    VulkanP010Buffer,
}

/// A step of a pipeline plan.
#[derive(Clone, Copy, Debug, PartialEq, Eq, Structural)]
pub enum PlanNode {
    SoftwareDecode,
    VaapiDecode,
    HardwareDownload,
    InputHardwareInterop,
    CpuAscii,
    VulkanAscii,
    HostReadback,
    HardwareUpload,
    OutputHardwareInterop,
    SoftwareEncode,
    VaapiEncode,
}

pub open spec fn node_text(n: PlanNode) -> Seq<char> {
    match n {
        PlanNode::SoftwareDecode => "software decode"@,
        PlanNode::VaapiDecode => "VAAPI decode"@,
        PlanNode::HardwareDownload => "hardware download"@,
        PlanNode::InputHardwareInterop => "VAAPI/Vulkan input interop"@,
        PlanNode::CpuAscii => "CPU ASCII"@,
        PlanNode::VulkanAscii => "Vulkan ASCII"@,
        PlanNode::HostReadback => "Host readback"@,
        PlanNode::HardwareUpload => "VAAPI hardware upload"@,
        PlanNode::OutputHardwareInterop => "Vulkan/VAAPI output interop"@,
        PlanNode::SoftwareEncode => "software encode"@,
        PlanNode::VaapiEncode => "VAAPI encode"@,
    }
}

impl PlanNode {
    /// The node's printed name.
    pub fn name(self) -> (s: &'static str)
        ensures
            s@ == node_text(self),
    {
        proof {
            reveal_strlit("software decode");
            reveal_strlit("VAAPI decode");
            reveal_strlit("hardware download");
            reveal_strlit("VAAPI/Vulkan input interop");
            reveal_strlit("CPU ASCII");
            reveal_strlit("Vulkan ASCII");
            reveal_strlit("Host readback");
            reveal_strlit("VAAPI hardware upload");
            reveal_strlit("Vulkan/VAAPI output interop");
            reveal_strlit("software encode");
            reveal_strlit("VAAPI encode");
        }
        match self {
            PlanNode::SoftwareDecode => "software decode",
            PlanNode::VaapiDecode => "VAAPI decode",
            PlanNode::HardwareDownload => "hardware download",
            PlanNode::InputHardwareInterop => "VAAPI/Vulkan input interop",
            PlanNode::CpuAscii => "CPU ASCII",
            PlanNode::VulkanAscii => "Vulkan ASCII",
            PlanNode::HostReadback => "Host readback",
            PlanNode::HardwareUpload => "VAAPI hardware upload",
            PlanNode::OutputHardwareInterop => "Vulkan/VAAPI output interop",
            PlanNode::SoftwareEncode => "software encode",
            PlanNode::VaapiEncode => "VAAPI encode",
        }
    }
}

#[derive(Clone, Copy, Debug, PartialEq, Eq, Structural)]
pub struct PlanStep {
    pub node: PlanNode,
    pub input: Option<FrameDomain>,
    pub output: Option<FrameDomain>,
}

/// How far pixels stay on the GPU.
#[derive(Clone, Copy, Debug, PartialEq, Eq, Structural)]
pub enum PixelPath {
    GpuResident,
    PartiallyStaged,
    Host,
}

pub open spec fn pixel_path_text(p: PixelPath) -> Seq<char> {
    match p {
        PixelPath::GpuResident => "GPU-resident"@,
        PixelPath::PartiallyStaged => "partially staged through Host memory"@,
        PixelPath::Host => "Host-resident"@,
    }
}

impl PixelPath {
    /// Printed description.
    pub fn name(self) -> (s: &'static str)
        ensures
            s@ == pixel_path_text(self),
    {
        proof {
            reveal_strlit("GPU-resident");
            reveal_strlit("partially staged through Host memory");
            reveal_strlit("Host-resident");
        }
        match self {
            PixelPath::GpuResident => "GPU-resident",
            PixelPath::PartiallyStaged => "partially staged through Host memory",
            PixelPath::Host => "Host-resident",
        }
    }
}

/// The selected execution path.
#[derive(Clone, Debug, PartialEq, Eq)]
pub struct PipelinePlan {
    pub backend: ProcessingBackend,
    pub decode: MediaImplementation,
    pub encode: MediaImplementation,
    pub output: OutputVideoRequirements,
    pub hardware_download: bool,
    pub hardware_upload: bool,
    pub hardware_input_interop: bool,
    pub hardware_output_interop: bool,
    pub steps: Vec<PlanStep>,
    pub pixel_path: PixelPath,
    pub preference_cost: u16,
    pub reasons: Vec<String>,
    pub buffer_capacity: usize,
}

/// Printed name of a step within a plan: encoders name the output codec.
pub open spec fn step_text(node: PlanNode, codec: VideoCodec) -> Seq<char> {
    match node {
        PlanNode::SoftwareEncode => "software "@ + codec_text(codec) + " encode"@,
        PlanNode::VaapiEncode => "VAAPI "@ + codec_text(codec) + " encode"@,
        _ => node_text(node),
    }
}

/// Steps joined by an arrow on a new line.
pub open spec fn plan_text(steps: Seq<PlanStep>, codec: VideoCodec) -> Seq<char>
    decreases steps.len(),
{
    if steps.len() == 0 {
        Seq::empty()
    } else if steps.len() == 1 {
        step_text(steps[0].node, codec)
    } else {
        plan_text(steps.drop_last(), codec) + "\n  -> "@ + step_text(steps.last().node, codec)
    }
}

impl PipelinePlan {
    /// The plan's steps, one per line.
    pub fn to_string(&self) -> (s: String)
        ensures
            s@ == plan_text(self.steps@, self.output.codec),
    {
        proof {
            reveal_strlit("software ");
            reveal_strlit("VAAPI ");
            reveal_strlit(" encode");
            reveal_strlit("\n  -> ");
        }
        let mut s = String::new();
        let codec = self.output.codec.to_string();
        let mut i: usize = 0;
        while i < self.steps.len()
            invariant
                i <= self.steps@.len(),
                codec@ == codec_text(self.output.codec),
                s@ == plan_text(self.steps@.subrange(0, i as int), self.output.codec),
            decreases self.steps@.len() - i,
        {
            let step = self.steps[i];
            if i != 0 {
                s.append("\n  -> ");
            }
            match step.node {
                PlanNode::SoftwareEncode => {
                    s.append("software ");
                    s.append(codec.as_str());
                    s.append(" encode");
                },
                PlanNode::VaapiEncode => {
                    s.append("VAAPI ");
                    s.append(codec.as_str());
                    s.append(" encode");
                },
                _ => s.append(step.node.name()),
            }
            proof {
                let next = self.steps@.subrange(0, i + 1);
                assert(next.drop_last() =~= self.steps@.subrange(0, i as int));
                assert(next.last() == step);
            }
            i = i + 1;
        }
        proof {
            assert(self.steps@.subrange(0, self.steps@.len() as int) =~= self.steps@);
        }
        s
    }
}

/// Two plans agree field by field, vectors by their contents.
pub open spec fn same_plan(a: PipelinePlan, b: PipelinePlan) -> bool {
    &&& a.backend == b.backend
    &&& a.decode == b.decode
    &&& a.encode == b.encode
    &&& a.output == b.output
    &&& a.hardware_download == b.hardware_download
    &&& a.hardware_upload == b.hardware_upload
    &&& a.hardware_input_interop == b.hardware_input_interop
    &&& a.hardware_output_interop == b.hardware_output_interop
    &&& a.steps@ == b.steps@
    &&& a.pixel_path == b.pixel_path
    &&& a.preference_cost == b.preference_cost
    &&& a.reasons@ == b.reasons@
    &&& a.buffer_capacity == b.buffer_capacity
}

impl PipelinePlan {
    /// A copy with the same fields and contents.
    pub fn copied(&self) -> (c: Self)
        ensures
            same_plan(c, *self),
    {
        let mut steps: Vec<PlanStep> = Vec::new();
        let mut i: usize = 0;
        while i < self.steps.len()
            invariant
                i <= self.steps@.len(),
                steps@ == self.steps@.subrange(0, i as int),
            decreases self.steps@.len() - i,
        {
            steps.push(self.steps[i]);
            i = i + 1;
        }
        let mut reasons: Vec<String> = Vec::new();
        let mut j: usize = 0;
        while j < self.reasons.len()
            invariant
                j <= self.reasons@.len(),
                reasons@ == self.reasons@.subrange(0, j as int),
            decreases self.reasons@.len() - j,
        {
            reasons.push(self.reasons[j].clone());
            j = j + 1;
        }
        proof {
            assert(steps@ =~= self.steps@);
            assert(reasons@ =~= self.reasons@);
        }
        PipelinePlan {
            backend: self.backend,
            decode: self.decode,
            encode: self.encode,
            output: self.output.copied(),
            hardware_download: self.hardware_download,
            hardware_upload: self.hardware_upload,
            hardware_input_interop: self.hardware_input_interop,
            hardware_output_interop: self.hardware_output_interop,
            steps,
            pixel_path: self.pixel_path,
            preference_cost: self.preference_cost,
            reasons,
            buffer_capacity: self.buffer_capacity,
        }
    }
}

/// A candidate that was considered and rejected, with its reasons.
#[derive(Clone, Debug, PartialEq, Eq)]
pub struct CandidateRejection {
    pub candidate: String,
    pub reasons: Vec<String>,
}

/// The selected plan and every rejected candidate in enumeration order.
#[derive(Clone, Debug, PartialEq, Eq)]
pub struct PlanningResult {
    pub selected: PipelinePlan,
    pub rejected: Vec<CandidateRejection>,
}

/// Characters of each string.
pub open spec fn texts(v: Seq<String>) -> Seq<Seq<char>> {
    v.map_values(|s: String| s@)
}

/// `parts` joined by `sep`.
pub open spec fn join(parts: Seq<Seq<char>>, sep: Seq<char>) -> Seq<char>
    decreases parts.len(),
{
    if parts.len() == 0 {
        Seq::empty()
    } else if parts.len() == 1 {
        parts[0]
    } else {
        join(parts.drop_last(), sep) + sep + parts.last()
    }
}

/// Joins strings with a separator.
pub fn join_strings(parts: &Vec<String>, sep: &str) -> (s: String)
    ensures
        s@ == join(texts(parts@), sep@),
{
    let mut s = String::new();
    let mut i: usize = 0;
    while i < parts.len()
        invariant
            i <= parts@.len(),
            s@ == join(texts(parts@.subrange(0, i as int)), sep@),
        decreases parts@.len() - i,
    {
        if i != 0 {
            s.append(sep);
        }
        s.append(parts[i].as_str());
        proof {
            let next = parts@.subrange(0, i + 1);
            assert(texts(next).drop_last() =~= texts(parts@.subrange(0, i as int)));
            assert(texts(next).last() == parts@[i as int]@);
        }
        i = i + 1;
    }
    proof {
        assert(parts@.subrange(0, parts@.len() as int) =~= parts@);
    }
    s
}

/// Frame format label used in capability names.
pub open spec fn format_label(f: PixelFormat) -> Seq<char> {
    match f {
        PixelFormat::P010Le => "P010"@,
        PixelFormat::Nv12 => "NV12"@,
    }
}

} // verus!
