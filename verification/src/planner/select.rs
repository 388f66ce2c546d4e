//! Candidate enumeration, rejection reasons, costs, and plan selection.

use vstd::prelude::*;
use crate::config::ProcessingBackend;
use crate::error::{Error, Result, invalid_with};
use crate::frame::PixelFormat;
use crate::planner::caps::{
    CapabilitySnapshot, CapabilitySupport, Fact, VideoCodec, codec_text,
};
use crate::planner::requirements::{
    InputRequirements, OutputVideoRequirements, chroma_debug, chroma_debug_text,
    current_hardware_path, decode_for_input_spec, encode_for_output_spec,
    input_for_requirements_spec, output_for_requirements_spec, processing_input_spec,
    selected_output_spec, matches_outcome,
};
use crate::planner::policy::{
    CandidateRejection, FrameDomain, InteropRequest, MediaImplementation, MediaRequest,
    PipelinePlan, PipelinePolicy, PixelPath, PlanNode, PlanStep, PlanningResult, format_label,
    join, join_strings, node_text, texts,
};
use crate::debug::{codec_debug, codec_debug_text, option_u8_debug, option_u8_debug_text, depth_text};
use crate::text::{cat, decimal, decimal_text};
use crate::frame::format_name;

verus! {

/// One combination of decode, processing, encode and interop choices.
#[derive(Clone, Copy, Debug, PartialEq, Eq, Structural)]
pub struct Candidate {
    pub decode: MediaImplementation,
    pub backend: ProcessingBackend,
    pub encode: MediaImplementation,
    pub input_interop: bool,
    pub output_interop: bool,
}

/// Number of enumerated candidates.
pub open spec fn candidate_count() -> int {
    32
}

/// The `i`-th candidate: Vulkan before CPU, hardware before software,
/// interop before none; the last choice varies fastest.
pub open spec fn candidate_at(i: int) -> Candidate {
    Candidate {
        backend: if i < 16 { ProcessingBackend::Vulkan } else { ProcessingBackend::Cpu },
        decode: if (i / 8) % 2 == 0 { MediaImplementation::Hardware } else { MediaImplementation::Software },
        encode: if (i / 4) % 2 == 0 { MediaImplementation::Hardware } else { MediaImplementation::Software },
        input_interop: (i / 2) % 2 == 0,
        output_interop: i % 2 == 0,
    }
}

/// Interop needs VAAPI on that side and Vulkan processing.
pub open spec fn structurally_valid(c: Candidate) -> bool {
    (!c.input_interop || (c.decode == MediaImplementation::Hardware && c.backend == ProcessingBackend::Vulkan))
        && (!c.output_interop || (c.encode == MediaImplementation::Hardware
            && c.backend == ProcessingBackend::Vulkan))
}

pub open spec fn media_matches(r: MediaRequest, v: MediaImplementation) -> bool {
    match r {
        MediaRequest::Auto => true,
        MediaRequest::Software => v == MediaImplementation::Software,
        MediaRequest::Hardware => v == MediaImplementation::Hardware,
    }
}

pub open spec fn interop_matches(r: InteropRequest, v: bool) -> bool {
    match r {
        InteropRequest::Auto => true,
        InteropRequest::Off => !v,
        InteropRequest::On => v,
    }
}

/// Every explicit request is honoured by the candidate.
pub open spec fn policy_matches(c: Candidate, p: PipelinePolicy) -> bool {
    media_matches(p.decode, c.decode) && media_matches(p.encode, c.encode)
        && (p.backend == ProcessingBackend::Auto || p.backend == c.backend)
        && interop_matches(p.input_interop, c.input_interop)
        && interop_matches(p.output_interop, c.output_interop)
}

/// Qualitative ordering penalty; lower is preferred.
pub open spec fn cost_spec(c: Candidate) -> int {
    (if c.backend == ProcessingBackend::Cpu { 200int } else { 0int })
        + (if c.decode == MediaImplementation::Software { 20int } else { 0int })
        + (if c.decode == MediaImplementation::Hardware && !c.input_interop { 120int } else { 0int })
        + (if c.backend == ProcessingBackend::Vulkan && !c.output_interop { 20int } else { 0int })
        + (if c.encode == MediaImplementation::Hardware && !c.output_interop { 10int } else { 0int })
        + (if c.encode == MediaImplementation::Software { 30int } else { 0int })
}

/// The reason a required capability contributes, if it is unavailable.
pub open spec fn req_text(name: Seq<char>, f: Fact) -> Seq<Seq<char>> {
    match f {
        Fact::Supported => Seq::empty(),
        Fact::Unsupported(r) => seq![name + " unavailable: "@ + r],
        Fact::NotProbed(r) => seq![name + " unavailable: "@ + r],
    }
}

pub open spec fn decode_reasons(c: Candidate, caps: CapabilitySnapshot, req: InputRequirements) -> Seq<Seq<char>> {
    if c.decode == MediaImplementation::Hardware {
        req_text("VAAPI "@ + codec_text(req.codec) + " decode"@, decode_for_input_spec(caps.media, req))
            + (if !current_hardware_path(req) && req.bit_depth != Some(10u8) {
                seq!["input "@ + codec_debug_text(req.codec) + " "@ + option_u8_debug_text(req.bit_depth)
                    + "-bit "@ + chroma_debug_text(req.chroma_subsampling)
                    + " is outside the qualified 8-bit 4:2:0 hardware path"@]
            } else {
                Seq::empty()
            })
    } else {
        req_text("software decode"@, caps.media.software_decode@)
    }
}

pub open spec fn encode_reasons(c: Candidate, caps: CapabilitySnapshot, out: OutputVideoRequirements) -> Seq<Seq<char>> {
    if c.encode == MediaImplementation::Hardware {
        let p010 = out.pixel_format == PixelFormat::P010Le;
        let frames = if p010 { caps.media.p010_hardware_frames@ } else { caps.media.nv12_hardware_frames@ };
        let upload = if p010 { caps.media.p010_hardware_upload@ } else { caps.media.nv12_hardware_upload@ };
        let label = format_label(out.pixel_format);
        req_text(codec_text(out.codec) + " "@ + decimal_text(out.bit_depth as nat) + "-bit VAAPI encoding"@,
            encode_for_output_spec(caps.media, out))
            + req_text(label + " hardware frames"@, frames)
            + (if !c.output_interop { req_text("Host to VAAPI "@ + label + " upload"@, upload) } else { Seq::empty() })
    } else {
        (if !(out.codec is H264) {
            seq![codec_text(out.codec) + " software encoding is not implemented"@]
        } else {
            Seq::empty()
        }) + req_text("software H.264 encode"@, caps.media.software_encode@)
    }
}

pub open spec fn backend_reasons(c: Candidate, caps: CapabilitySnapshot, policy: PipelinePolicy) -> Seq<Seq<char>> {
    if c.backend == ProcessingBackend::Vulkan {
        req_text("Vulkan processing"@, caps.processing.vulkan@)
            + req_text("Vulkan compute queue"@, caps.processing.compute_queue@)
            + req_text("storageBuffer8BitAccess"@, caps.processing.storage_buffer_8bit@)
            + req_text("shaderInt64"@, caps.processing.shader_int64@)
            + req_text("Synchronization2"@, caps.processing.synchronization2@)
            + (if policy.backend == ProcessingBackend::Auto && !caps.processing.vulkan_auto_eligible {
                seq!["the selected Vulkan device is not eligible for automatic processing"@]
            } else {
                Seq::empty()
            })
    } else {
        req_text("CPU processing"@, caps.processing.cpu@)
    }
}

pub open spec fn interop_reasons(
    c: Candidate,
    caps: CapabilitySnapshot,
    req: InputRequirements,
    out: OutputVideoRequirements,
) -> Seq<Seq<char>> {
    (if c.input_interop {
        (if c.decode != MediaImplementation::Hardware || c.backend != ProcessingBackend::Vulkan {
            seq!["input interop requires VAAPI decode and Vulkan processing"@]
        } else {
            Seq::empty()
        }) + req_text("VAAPI to Vulkan input interop"@, input_for_requirements_spec(caps.interop, req))
    } else {
        Seq::empty()
    }) + (if c.output_interop {
        (if c.encode != MediaImplementation::Hardware || c.backend != ProcessingBackend::Vulkan {
            seq!["output interop requires Vulkan processing and VAAPI encode"@]
        } else {
            Seq::empty()
        }) + req_text("Vulkan to VAAPI output interop"@, output_for_requirements_spec(caps.interop, out))
    } else {
        Seq::empty()
    })
}

/// Every missing capability of a candidate, in a fixed order.
pub open spec fn reasons_spec(
    c: Candidate,
    caps: CapabilitySnapshot,
    req: InputRequirements,
    out: OutputVideoRequirements,
    policy: PipelinePolicy,
) -> Seq<Seq<char>> {
    (if c.decode == MediaImplementation::Hardware || c.encode == MediaImplementation::Hardware {
        req_text("VAAPI device"@, caps.media.vaapi_device@)
    } else {
        Seq::empty()
    }) + decode_reasons(c, caps, req) + encode_reasons(c, caps, out) + backend_reasons(c, caps, policy)
        + interop_reasons(c, caps, req, out)
}

/// Frame domains of a pixel format: host, VAAPI surface, Vulkan buffer.
pub open spec fn domains(f: PixelFormat) -> (FrameDomain, FrameDomain, FrameDomain) {
    match f {
        PixelFormat::Nv12 => (FrameDomain::HostNv12, FrameDomain::HardwareNv12, FrameDomain::VulkanNv12Buffer),
        PixelFormat::P010Le => (FrameDomain::HostP010, FrameDomain::HardwareP010, FrameDomain::VulkanP010Buffer),
    }
}

pub open spec fn mk_step(node: PlanNode, input: Option<FrameDomain>, output: Option<FrameDomain>) -> PlanStep {
    PlanStep { node, input, output }
}

/// The plan steps of a candidate for a pixel format.
pub open spec fn steps_spec(c: Candidate, f: PixelFormat) -> Seq<PlanStep> {
    let (host, hw, vk) = domains(f);
    let hw_decode = c.decode == MediaImplementation::Hardware;
    let decode_domain = if hw_decode { hw } else { host };
    let s1 = if hw_decode {
        seq![mk_step(PlanNode::VaapiDecode, None, Some(hw))]
    } else {
        seq![mk_step(PlanNode::SoftwareDecode, None, Some(host))]
    };
    let processing_input = if c.input_interop { vk } else if hw_decode { host } else { decode_domain };
    let s2 = if c.input_interop {
        seq![mk_step(PlanNode::InputHardwareInterop, Some(decode_domain), Some(vk))]
    } else if hw_decode {
        seq![mk_step(PlanNode::HardwareDownload, Some(decode_domain), Some(host))]
    } else {
        Seq::empty()
    };
    let vulkan = c.backend == ProcessingBackend::Vulkan;
    let processing_output = if vulkan { vk } else { host };
    let s3 = if vulkan {
        seq![mk_step(PlanNode::VulkanAscii, Some(processing_input), Some(vk))]
    } else {
        seq![mk_step(PlanNode::CpuAscii, Some(processing_input), Some(host))]
    };
    let hw_encode = c.encode == MediaImplementation::Hardware;
    let host_out = if vulkan { host } else { processing_output };
    let encode_input = if c.output_interop { hw } else if hw_encode { hw } else { host_out };
    let s4 = if c.output_interop {
        seq![mk_step(PlanNode::OutputHardwareInterop, Some(processing_output), Some(hw))]
    } else {
        (if vulkan {
            seq![mk_step(PlanNode::HostReadback, Some(processing_output), Some(host))]
        } else {
            Seq::empty()
        }) + (if hw_encode {
            seq![mk_step(PlanNode::HardwareUpload, Some(host_out), Some(hw))]
        } else {
            Seq::empty()
        })
    };
    let s5 = seq![mk_step(if hw_encode { PlanNode::VaapiEncode } else { PlanNode::SoftwareEncode },
        Some(encode_input), None)];
    s1 + s2 + s3 + s4 + s5
}

/// A candidate's label: its NV12 step names joined by arrows.
pub open spec fn label_spec(c: Candidate) -> Seq<char> {
    join(steps_spec(c, PixelFormat::Nv12).map_values(|s: PlanStep| node_text(s.node)), " -> "@)
}

/// Why the plan was chosen.
pub open spec fn plan_reasons_spec(c: Candidate, caps: CapabilitySnapshot) -> Seq<Seq<char>> {
    (if c.backend == ProcessingBackend::Vulkan {
        seq!["Vulkan processing is supported on "@ + match caps.processing.vulkan_device_name {
            Some(n) => n@,
            None => "the selected GPU"@,
        }]
    } else {
        Seq::empty()
    }) + (if c.input_interop {
        seq!["input interop avoids the expensive hardware download path"@]
    } else if c.decode == MediaImplementation::Software {
        seq!["software decode is preferred over staged VAAPI decode without input interop"@]
    } else {
        Seq::empty()
    }) + (if c.output_interop {
        seq!["output interop avoids Host readback and encoder hwupload"@]
    } else if c.encode == MediaImplementation::Hardware {
        seq!["VAAPI encode lowers CPU cost even when hwupload is required"@]
    } else {
        Seq::empty()
    })
}

/// How far pixels stay on the GPU for a candidate.
pub open spec fn pixel_path_spec(c: Candidate) -> PixelPath {
    if c.decode == MediaImplementation::Hardware && c.backend == ProcessingBackend::Vulkan
        && c.encode == MediaImplementation::Hardware && c.input_interop && c.output_interop {
        PixelPath::GpuResident
    } else if c.backend == ProcessingBackend::Cpu && c.decode == MediaImplementation::Software
        && c.encode == MediaImplementation::Software {
        PixelPath::Host
    } else {
        PixelPath::PartiallyStaged
    }
}

/// The plan built from a candidate.
pub open spec fn plan_matches(
    p: PipelinePlan,
    c: Candidate,
    caps: CapabilitySnapshot,
    out: OutputVideoRequirements,
) -> bool {
    &&& p.backend == c.backend
    &&& p.decode == c.decode
    &&& p.encode == c.encode
    &&& p.output == out
    &&& p.hardware_download == (c.decode == MediaImplementation::Hardware && !c.input_interop)
    &&& p.hardware_upload == (c.encode == MediaImplementation::Hardware && !c.output_interop)
    &&& p.hardware_input_interop == c.input_interop
    &&& p.hardware_output_interop == c.output_interop
    &&& p.steps@ == steps_spec(c, out.pixel_format)
    &&& p.pixel_path == pixel_path_spec(c)
    &&& p.preference_cost == cost_spec(c)
    &&& texts(p.reasons@) == plan_reasons_spec(c, caps)
    &&& p.buffer_capacity == 3
}


/// Text of each string in a concatenation is the concatenation of texts.
pub proof fn lemma_texts_concat(a: Seq<String>, b: Seq<String>)
    ensures
        texts(a + b) == texts(a) + texts(b),
{
    assert(texts(a + b) =~= texts(a) + texts(b));
}

proof fn lemma_texts_push(a: Seq<String>, s: String)
    ensures
        texts(a.push(s)) == texts(a).push(s@),
{
    assert(texts(a.push(s)) =~= texts(a).push(s@));
}

/// Appends `b` to `a`, keeping the texts in order.
fn extend(a: &mut Vec<String>, b: Vec<String>)
    ensures
        texts(final(a)@) == texts(old(a)@) + texts(b@),
{
    let mut b = b;
    let ghost old_b = b@;
    a.append(&mut b);
    proof { lemma_texts_concat(old(a)@, old_b); }
}

fn push_text(a: &mut Vec<String>, s: String)
    ensures
        texts(final(a)@) == texts(old(a)@).push(s@),
{
    let ghost t = s;
    a.push(s);
    proof { lemma_texts_push(old(a)@, t); }
}

/// Adds `"{name} unavailable: {reason}"` when `support` is unavailable.
fn require(reasons: &mut Vec<String>, name: &str, support: &CapabilitySupport)
    ensures
        texts(final(reasons)@) == texts(old(reasons)@) + req_text(name@, support@),
{
    proof { reveal_strlit(" unavailable: "); }
    match support.unavailable_reason() {
        Some(reason) => {
            let m = crate::text::cat3(name, " unavailable: ", reason);
            push_text(reasons, m);
            proof {
                assert(texts(old(reasons)@) + req_text(name@, support@) =~= texts(old(reasons)@).push(m@));
            }
        },
        None => {
            proof { assert(texts(old(reasons)@) + req_text(name@, support@) =~= texts(old(reasons)@)); }
        },
    }
}

fn one(s: String) -> (v: Vec<String>)
    ensures
        texts(v@) == seq![s@],
{
    let mut v: Vec<String> = Vec::new();
    push_text(&mut v, s);
    proof { assert(texts(Seq::<String>::empty()) =~= Seq::<Seq<char>>::empty()); }
    v
}

fn none() -> (v: Vec<String>)
    ensures
        texts(v@) == Seq::<Seq<char>>::empty(),
{
    let v: Vec<String> = Vec::new();
    proof { assert(texts(v@) =~= Seq::<Seq<char>>::empty()); }
    v
}

fn required(name: &str, support: &CapabilitySupport) -> (v: Vec<String>)
    ensures
        texts(v@) == req_text(name@, support@),
{
    let mut v = none();
    require(&mut v, name, support);
    v
}

pub fn matches_media(request: MediaRequest, value: MediaImplementation) -> (b: bool)
    ensures
        b == media_matches(request, value),
{
    match request {
        MediaRequest::Auto => true,
        MediaRequest::Software => value == MediaImplementation::Software,
        MediaRequest::Hardware => value == MediaImplementation::Hardware,
    }
}

pub fn matches_backend(request: ProcessingBackend, value: ProcessingBackend) -> (b: bool)
    ensures
        b == (request == ProcessingBackend::Auto || request == value),
{
    request == ProcessingBackend::Auto || request == value
}

pub fn matches_interop(request: InteropRequest, value: bool) -> (b: bool)
    ensures
        b == interop_matches(request, value),
{
    match request {
        InteropRequest::Auto => true,
        InteropRequest::Off => !value,
        InteropRequest::On => value,
    }
}

pub fn step(node: PlanNode, input: Option<FrameDomain>, output: Option<FrameDomain>) -> (s: PlanStep)
    ensures
        s == mk_step(node, input, output),
{
    PlanStep { node, input, output }
}

impl Candidate {
    /// The `index`-th candidate of the enumeration.
    pub fn at(index: u8) -> (c: Candidate)
        requires
            index < candidate_count(),
        ensures
            c == candidate_at(index as int),
    {
        Candidate {
            backend: if index < 16 { ProcessingBackend::Vulkan } else { ProcessingBackend::Cpu },
            decode: if (index / 8) % 2 == 0 { MediaImplementation::Hardware } else { MediaImplementation::Software },
            encode: if (index / 4) % 2 == 0 { MediaImplementation::Hardware } else { MediaImplementation::Software },
            input_interop: (index / 2) % 2 == 0,
            output_interop: index % 2 == 0,
        }
    }

    pub fn is_structurally_valid(self) -> (b: bool)
        ensures
            b == structurally_valid(self),
    {
        (!self.input_interop || (self.decode == MediaImplementation::Hardware
            && self.backend == ProcessingBackend::Vulkan))
            && (!self.output_interop || (self.encode == MediaImplementation::Hardware
                && self.backend == ProcessingBackend::Vulkan))
    }

    pub fn matches_policy(self, policy: &PipelinePolicy) -> (b: bool)
        ensures
            b == policy_matches(self, *policy),
    {
        matches_media(policy.decode, self.decode) && matches_media(policy.encode, self.encode)
            && matches_backend(policy.backend, self.backend)
            && matches_interop(policy.input_interop, self.input_interop)
            && matches_interop(policy.output_interop, self.output_interop)
    }

    pub fn preference_cost(self) -> (cost: u16)
        requires
            self.backend != ProcessingBackend::Auto,
        ensures
            cost == cost_spec(self),
    {
        let mut cost: u16 = if self.backend == ProcessingBackend::Cpu { 200 } else { 0 };
        if self.decode == MediaImplementation::Software {
            cost += 20;
        }
        if self.decode == MediaImplementation::Hardware && !self.input_interop {
            cost += 120;
        }
        if self.backend == ProcessingBackend::Vulkan && !self.output_interop {
            cost += 20;
        }
        if self.encode == MediaImplementation::Hardware && !self.output_interop {
            cost += 10;
        }
        if self.encode == MediaImplementation::Software {
            cost += 30;
        }
        cost
    }

    fn decode_reasons(self, caps: &CapabilitySnapshot, req: &InputRequirements) -> (v: Vec<String>)
        ensures
            texts(v@) == decode_reasons(self, *caps, *req),
    {
        proof {
            reveal_strlit("VAAPI ");
            reveal_strlit(" decode");
            reveal_strlit("input ");
            reveal_strlit(" ");
            reveal_strlit("-bit ");
            reveal_strlit(" is outside the qualified 8-bit 4:2:0 hardware path");
            reveal_strlit("software decode");
        }
        if self.decode == MediaImplementation::Hardware {
            let codec = req.codec.to_string();
            let name = crate::text::cat3("VAAPI ", codec.as_str(), " decode");
            let fact = caps.media.decode_for_input(req);
            let mut v = required(name.as_str(), &fact);
            if !req.supports_current_hardware_path() && req.bit_depth != Some(10u8) {
                let c = codec_debug(&req.codec);
                let mut m = cat("input ", c.as_str());
                m.append(" ");
                let d = option_u8_debug(req.bit_depth);
                m.append(d.as_str());
                m.append("-bit ");
                m.append(chroma_debug(req.chroma_subsampling));
                m.append(" is outside the qualified 8-bit 4:2:0 hardware path");
                let ghost before = texts(v@);
                push_text(&mut v, m);
                proof { assert(before.push(m@) =~= before + seq![m@]); }
            } else {
                proof { assert(texts(v@) =~= texts(v@) + Seq::<Seq<char>>::empty()); }
            }
            v
        } else {
            required("software decode", &caps.media.software_decode)
        }
    }

    fn encode_reasons(self, caps: &CapabilitySnapshot, out: &OutputVideoRequirements) -> (v: Vec<String>)
        ensures
            texts(v@) == encode_reasons(self, *caps, *out),
    {
        proof {
            reveal_strlit(" ");
            reveal_strlit("-bit VAAPI encoding");
            reveal_strlit("P010");
            reveal_strlit("NV12");
            reveal_strlit(" hardware frames");
            reveal_strlit("Host to VAAPI ");
            reveal_strlit(" upload");
            reveal_strlit(" software encoding is not implemented");
            reveal_strlit("software H.264 encode");
        }
        if self.encode == MediaImplementation::Hardware {
            let codec = out.codec.to_string();
            let mut name = cat(codec.as_str(), " ");
            let depth = decimal(out.bit_depth as u64);
            name.append(depth.as_str());
            name.append("-bit VAAPI encoding");
            let fact = caps.media.encode_for_output(out);
            let mut v = required(name.as_str(), &fact);
            let p010 = out.pixel_format == PixelFormat::P010Le;
            let label = if p010 { "P010" } else { "NV12" };
            let frames = if p010 { &caps.media.p010_hardware_frames } else { &caps.media.nv12_hardware_frames };
            let upload = if p010 { &caps.media.p010_hardware_upload } else { &caps.media.nv12_hardware_upload };
            let frames_name = cat(label, " hardware frames");
            let ghost t0 = texts(v@);
            require(&mut v, frames_name.as_str(), frames);
            let ghost t1 = texts(v@);
            if !self.output_interop {
                let upload_name = crate::text::cat3("Host to VAAPI ", label, " upload");
                require(&mut v, upload_name.as_str(), upload);
            } else {
                proof { assert(t1 =~= t1 + Seq::<Seq<char>>::empty()); }
            }
            v
        } else {
            let mut v = if !matches!(out.codec, VideoCodec::H264) {
                let codec = out.codec.to_string();
                one(cat(codec.as_str(), " software encoding is not implemented"))
            } else {
                none()
            };
            require(&mut v, "software H.264 encode", &caps.media.software_encode);
            v
        }
    }

    fn backend_reasons(self, caps: &CapabilitySnapshot, policy: &PipelinePolicy) -> (v: Vec<String>)
        requires
            self.backend != ProcessingBackend::Auto,
        ensures
            texts(v@) == backend_reasons(self, *caps, *policy),
    {
        proof {
            reveal_strlit("Vulkan processing");
            reveal_strlit("Vulkan compute queue");
            reveal_strlit("storageBuffer8BitAccess");
            reveal_strlit("shaderInt64");
            reveal_strlit("Synchronization2");
            reveal_strlit("the selected Vulkan device is not eligible for automatic processing");
            reveal_strlit("CPU processing");
        }
        if self.backend == ProcessingBackend::Vulkan {
            let mut v = required("Vulkan processing", &caps.processing.vulkan);
            require(&mut v, "Vulkan compute queue", &caps.processing.compute_queue);
            require(&mut v, "storageBuffer8BitAccess", &caps.processing.storage_buffer_8bit);
            require(&mut v, "shaderInt64", &caps.processing.shader_int64);
            require(&mut v, "Synchronization2", &caps.processing.synchronization2);
            if policy.backend == ProcessingBackend::Auto && !caps.processing.vulkan_auto_eligible {
                let m = String::from_str("the selected Vulkan device is not eligible for automatic processing");
                let ghost before = texts(v@);
                push_text(&mut v, m);
                proof { assert(before.push(m@) =~= before + seq![m@]); }
            } else {
                proof { assert(texts(v@) =~= texts(v@) + Seq::<Seq<char>>::empty()); }
            }
            v
        } else {
            required("CPU processing", &caps.processing.cpu)
        }
    }

    fn interop_reasons(
        self,
        caps: &CapabilitySnapshot,
        req: &InputRequirements,
        out: &OutputVideoRequirements,
    ) -> (v: Vec<String>)
        ensures
            texts(v@) == interop_reasons(self, *caps, *req, *out),
    {
        proof {
            reveal_strlit("input interop requires VAAPI decode and Vulkan processing");
            reveal_strlit("VAAPI to Vulkan input interop");
            reveal_strlit("output interop requires Vulkan processing and VAAPI encode");
            reveal_strlit("Vulkan to VAAPI output interop");
        }
        let mut v = none();
        if self.input_interop {
            let mut part = if self.decode != MediaImplementation::Hardware || self.backend != ProcessingBackend::Vulkan {
                one(String::from_str("input interop requires VAAPI decode and Vulkan processing"))
            } else {
                none()
            };
            let fact = caps.interop.input_for_requirements(req);
            require(&mut part, "VAAPI to Vulkan input interop", &fact);
            extend(&mut v, part);
        }
        let ghost first = texts(v@);
        if self.output_interop {
            let mut part = if self.encode != MediaImplementation::Hardware || self.backend != ProcessingBackend::Vulkan {
                one(String::from_str("output interop requires Vulkan processing and VAAPI encode"))
            } else {
                none()
            };
            let fact = caps.interop.output_for_requirements(out);
            require(&mut part, "Vulkan to VAAPI output interop", &fact);
            extend(&mut v, part);
        } else {
            proof { assert(first =~= first + Seq::<Seq<char>>::empty()); }
        }
        proof {
            if !self.input_interop {
                assert(first =~= Seq::<Seq<char>>::empty() + Seq::<Seq<char>>::empty());
            } else {
                assert(first =~= first + Seq::<Seq<char>>::empty());
            }
        }
        v
    }

    /// Every missing capability of this candidate, in a fixed order.
    pub fn rejection_reasons(
        self,
        caps: &CapabilitySnapshot,
        req: &InputRequirements,
        output: &OutputVideoRequirements,
        policy: &PipelinePolicy,
    ) -> (v: Vec<String>)
        requires
            self.backend != ProcessingBackend::Auto,
        ensures
            texts(v@) == reasons_spec(self, *caps, *req, *output, *policy),
    {
        proof { reveal_strlit("VAAPI device"); }
        let mut v = if self.decode == MediaImplementation::Hardware || self.encode == MediaImplementation::Hardware {
            required("VAAPI device", &caps.media.vaapi_device)
        } else {
            none()
        };
        extend(&mut v, self.decode_reasons(caps, req));
        extend(&mut v, self.encode_reasons(caps, output));
        extend(&mut v, self.backend_reasons(caps, policy));
        extend(&mut v, self.interop_reasons(caps, req, output));
        v
    }

    /// The plan steps for a pixel format.
    pub fn steps(self, format: PixelFormat) -> (v: Vec<PlanStep>)
        ensures
            v@ == steps_spec(self, format),
    {
        let (host, hw, vk) = match format {
            PixelFormat::Nv12 => (FrameDomain::HostNv12, FrameDomain::HardwareNv12, FrameDomain::VulkanNv12Buffer),
            PixelFormat::P010Le => (FrameDomain::HostP010, FrameDomain::HardwareP010, FrameDomain::VulkanP010Buffer),
        };
        let mut steps: Vec<PlanStep> = Vec::new();
        let decode_domain = if self.decode == MediaImplementation::Hardware {
            steps.push(step(PlanNode::VaapiDecode, None, Some(hw)));
            hw
        } else {
            steps.push(step(PlanNode::SoftwareDecode, None, Some(host)));
            host
        };
        let processing_input = if self.input_interop {
            steps.push(step(PlanNode::InputHardwareInterop, Some(decode_domain), Some(vk)));
            vk
        } else if decode_domain == hw {
            steps.push(step(PlanNode::HardwareDownload, Some(decode_domain), Some(host)));
            host
        } else {
            decode_domain
        };
        let processing_output = if self.backend == ProcessingBackend::Vulkan {
            steps.push(step(PlanNode::VulkanAscii, Some(processing_input), Some(vk)));
            vk
        } else {
            steps.push(step(PlanNode::CpuAscii, Some(processing_input), Some(host)));
            host
        };
        let encode_input = if self.output_interop {
            steps.push(step(PlanNode::OutputHardwareInterop, Some(processing_output), Some(hw)));
            hw
        } else {
            let host_out = if processing_output == vk {
                steps.push(step(PlanNode::HostReadback, Some(processing_output), Some(host)));
                host
            } else {
                processing_output
            };
            if self.encode == MediaImplementation::Hardware {
                steps.push(step(PlanNode::HardwareUpload, Some(host_out), Some(hw)));
                hw
            } else {
                host_out
            }
        };
        let encode_node = if self.encode == MediaImplementation::Hardware {
            PlanNode::VaapiEncode
        } else {
            PlanNode::SoftwareEncode
        };
        steps.push(step(encode_node, Some(encode_input), None));
        proof { assert(steps@ =~= steps_spec(self, format)); }
        steps
    }

    /// The NV12 step names joined by arrows.
    pub fn label(self) -> (s: String)
        ensures
            s@ == label_spec(self),
    {
        let steps = self.steps(PixelFormat::Nv12);
        let mut names: Vec<String> = Vec::new();
        let mut i: usize = 0;
        while i < steps.len()
            invariant
                i <= steps@.len(),
                steps@ == steps_spec(self, PixelFormat::Nv12),
                texts(names@) == steps@.subrange(0, i as int).map_values(|s: PlanStep| node_text(s.node)),
            decreases steps@.len() - i,
        {
            let n = String::from_str(steps[i].node.name());
            push_text(&mut names, n);
            proof {
                assert(steps@.subrange(0, i + 1).map_values(|s: PlanStep| node_text(s.node))
                    =~= steps@.subrange(0, i as int).map_values(|s: PlanStep| node_text(s.node)).push(n@));
            }
            i = i + 1;
        }
        proof {
            assert(steps@.subrange(0, steps@.len() as int) =~= steps@);
            reveal_strlit(" -> ");
        }
        join_strings(&names, " -> ")
    }

    /// The plan for this candidate.
    pub fn into_plan(
        self,
        preference_cost: u16,
        caps: &CapabilitySnapshot,
        output: OutputVideoRequirements,
    ) -> (p: PipelinePlan)
        requires
            preference_cost == cost_spec(self),
        ensures
            plan_matches(p, self, *caps, output),
    {
        proof {
            reveal_strlit("Vulkan processing is supported on ");
            reveal_strlit("the selected GPU");
            reveal_strlit("input interop avoids the expensive hardware download path");
            reveal_strlit("software decode is preferred over staged VAAPI decode without input interop");
            reveal_strlit("output interop avoids Host readback and encoder hwupload");
            reveal_strlit("VAAPI encode lowers CPU cost even when hwupload is required");
        }
        let hardware_download = self.decode == MediaImplementation::Hardware && !self.input_interop;
        let hardware_upload = self.encode == MediaImplementation::Hardware && !self.output_interop;
        let pixel_path = if self.decode == MediaImplementation::Hardware && self.backend == ProcessingBackend::Vulkan
            && self.encode == MediaImplementation::Hardware && self.input_interop && self.output_interop {
            PixelPath::GpuResident
        } else if self.backend == ProcessingBackend::Cpu && self.decode == MediaImplementation::Software
            && self.encode == MediaImplementation::Software {
            PixelPath::Host
        } else {
            PixelPath::PartiallyStaged
        };
        let mut reasons = if self.backend == ProcessingBackend::Vulkan {
            let device = match &caps.processing.vulkan_device_name {
                Some(name) => name.as_str(),
                None => "the selected GPU",
            };
            one(cat("Vulkan processing is supported on ", device))
        } else {
            none()
        };
        if self.input_interop {
            extend(&mut reasons, one(String::from_str("input interop avoids the expensive hardware download path")));
        } else if self.decode == MediaImplementation::Software {
            extend(&mut reasons, one(String::from_str(
                "software decode is preferred over staged VAAPI decode without input interop",
            )));
        } else {
            extend(&mut reasons, none());
        }
        if self.output_interop {
            extend(&mut reasons, one(String::from_str("output interop avoids Host readback and encoder hwupload")));
        } else if self.encode == MediaImplementation::Hardware {
            extend(&mut reasons, one(String::from_str(
                "VAAPI encode lowers CPU cost even when hwupload is required",
            )));
        } else {
            extend(&mut reasons, none());
        }
        let steps = self.steps(output.pixel_format);
        PipelinePlan {
            backend: self.backend,
            decode: self.decode,
            encode: self.encode,
            output,
            hardware_download,
            hardware_upload,
            hardware_input_interop: self.input_interop,
            hardware_output_interop: self.output_interop,
            steps,
            pixel_path,
            preference_cost,
            reasons,
            buffer_capacity: 3,
        }
    }
}


/// Why a policy is contradictory or unimplemented, if it is.
pub open spec fn policy_error(p: PipelinePolicy) -> Option<Seq<char>> {
    if p.output_bit_depth != 8 && p.output_bit_depth != 10 {
        Some("--output-bit-depth must be 8 or 10"@)
    } else if p.output_bit_depth == 10 && !(p.output_codec is Hevc || p.output_codec is Av1) {
        if p.output_codec is H264 {
            Some("10-bit H.264 output is not implemented; use HEVC or AV1"@)
        } else {
            Some("10-bit output requires --output-codec hevc or av1"@)
        }
    } else if p.output_codec is Hevc && p.encode == MediaRequest::Software {
        Some("HEVC software encoding is not implemented"@)
    } else if p.output_codec is Av1 && p.encode == MediaRequest::Software {
        Some("AV1 software encoding is not implemented"@)
    } else if p.input_interop == InteropRequest::On && p.decode == MediaRequest::Software {
        Some("input interop requires a hardware decoder"@)
    } else if p.input_interop == InteropRequest::On && p.backend == ProcessingBackend::Cpu {
        Some("input interop requires Vulkan processing"@)
    } else if p.output_interop == InteropRequest::On && p.encode == MediaRequest::Software {
        Some("output interop requires a hardware encoder"@)
    } else if p.output_interop == InteropRequest::On && p.backend == ProcessingBackend::Cpu {
        Some("output interop requires Vulkan processing"@)
    } else {
        None
    }
}

fn invalid(m: &str) -> (r: Result<()>)
    ensures
        invalid_with(r, m@),
{
    Err(Error::InvalidConfig(String::from_str(m)))
}

/// Rejects contradictory or unimplemented policies.
pub fn validate_policy(policy: &PipelinePolicy) -> (r: Result<()>)
    ensures
        match policy_error(*policy) {
            None => r is Ok,
            Some(m) => invalid_with(r, m),
        },
{
    proof {
        reveal_strlit("--output-bit-depth must be 8 or 10");
        reveal_strlit("10-bit H.264 output is not implemented; use HEVC or AV1");
        reveal_strlit("10-bit output requires --output-codec hevc or av1");
        reveal_strlit("HEVC software encoding is not implemented");
        reveal_strlit("AV1 software encoding is not implemented");
        reveal_strlit("input interop requires a hardware decoder");
        reveal_strlit("input interop requires Vulkan processing");
        reveal_strlit("output interop requires a hardware encoder");
        reveal_strlit("output interop requires Vulkan processing");
    }
    let hevc = matches!(policy.output_codec, VideoCodec::Hevc);
    let av1 = matches!(policy.output_codec, VideoCodec::Av1);
    if policy.output_bit_depth != 8 && policy.output_bit_depth != 10 {
        return invalid("--output-bit-depth must be 8 or 10");
    }
    if policy.output_bit_depth == 10 && !(hevc || av1) {
        if matches!(policy.output_codec, VideoCodec::H264) {
            return invalid("10-bit H.264 output is not implemented; use HEVC or AV1");
        }
        return invalid("10-bit output requires --output-codec hevc or av1");
    }
    if hevc && policy.encode == MediaRequest::Software {
        return invalid("HEVC software encoding is not implemented");
    }
    if av1 && policy.encode == MediaRequest::Software {
        return invalid("AV1 software encoding is not implemented");
    }
    if policy.input_interop == InteropRequest::On && policy.decode == MediaRequest::Software {
        return invalid("input interop requires a hardware decoder");
    }
    if policy.input_interop == InteropRequest::On && policy.backend == ProcessingBackend::Cpu {
        return invalid("input interop requires Vulkan processing");
    }
    if policy.output_interop == InteropRequest::On && policy.encode == MediaRequest::Software {
        return invalid("output interop requires a hardware encoder");
    }
    if policy.output_interop == InteropRequest::On && policy.backend == ProcessingBackend::Cpu {
        return invalid("output interop requires Vulkan processing");
    }
    Ok(())
}

/// The candidate is enumerated for this policy.
pub open spec fn considered(i: int, p: PipelinePolicy) -> bool {
    structurally_valid(candidate_at(i)) && policy_matches(candidate_at(i), p)
}

/// The candidate is considered and lacks nothing.
pub open spec fn accepted(
    i: int,
    caps: CapabilitySnapshot,
    req: InputRequirements,
    out: OutputVideoRequirements,
    p: PipelinePolicy,
) -> bool {
    considered(i, p) && reasons_spec(candidate_at(i), caps, req, out, p).len() == 0
}

/// Among the first `n` candidates, the accepted one of lowest cost, earliest on ties.
pub open spec fn best_upto(
    n: int,
    caps: CapabilitySnapshot,
    req: InputRequirements,
    out: OutputVideoRequirements,
    p: PipelinePolicy,
) -> Option<int>
    decreases n,
{
    if n <= 0 {
        None
    } else {
        let prev = best_upto(n - 1, caps, req, out, p);
        if accepted(n - 1, caps, req, out, p) {
            match prev {
                None => Some(n - 1),
                Some(b) => if cost_spec(candidate_at(n - 1)) < cost_spec(candidate_at(b)) {
                    Some(n - 1)
                } else {
                    Some(b)
                },
            }
        } else {
            prev
        }
    }
}

/// Labels and reasons of the considered-but-rejected candidates among the first `n`.
pub open spec fn rejected_upto(
    n: int,
    caps: CapabilitySnapshot,
    req: InputRequirements,
    out: OutputVideoRequirements,
    p: PipelinePolicy,
) -> Seq<(Seq<char>, Seq<Seq<char>>)>
    decreases n,
{
    if n <= 0 {
        Seq::empty()
    } else {
        let prev = rejected_upto(n - 1, caps, req, out, p);
        if considered(n - 1, p) && !accepted(n - 1, caps, req, out, p) {
            prev.push((label_spec(candidate_at(n - 1)), reasons_spec(candidate_at(n - 1), caps, req, out, p)))
        } else {
            prev
        }
    }
}

pub open spec fn rejection_view(r: CandidateRejection) -> (Seq<char>, Seq<Seq<char>>) {
    (r.candidate@, texts(r.reasons@))
}

/// All reasons of the rejections, in order.
pub open spec fn all_reasons(rs: Seq<(Seq<char>, Seq<Seq<char>>)>) -> Seq<Seq<char>>
    decreases rs.len(),
{
    if rs.len() == 0 {
        Seq::empty()
    } else {
        all_reasons(rs.drop_last()) + rs.last().1
    }
}

/// The message when no candidate is legal: up to four reasons.
pub open spec fn no_plan_message(rs: Seq<(Seq<char>, Seq<Seq<char>>)>) -> Seq<char> {
    let details = all_reasons(rs);
    if details.len() == 0 {
        "no pipeline matches the requested policy"@
    } else {
        "no legal pipeline matches the requested policy: "@
            + join(if details.len() <= 4 { details } else { details.take(4) }, "; "@)
    }
}

/// Printed input depth in the conversion error.
pub open spec fn input_depth_text(d: Option<u8>) -> Seq<char> {
    match d {
        Some(v) => decimal_text(v as nat) + "-bit"@,
        None => "unknown"@,
    }
}

/// Outcome of planning, before candidates are compared.
pub open spec fn select_precheck(
    caps: CapabilitySnapshot,
    req: InputRequirements,
    policy: PipelinePolicy,
) -> core::result::Result<OutputVideoRequirements, (bool, Seq<char>)> {
    if policy_error(policy) is Some {
        Err((true, policy_error(policy)->0))
    } else if processing_input_spec(req) is Err {
        Err((false, processing_input_spec(req)->Err_0))
    } else {
        match selected_output_spec(policy.output_codec, policy.output_bit_depth, req) {
            Err(e) => Err(e),
            Ok(out) => if processing_input_spec(req)->Ok_0 != out.pixel_format {
                Err((false, input_depth_text(req.bit_depth) + " input cannot be sent to "@
                    + decimal_text(out.bit_depth as nat) + "-bit "@ + codec_text(out.codec)
                    + " output without a conversion path"@))
            } else {
                Ok(out)
            },
        }
    }
}

} // verus!
