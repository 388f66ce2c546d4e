//! Pipeline initialization: which capability a failed initialization step
//! blames, and the single automatic replan that may follow it.

use vstd::prelude::*;
use crate::error::{stage_text, PipelineStage};
use crate::planner::caps::{
    decode_for_spec, CapabilitySnapshot, CapabilitySupport, Fact, InteropCapabilities,
    MediaCapabilities, ProcessingCapabilities, VideoCodec,
};
use crate::planner::policy::{InteropRequest, MediaImplementation, MediaRequest, PipelinePlan, PipelinePolicy};
use crate::planner::requirements::{encode_for_output_spec, InputRequirements, OutputVideoRequirements};
use crate::config::ProcessingBackend;
use crate::text::cat;
use crate::args::VulkanMappingArg;
use crate::session::{require_two_slots, two_slot_message, vulkan_frame_slots, vulkan_slot_outcome};
use crate::clock::{elapsed_nanos, now};
use crate::error::{error_text, Error};
use crate::planner::planning::{lemma_best_is_cheapest_legal, select_outcome, PipelinePlanner};
use crate::planner::select::{
    backend_reasons, best_upto, candidate_at, decode_reasons, encode_reasons, interop_reasons,
    plan_matches, reasons_spec, req_text, select_precheck,
};
use crate::planner::caps::encode_for_spec;
use crate::planner::requirements::{decode_for_input_spec, input_for_requirements_spec, output_for_requirements_spec};
use crate::planner::policy::{plan_text, same_plan, PlanningResult};

verus! {

/// The capability an initialization step depends on.
#[derive(Clone, Copy, Debug, PartialEq, Eq, Structural)]
pub enum InitCapability {
    SoftwareDecode,
    HardwareDecode,
    Vulkan,
    SoftwareEncode,
    HardwareEncode,
    InputInterop,
    OutputInterop,
    Muxer,
    Configuration,
}

/// The lifecycle stage a capability is initialized in.
pub open spec fn init_stage(c: InitCapability) -> PipelineStage {
    match c {
        InitCapability::SoftwareDecode | InitCapability::HardwareDecode => PipelineStage::DecoderInitialization,
        InitCapability::Vulkan => PipelineStage::ProcessorInitialization,
        InitCapability::SoftwareEncode | InitCapability::HardwareEncode => PipelineStage::EncoderInitialization,
        InitCapability::InputInterop => PipelineStage::InputInteropInitialization,
        InitCapability::OutputInterop => PipelineStage::OutputInteropInitialization,
        InitCapability::Muxer => PipelineStage::MuxInitialization,
        InitCapability::Configuration => PipelineStage::Planning,
    }
}

/// What initializing a capability does, as printed.
pub open spec fn init_operation(c: InitCapability) -> Seq<char> {
    match c {
        InitCapability::SoftwareDecode => "create software decoder"@,
        InitCapability::HardwareDecode => "create VAAPI input video decoder"@,
        InitCapability::Vulkan => "create Vulkan ASCII processor"@,
        InitCapability::SoftwareEncode => "create software output video encoder and MP4 muxer"@,
        InitCapability::HardwareEncode => "create VAAPI output video encoder and MP4 muxer"@,
        InitCapability::InputInterop => "create VAAPI to Vulkan input interop"@,
        InitCapability::OutputInterop => "create Vulkan to VAAPI output interop"@,
        InitCapability::Muxer => "create MP4 muxer"@,
        InitCapability::Configuration => "validate execution configuration"@,
    }
}

/// A capability is replannable exactly when the policy left its choice automatic.
pub open spec fn init_is_auto(c: InitCapability, policy: PipelinePolicy) -> bool {
    match c {
        InitCapability::HardwareDecode => policy.decode == MediaRequest::Auto,
        InitCapability::Vulkan => policy.backend == ProcessingBackend::Auto,
        InitCapability::HardwareEncode => policy.encode == MediaRequest::Auto,
        InitCapability::InputInterop => policy.input_interop == InteropRequest::Auto,
        InitCapability::OutputInterop => policy.output_interop == InteropRequest::Auto,
        _ => false,
    }
}

/// `after` is `before` with the decoder fact for `input` marked unsupported.
pub open spec fn decode_marked(before: MediaCapabilities, after: MediaCapabilities, input: InputRequirements, reason: Seq<char>) -> bool {
    if input.codec is Hevc && input.bit_depth == Some(10u8) {
        &&& after == (MediaCapabilities { hevc_main10_vaapi_decode: after.hevc_main10_vaapi_decode, ..before })
        &&& after.hevc_main10_vaapi_decode@ == Fact::Unsupported(reason)
    } else if input.codec is Av1 && input.bit_depth == Some(10u8) {
        &&& after == (MediaCapabilities { av1_10bit_vaapi_decode: after.av1_10bit_vaapi_decode, ..before })
        &&& after.av1_10bit_vaapi_decode@ == Fact::Unsupported(reason)
    } else {
        &&& after == (match input.codec {
            VideoCodec::H264 => (MediaCapabilities { h264_vaapi_decode: after.h264_vaapi_decode, ..before }),
            VideoCodec::Hevc => (MediaCapabilities { hevc_vaapi_decode: after.hevc_vaapi_decode, ..before }),
            VideoCodec::Av1 => (MediaCapabilities { av1_vaapi_decode: after.av1_vaapi_decode, ..before }),
            VideoCodec::Other(_) => before,
        })
        &&& !(input.codec is Other) ==> decode_for_spec(after, input.codec) == Fact::Unsupported(reason)
    }
}

/// `after` is `before` with the encoder fact for `output` marked unsupported.
pub open spec fn encode_marked(before: MediaCapabilities, after: MediaCapabilities, output: OutputVideoRequirements, reason: Seq<char>) -> bool {
    &&& output.codec is Hevc && output.bit_depth == 10 ==> after == (MediaCapabilities {
        hevc_main10_vaapi_encode: after.hevc_main10_vaapi_encode, ..before })
    &&& output.codec is Av1 && output.bit_depth == 10 ==> after == (MediaCapabilities {
        av1_10bit_vaapi_encode: after.av1_10bit_vaapi_encode, ..before })
    &&& !((output.codec is Hevc || output.codec is Av1) && output.bit_depth == 10) ==> after == (match output.codec {
        VideoCodec::H264 => (MediaCapabilities { h264_vaapi_encode: after.h264_vaapi_encode, ..before }),
        VideoCodec::Hevc => (MediaCapabilities { hevc_vaapi_encode: after.hevc_vaapi_encode, ..before }),
        VideoCodec::Av1 => (MediaCapabilities { av1_vaapi_encode: after.av1_vaapi_encode, ..before }),
        VideoCodec::Other(_) => before,
    })
    &&& !(output.codec is Other) ==> encode_for_output_spec(after, output) == Fact::Unsupported(reason)
}

/// `after` is `before` with the input interop fact for `input` marked unsupported.
pub open spec fn input_interop_marked(before: InteropCapabilities, after: InteropCapabilities, input: InputRequirements, reason: Seq<char>) -> bool {
    if input.bit_depth == Some(10u8) {
        after == (InteropCapabilities { p010_input: after.p010_input, ..before })
            && after.p010_input@ == Fact::Unsupported(reason)
    } else {
        match input.codec {
            VideoCodec::H264 => after == (InteropCapabilities { input: after.input, ..before })
                && after.input@ == Fact::Unsupported(reason),
            VideoCodec::Hevc => after == (InteropCapabilities { hevc_input: after.hevc_input, ..before })
                && after.hevc_input@ == Fact::Unsupported(reason),
            VideoCodec::Av1 => after == (InteropCapabilities { av1_input: after.av1_input, ..before })
                && after.av1_input@ == Fact::Unsupported(reason),
            VideoCodec::Other(_) => after == before,
        }
    }
}

/// `after` is `before` with the output interop fact for `output` marked unsupported.
pub open spec fn output_interop_marked(before: InteropCapabilities, after: InteropCapabilities, output: OutputVideoRequirements, reason: Seq<char>) -> bool {
    if output.pixel_format == crate::frame::PixelFormat::P010Le {
        if output.codec is Av1 {
            after == (InteropCapabilities { av1_p010_output: after.av1_p010_output, ..before })
                && after.av1_p010_output@ == Fact::Unsupported(reason)
        } else {
            after == (InteropCapabilities { p010_output: after.p010_output, ..before })
                && after.p010_output@ == Fact::Unsupported(reason)
        }
    } else {
        match output.codec {
            VideoCodec::H264 => after == (InteropCapabilities { output: after.output, ..before })
                && after.output@ == Fact::Unsupported(reason),
            VideoCodec::Hevc => after == (InteropCapabilities { hevc_output: after.hevc_output, ..before })
                && after.hevc_output@ == Fact::Unsupported(reason),
            VideoCodec::Av1 => after == (InteropCapabilities { av1_output: after.av1_output, ..before })
                && after.av1_output@ == Fact::Unsupported(reason),
            VideoCodec::Other(_) => after == before,
        }
    }
}

/// `after` is `before` with exactly the facts behind capability `c` marked
/// unsupported for `reason`; capabilities that no probe reports change nothing.
pub open spec fn marked(
    c: InitCapability,
    before: CapabilitySnapshot,
    after: CapabilitySnapshot,
    input: InputRequirements,
    output: OutputVideoRequirements,
    reason: Seq<char>,
) -> bool {
    match c {
        InitCapability::HardwareDecode => after == (CapabilitySnapshot { media: after.media, ..before })
            && decode_marked(before.media, after.media, input, reason),
        InitCapability::Vulkan => after == (CapabilitySnapshot {
                processing: ProcessingCapabilities {
                    vulkan: after.processing.vulkan,
                    vulkan_auto_eligible: false,
                    ..before.processing
                },
                ..before
            }) && after.processing.vulkan@ == Fact::Unsupported(reason),
        InitCapability::HardwareEncode => after == (CapabilitySnapshot { media: after.media, ..before })
            && encode_marked(before.media, after.media, output, reason),
        InitCapability::InputInterop => after == (CapabilitySnapshot { interop: after.interop, ..before })
            && input_interop_marked(before.interop, after.interop, input, reason),
        InitCapability::OutputInterop => after == (CapabilitySnapshot { interop: after.interop, ..before })
            && output_interop_marked(before.interop, after.interop, output, reason),
        _ => after == before,
    }
}

impl InitCapability {
    pub fn stage(self) -> (s: PipelineStage)
        ensures
            s == init_stage(self),
    {
        match self {
            InitCapability::SoftwareDecode | InitCapability::HardwareDecode => PipelineStage::DecoderInitialization,
            InitCapability::Vulkan => PipelineStage::ProcessorInitialization,
            InitCapability::SoftwareEncode | InitCapability::HardwareEncode => PipelineStage::EncoderInitialization,
            InitCapability::InputInterop => PipelineStage::InputInteropInitialization,
            InitCapability::OutputInterop => PipelineStage::OutputInteropInitialization,
            InitCapability::Muxer => PipelineStage::MuxInitialization,
            InitCapability::Configuration => PipelineStage::Planning,
        }
    }

    pub fn operation(self) -> (s: &'static str)
        ensures
            s@ == init_operation(self),
    {
        proof {
            reveal_strlit("create software decoder");
            reveal_strlit("create VAAPI input video decoder");
            reveal_strlit("create Vulkan ASCII processor");
            reveal_strlit("create software output video encoder and MP4 muxer");
            reveal_strlit("create VAAPI output video encoder and MP4 muxer");
            reveal_strlit("create VAAPI to Vulkan input interop");
            reveal_strlit("create Vulkan to VAAPI output interop");
            reveal_strlit("create MP4 muxer");
            reveal_strlit("validate execution configuration");
        }
        match self {
            InitCapability::SoftwareDecode => "create software decoder",
            InitCapability::HardwareDecode => "create VAAPI input video decoder",
            InitCapability::Vulkan => "create Vulkan ASCII processor",
            InitCapability::SoftwareEncode => "create software output video encoder and MP4 muxer",
            InitCapability::HardwareEncode => "create VAAPI output video encoder and MP4 muxer",
            InitCapability::InputInterop => "create VAAPI to Vulkan input interop",
            InitCapability::OutputInterop => "create Vulkan to VAAPI output interop",
            InitCapability::Muxer => "create MP4 muxer",
            InitCapability::Configuration => "validate execution configuration",
        }
    }

    pub fn is_auto(self, policy: &PipelinePolicy) -> (b: bool)
        ensures
            b == init_is_auto(self, *policy),
    {
        match self {
            InitCapability::HardwareDecode => policy.decode == MediaRequest::Auto,
            InitCapability::Vulkan => policy.backend == ProcessingBackend::Auto,
            InitCapability::HardwareEncode => policy.encode == MediaRequest::Auto,
            InitCapability::InputInterop => policy.input_interop == InteropRequest::Auto,
            InitCapability::OutputInterop => policy.output_interop == InteropRequest::Auto,
            _ => false,
        }
    }

    /// Records that this capability failed to initialize, so that a replan
    /// avoids it; only the fact the failed step relied on changes.
    pub fn mark_unsupported(
        self,
        snapshot: &mut CapabilitySnapshot,
        input: &InputRequirements,
        output: &OutputVideoRequirements,
        reason: &str,
    )
        ensures
            marked(self, *old(snapshot), *final(snapshot), *input, *output, reason@),
    {
        match self {
            InitCapability::HardwareDecode => {
                if matches!(input.codec, VideoCodec::Hevc) && input.bit_depth == Some(10u8) {
                    snapshot.media.hevc_main10_vaapi_decode = CapabilitySupport::unsupported(reason);
                } else if matches!(input.codec, VideoCodec::Av1) && input.bit_depth == Some(10u8) {
                    snapshot.media.av1_10bit_vaapi_decode = CapabilitySupport::unsupported(reason);
                } else {
                    snapshot.media.disable_decode(&input.codec, reason);
                }
            },
            InitCapability::Vulkan => {
                snapshot.processing.vulkan = CapabilitySupport::unsupported(reason);
                snapshot.processing.vulkan_auto_eligible = false;
            },
            InitCapability::HardwareEncode => snapshot.media.disable_encode_output(output, reason),
            InitCapability::InputInterop => {
                if input.bit_depth == Some(10u8) {
                    snapshot.interop.p010_input = CapabilitySupport::unsupported(reason);
                } else {
                    snapshot.interop.set_input(&input.codec, CapabilitySupport::unsupported(reason));
                }
            },
            InitCapability::OutputInterop => {
                snapshot.interop.set_output_for_requirements(output, CapabilitySupport::unsupported(reason));
            },
            _ => {},
        }
    }
}

/// A failed initialization step: the capability it needed and the cause.
#[derive(Debug)]
pub struct InitializationFailure {
    pub capability: InitCapability,
    pub source: String,
}

/// `"{stage}: {operation} failed: {cause}"`.
pub open spec fn init_failure_text(c: InitCapability, cause: Seq<char>) -> Seq<char> {
    stage_text(init_stage(c)) + ": "@ + init_operation(c) + " failed: "@ + cause
}

impl InitializationFailure {
    pub fn new(capability: InitCapability, source: String) -> (f: Self)
        ensures
            f.capability == capability,
            f.source@ == source@,
    {
        InitializationFailure { capability, source }
    }

    /// The failure as printed.
    pub fn to_string(&self) -> (s: String)
        ensures
            s@ == init_failure_text(self.capability, self.source@),
    {
        proof {
            reveal_strlit(": ");
            reveal_strlit(" failed: ");
        }
        let mut s = cat(self.capability.stage().name(), ": ");
        s.append(self.capability.operation());
        s.append(" failed: ");
        s.append(self.source.as_str());
        s
    }
}

/// A step of pipeline construction at which initialization can fail.
#[derive(Clone, Copy, Debug, PartialEq, Eq, Structural)]
pub enum InitializationPoint {
    DecoderCreate,
    VaapiFramesPoolCreate,
    InputDrmPrimeMap,
    InputDmaBufImport,
    VulkanProcessorCreate,
    OutputVaapiFrameAcquire,
    OutputDrmPrimeMap,
    OutputDmaBufImport,
    EncoderCreate,
    MuxerCreate,
}

/// The capability a failure at `p` blames, given how the plan decodes and encodes.
pub open spec fn point_capability(p: InitializationPoint, decode: MediaImplementation, encode: MediaImplementation) -> InitCapability {
    match p {
        InitializationPoint::DecoderCreate => match decode {
            MediaImplementation::Software => InitCapability::SoftwareDecode,
            MediaImplementation::Hardware => InitCapability::HardwareDecode,
        },
        InitializationPoint::VaapiFramesPoolCreate => InitCapability::HardwareEncode,
        InitializationPoint::OutputVaapiFrameAcquire | InitializationPoint::OutputDrmPrimeMap
            | InitializationPoint::OutputDmaBufImport => InitCapability::OutputInterop,
        InitializationPoint::InputDrmPrimeMap | InitializationPoint::InputDmaBufImport => InitCapability::InputInterop,
        InitializationPoint::VulkanProcessorCreate => InitCapability::Vulkan,
        InitializationPoint::EncoderCreate => match encode {
            MediaImplementation::Software => InitCapability::SoftwareEncode,
            MediaImplementation::Hardware => InitCapability::HardwareEncode,
        },
        InitializationPoint::MuxerCreate => InitCapability::Muxer,
    }
}

pub open spec fn point_operation(p: InitializationPoint) -> Seq<char> {
    match p {
        InitializationPoint::DecoderCreate => "decoder create"@,
        InitializationPoint::VaapiFramesPoolCreate => "VAAPI frames pool create"@,
        InitializationPoint::InputDrmPrimeMap => "input DRM PRIME map"@,
        InitializationPoint::InputDmaBufImport => "input DMA-BUF import"@,
        InitializationPoint::VulkanProcessorCreate => "Vulkan processor create"@,
        InitializationPoint::OutputVaapiFrameAcquire => "output VAAPI frame acquire"@,
        InitializationPoint::OutputDrmPrimeMap => "output DRM PRIME map"@,
        InitializationPoint::OutputDmaBufImport => "output DMA-BUF import"@,
        InitializationPoint::EncoderCreate => "encoder create"@,
        InitializationPoint::MuxerCreate => "muxer create"@,
    }
}

impl InitializationPoint {
    pub fn capability(self, plan: &PipelinePlan) -> (c: InitCapability)
        ensures
            c == point_capability(self, plan.decode, plan.encode),
    {
        match self {
            InitializationPoint::DecoderCreate => match plan.decode {
                MediaImplementation::Software => InitCapability::SoftwareDecode,
                MediaImplementation::Hardware => InitCapability::HardwareDecode,
            },
            InitializationPoint::VaapiFramesPoolCreate => InitCapability::HardwareEncode,
            InitializationPoint::OutputVaapiFrameAcquire | InitializationPoint::OutputDrmPrimeMap
                | InitializationPoint::OutputDmaBufImport => InitCapability::OutputInterop,
            InitializationPoint::InputDrmPrimeMap | InitializationPoint::InputDmaBufImport => InitCapability::InputInterop,
            InitializationPoint::VulkanProcessorCreate => InitCapability::Vulkan,
            InitializationPoint::EncoderCreate => match plan.encode {
                MediaImplementation::Software => InitCapability::SoftwareEncode,
                MediaImplementation::Hardware => InitCapability::HardwareEncode,
            },
            InitializationPoint::MuxerCreate => InitCapability::Muxer,
        }
    }

    pub fn operation(self) -> (s: &'static str)
        ensures
            s@ == point_operation(self),
    {
        proof {
            reveal_strlit("decoder create");
            reveal_strlit("VAAPI frames pool create");
            reveal_strlit("input DRM PRIME map");
            reveal_strlit("input DMA-BUF import");
            reveal_strlit("Vulkan processor create");
            reveal_strlit("output VAAPI frame acquire");
            reveal_strlit("output DRM PRIME map");
            reveal_strlit("output DMA-BUF import");
            reveal_strlit("encoder create");
            reveal_strlit("muxer create");
        }
        match self {
            InitializationPoint::DecoderCreate => "decoder create",
            InitializationPoint::VaapiFramesPoolCreate => "VAAPI frames pool create",
            InitializationPoint::InputDrmPrimeMap => "input DRM PRIME map",
            InitializationPoint::InputDmaBufImport => "input DMA-BUF import",
            InitializationPoint::VulkanProcessorCreate => "Vulkan processor create",
            InitializationPoint::OutputVaapiFrameAcquire => "output VAAPI frame acquire",
            InitializationPoint::OutputDrmPrimeMap => "output DRM PRIME map",
            InitializationPoint::OutputDmaBufImport => "output DMA-BUF import",
            InitializationPoint::EncoderCreate => "encoder create",
            InitializationPoint::MuxerCreate => "muxer create",
        }
    }
}

/// Checkpoints that pipeline construction passes; production passes them all.
pub trait FactoryHooks {
    /// By default every checkpoint is passed.
    fn checkpoint(&mut self, point: InitializationPoint, plan: &PipelinePlan) -> (r: core::result::Result<(), InitializationFailure>)
        default_ensures
            r is Ok,
    {
        Ok(())
    }
}

/// The hooks of a real run: no checkpoint fails.
pub struct ProductionFactoryHooks;

impl FactoryHooks for ProductionFactoryHooks {}

/// Fails the first time construction reaches one chosen point, and never again.
pub struct InitializationFaultInjector {
    pub point: InitializationPoint,
    pub fired: bool,
}

/// The message of an injected failure.
pub open spec fn injected_text(p: InitializationPoint) -> Seq<char> {
    "deterministic injected failure at "@ + point_operation(p)
}

impl InitializationFaultInjector {
    pub fn new(point: InitializationPoint) -> (i: Self)
        ensures
            i.point == point,
            !i.fired,
    {
        InitializationFaultInjector { point, fired: false }
    }
}

impl FactoryHooks for InitializationFaultInjector {
    fn checkpoint(&mut self, point: InitializationPoint, plan: &PipelinePlan) -> (r: core::result::Result<(), InitializationFailure>)
        ensures
            final(self).point == old(self).point,
            (!old(self).fired && point == old(self).point) ==> {
                &&& final(self).fired
                &&& r matches Err(f) && f.capability == point_capability(point, plan.decode, plan.encode)
                    && f.source@ == injected_text(point)
            },
            !(!old(self).fired && point == old(self).point) ==> r is Ok && final(self).fired == old(self).fired,
    {
        if !self.fired && point == self.point {
            self.fired = true;
            proof { reveal_strlit("deterministic injected failure at "); }
            let message = cat("deterministic injected failure at ", point.operation());
            Err(InitializationFailure::new(point.capability(plan), message))
        } else {
            Ok(())
        }
    }
}

/// What a successful replan records.
#[derive(Debug)]
pub struct ReplanRecord {
    pub initial_plan: PipelinePlan,
    pub first_failure: String,
    pub replanned_plan: PipelinePlan,
    /// Time spent replanning, in nanoseconds.
    pub duration_nanos: u128,
}

/// A constructed pipeline with the planning decision it was built from.
#[derive(Debug)]
pub struct Initialized<T> {
    pub value: T,
    pub decision: PlanningResult,
    pub replan: Option<ReplanRecord>,
}

/// The first failure may be replanned around: its capability was chosen
/// automatically, and exactly the facts behind it were marked unsupported
/// with the failure's text as the reason.
pub open spec fn replan_eligible(
    c: InitCapability,
    cause: Seq<char>,
    policy: PipelinePolicy,
    before: CapabilitySnapshot,
    after: CapabilitySnapshot,
    req: InputRequirements,
    initial: PipelinePlan,
) -> bool {
    init_is_auto(c, policy) && marked(c, before, after, req, initial.output, init_failure_text(c, cause))
}

pub open spec fn plan_lines(p: PipelinePlan) -> Seq<char> {
    plan_text(p.steps@, p.output.codec)
}

pub open spec fn terminal_failure_message(initial: PipelinePlan, failure: Seq<char>) -> Seq<char> {
    "pipeline initialization failed\nselected plan: "@ + plan_lines(initial) + "\nfailure: "@ + failure
}

pub open spec fn staging_failure_message(cause: Seq<char>) -> Seq<char> {
    "initialization replan: clean failed staging output: "@ + cause
}

pub open spec fn replan_failure_message(initial: PipelinePlan, first: Seq<char>, cause: Seq<char>) -> Seq<char> {
    "pipeline initialization could not find a legal automatic replan\ninitial plan: "@ + plan_lines(initial)
        + "\nfirst failure: "@ + first + "\nreplan failure: "@ + cause
}

pub open spec fn second_failure_message(initial: PipelinePlan, first: Seq<char>, replanned: PipelinePlan, second: Seq<char>) -> Seq<char> {
    "pipeline initialization failed after one automatic replan\ninitial plan: "@ + plan_lines(initial)
        + "\nfirst failure: "@ + first + "\nreplanned plan: "@ + plan_lines(replanned)
        + "\nsecond failure: "@ + second
}

/// Builds the pipeline for the initially selected plan. When that fails on a
/// capability the policy left automatic, the capability is marked
/// unsupported, staging output is reset, the pipeline is replanned once and
/// built again; any other failure, and any second failure, is terminal and
/// names the plans and failures involved.
pub fn initialize_with_replan<T, B, R>(
    snapshot: &mut CapabilitySnapshot,
    requirements: &InputRequirements,
    policy: PipelinePolicy,
    initial: PlanningResult,
    mut build: B,
    mut reset_staging: R,
) -> (r: core::result::Result<Initialized<T>, String>)
    where
        B: FnMut(&PipelinePlan) -> core::result::Result<T, InitializationFailure>,
        R: FnMut() -> core::result::Result<(), String>,
    requires
        forall|p: &PipelinePlan| call_requires(build, (p,)),
        call_requires(reset_staging, ()),
    ensures
        r is Ok && r->Ok_0.replan is None
            ==> call_ensures(build, (&initial.selected,), Ok::<T, InitializationFailure>(r->Ok_0.value)),
        r is Ok && r->Ok_0.replan is Some
            ==> call_ensures(build, (&r->Ok_0.replan->0.replanned_plan,), Ok::<T, InitializationFailure>(r->Ok_0.value)),
        r is Ok && r->Ok_0.replan is None ==> r->Ok_0.decision == initial && *final(snapshot) == *old(snapshot),
        r is Err || (r is Ok && r->Ok_0.replan is Some) ==> exists|first: InitializationFailure|
            #[trigger] call_ensures(build, (&initial.selected,), Err::<T, InitializationFailure>(first)) && ({
                let c = first.capability;
                let cause = first.source@;
                match r {
                    Ok(init) => {
                        &&& init.replan matches Some(rec)
                        &&& rec.initial_plan == initial.selected
                        &&& same_plan(rec.replanned_plan, init.decision.selected)
                        &&& select_outcome(Ok(init.decision), *final(snapshot), *requirements, policy)
                        &&& rec.first_failure@ == init_failure_text(c, cause)
                        &&& replan_eligible(c, cause, policy, *old(snapshot), *final(snapshot), *requirements, initial.selected)
                    },
                    Err(m) => {
                        ||| {
                            &&& !init_is_auto(c, policy)
                            &&& *final(snapshot) == *old(snapshot)
                            &&& m@ == terminal_failure_message(initial.selected, init_failure_text(c, cause))
                        }
                        ||| replan_eligible(c, cause, policy, *old(snapshot), *final(snapshot), *requirements, initial.selected)
                            && exists|e: Seq<char>| #[trigger] staging_failure_message(e) == m@
                        ||| replan_eligible(c, cause, policy, *old(snapshot), *final(snapshot), *requirements, initial.selected)
                            && exists|e: Error| #![trigger error_text(e)]
                                select_outcome(Err(e), *final(snapshot), *requirements, policy)
                                && m@ == replan_failure_message(initial.selected, init_failure_text(c, cause), error_text(e))
                        ||| replan_eligible(c, cause, policy, *old(snapshot), *final(snapshot), *requirements, initial.selected)
                            && exists|res: PlanningResult, plan: PipelinePlan, second: InitializationFailure|
                                #![trigger select_outcome(Ok(res), *final(snapshot), *requirements, policy), call_ensures(build, (&plan,), Err::<T, InitializationFailure>(second))]
                                select_outcome(Ok(res), *final(snapshot), *requirements, policy)
                                && same_plan(plan, res.selected)
                                && call_ensures(build, (&plan,), Err::<T, InitializationFailure>(second))
                                && m@ == second_failure_message(initial.selected, init_failure_text(c, cause), res.selected,
                                    init_failure_text(second.capability, second.source@))
                    },
                }
            }),
{
    proof {
        reveal_strlit("pipeline initialization failed\nselected plan: ");
        reveal_strlit("\nfailure: ");
        reveal_strlit("initialization replan: clean failed staging output: ");
        reveal_strlit("pipeline initialization could not find a legal automatic replan\ninitial plan: ");
        reveal_strlit("\nfirst failure: ");
        reveal_strlit("\nreplan failure: ");
        reveal_strlit("pipeline initialization failed after one automatic replan\ninitial plan: ");
        reveal_strlit("\nreplanned plan: ");
        reveal_strlit("\nsecond failure: ");
    }
    let ghost before = *snapshot;
    let first = match build(&initial.selected) {
        Ok(value) => {
            return Ok(Initialized { value, decision: initial, replan: None });
        },
        Err(f) => f,
    };
    let first_failure = first.to_string();
    let initial_text = initial.selected.to_string();
    if !first.capability.is_auto(&policy) {
        let mut m = String::from_str("pipeline initialization failed\nselected plan: ");
        m.append(initial_text.as_str());
        m.append("\nfailure: ");
        m.append(first_failure.as_str());
        proof {
            assert(m@ == terminal_failure_message(initial.selected, init_failure_text(first.capability, first.source@)));
        }
        return Err(m);
    }
    first.capability.mark_unsupported(snapshot, requirements, &initial.selected.output, first_failure.as_str());
    proof {
        assert(replan_eligible(first.capability, first.source@, policy, before, *snapshot, *requirements, initial.selected));
    }
    if let Err(e) = reset_staging() {
        let m = cat("initialization replan: clean failed staging output: ", e.as_str());
        proof {
            assert(m@ == staging_failure_message(e@));
            assert(init_failure_text(first.capability, first.source@) == init_failure_text(first.capability, first.source@));
        }
        return Err(m);
    }
    let started = now();
    let replanned = match PipelinePlanner::select(snapshot, requirements, policy.copied()) {
        Ok(res) => res,
        Err(e) => {
            let mut m = String::from_str("pipeline initialization could not find a legal automatic replan\ninitial plan: ");
            m.append(initial_text.as_str());
            m.append("\nfirst failure: ");
            m.append(first_failure.as_str());
            m.append("\nreplan failure: ");
            let cause = e.to_string();
            m.append(cause.as_str());
            proof {
                assert(m@ == replan_failure_message(initial.selected, init_failure_text(first.capability, first.source@), error_text(e)));
            }
            return Err(m);
        },
    };
    let duration_nanos = elapsed_nanos(&started);
    let replanned_plan = replanned.selected.copied();
    match build(&replanned_plan) {
        Ok(value) => {
            let PlanningResult { selected, rejected: _ } = initial;
            proof {
                assert(first_failure@ == init_failure_text(first.capability, first.source@));
            }
            Ok(Initialized {
                value,
                decision: replanned,
                replan: Some(ReplanRecord { initial_plan: selected, first_failure, replanned_plan, duration_nanos }),
            })
        },
        Err(second) => {
            let mut m = String::from_str("pipeline initialization failed after one automatic replan\ninitial plan: ");
            m.append(initial_text.as_str());
            m.append("\nfirst failure: ");
            m.append(first_failure.as_str());
            m.append("\nreplanned plan: ");
            let replanned_text = replanned_plan.to_string();
            m.append(replanned_text.as_str());
            m.append("\nsecond failure: ");
            let second_text = second.to_string();
            m.append(second_text.as_str());
            proof {
                assert(replanned_plan.steps@ == replanned.selected.steps@);
                assert(m@ == second_failure_message(initial.selected, init_failure_text(first.capability, first.source@),
                    replanned.selected, init_failure_text(second.capability, second.source@)));
            }
            Err(m)
        },
    }
}

/// A marked capability fact can no longer satisfy a requirement.
pub open spec fn unavailable(f: Fact) -> bool {
    !(f is Supported)
}

proof fn lemma_marked_fact_unavailable(
    c: InitCapability,
    before: CapabilitySnapshot,
    after: CapabilitySnapshot,
    req: InputRequirements,
    out: OutputVideoRequirements,
    reason: Seq<char>,
)
    requires
        marked(c, before, after, req, out, reason),
    ensures
        c == InitCapability::InputInterop ==> unavailable(input_for_requirements_spec(after.interop, req)),
        c == InitCapability::OutputInterop ==> unavailable(output_for_requirements_spec(after.interop, out)),
        c == InitCapability::Vulkan ==> unavailable(after.processing.vulkan@),
        c == InitCapability::HardwareDecode ==> unavailable(decode_for_input_spec(after.media, req)),
        c == InitCapability::HardwareEncode ==> unavailable(encode_for_output_spec(after.media, out)),
{
    if c == InitCapability::HardwareEncode && out.codec is Other {
        assert(encode_for_output_spec(after.media, out) == encode_for_spec(after.media, out.codec));
    }
}

/// Once the capability behind a failed initialization step is marked
/// unsupported, no plan the planner selects over the updated facts uses it:
/// a replan never retries what failed.
pub proof fn lemma_replan_avoids_failed_capability(
    c: InitCapability,
    before: CapabilitySnapshot,
    after: CapabilitySnapshot,
    req: InputRequirements,
    out: OutputVideoRequirements,
    reason: Seq<char>,
    policy: PipelinePolicy,
    res: PlanningResult,
)
    requires
        marked(c, before, after, req, out, reason),
        select_precheck(after, req, policy) == Ok::<OutputVideoRequirements, (bool, Seq<char>)>(out),
        select_outcome(Ok(res), after, req, policy),
    ensures
        c == InitCapability::InputInterop ==> !res.selected.hardware_input_interop,
        c == InitCapability::OutputInterop ==> !res.selected.hardware_output_interop,
        c == InitCapability::Vulkan ==> res.selected.backend != ProcessingBackend::Vulkan,
        c == InitCapability::HardwareDecode ==> res.selected.decode != MediaImplementation::Hardware,
        c == InitCapability::HardwareEncode ==> res.selected.encode != MediaImplementation::Hardware,
{
    lemma_best_is_cheapest_legal(32, after, req, out, policy);
    lemma_marked_fact_unavailable(c, before, after, req, out, reason);
    let b = best_upto(32, after, req, out, policy)->0;
    let cand = candidate_at(b);
    assert(plan_matches(res.selected, cand, after, out));
    let vaapi = if cand.decode == MediaImplementation::Hardware || cand.encode == MediaImplementation::Hardware {
        req_text("VAAPI device"@, after.media.vaapi_device@)
    } else {
        Seq::empty()
    };
    let total = reasons_spec(cand, after, req, out, policy);
    assert(total == vaapi + decode_reasons(cand, after, req) + encode_reasons(cand, after, out)
        + backend_reasons(cand, after, policy) + interop_reasons(cand, after, req, out));
    assert(total.len() == 0);
    if c == InitCapability::InputInterop && cand.input_interop {
        assert(interop_reasons(cand, after, req, out).len() > 0);
    }
    if c == InitCapability::OutputInterop && cand.output_interop {
        assert(interop_reasons(cand, after, req, out).len() > 0);
    }
    if c == InitCapability::Vulkan && cand.backend == ProcessingBackend::Vulkan {
        assert(backend_reasons(cand, after, policy).len() > 0);
    }
    if c == InitCapability::HardwareDecode && cand.decode == MediaImplementation::Hardware {
        assert(decode_reasons(cand, after, req).len() > 0);
    }
    if c == InitCapability::HardwareEncode && cand.encode == MediaImplementation::Hardware {
        assert(encode_reasons(cand, after, out).len() > 0);
    }
}

/// The capability creating the plan's decoder depends on.
pub open spec fn decode_capability_spec(plan: PipelinePlan) -> InitCapability {
    match plan.decode {
        MediaImplementation::Software => InitCapability::SoftwareDecode,
        MediaImplementation::Hardware => InitCapability::HardwareDecode,
    }
}

/// The capability creating the plan's encoder depends on.
pub open spec fn encode_capability_spec(plan: PipelinePlan) -> InitCapability {
    match plan.encode {
        MediaImplementation::Software => InitCapability::SoftwareEncode,
        MediaImplementation::Hardware => InitCapability::HardwareEncode,
    }
}

/// The capability a failed decoder creation blames.
pub fn decode_capability(plan: &PipelinePlan) -> (c: InitCapability)
    ensures
        c == decode_capability_spec(*plan),
{
    match plan.decode {
        MediaImplementation::Software => InitCapability::SoftwareDecode,
        MediaImplementation::Hardware => InitCapability::HardwareDecode,
    }
}

/// The capability a failed encoder creation blames: the muxer when the
/// failure was staged as mux initialization, otherwise the encoder.
pub fn encoder_failure_capability(plan: &PipelinePlan, stage: Option<PipelineStage>) -> (c: InitCapability)
    ensures
        c == (if stage == Some(PipelineStage::MuxInitialization) { InitCapability::Muxer } else { encode_capability_spec(*plan) }),
{
    if stage == Some(PipelineStage::MuxInitialization) {
        InitCapability::Muxer
    } else {
        match plan.encode {
            MediaImplementation::Software => InitCapability::SoftwareEncode,
            MediaImplementation::Hardware => InitCapability::HardwareEncode,
        }
    }
}

/// The checkpoints building a plan passes, in order: decoder, Vulkan
/// processor, encoder and muxer, the VAAPI frames pool of a hardware
/// encoder, then the interop steps the processor needs.
pub open spec fn initialization_points_spec(plan: PipelinePlan) -> Seq<InitializationPoint> {
    let vulkan = plan.backend == ProcessingBackend::Vulkan;
    seq![InitializationPoint::DecoderCreate]
        + (if vulkan { seq![InitializationPoint::VulkanProcessorCreate] } else { Seq::empty() })
        + seq![InitializationPoint::EncoderCreate, InitializationPoint::MuxerCreate]
        + (if plan.encode == MediaImplementation::Hardware { seq![InitializationPoint::VaapiFramesPoolCreate] } else { Seq::empty() })
        + (if vulkan && plan.hardware_input_interop {
            seq![InitializationPoint::InputDrmPrimeMap, InitializationPoint::InputDmaBufImport]
        } else {
            Seq::empty()
        })
        + (if vulkan && plan.hardware_output_interop {
            seq![InitializationPoint::OutputVaapiFrameAcquire, InitializationPoint::OutputDrmPrimeMap,
                InitializationPoint::OutputDmaBufImport]
        } else {
            Seq::empty()
        })
}

/// Lists the checkpoints building `plan` passes.
pub fn initialization_points(plan: &PipelinePlan) -> (v: Vec<InitializationPoint>)
    ensures
        v@ == initialization_points_spec(*plan),
{
    let vulkan = plan.backend == ProcessingBackend::Vulkan;
    let mut v: Vec<InitializationPoint> = Vec::new();
    v.push(InitializationPoint::DecoderCreate);
    if vulkan {
        v.push(InitializationPoint::VulkanProcessorCreate);
    }
    v.push(InitializationPoint::EncoderCreate);
    v.push(InitializationPoint::MuxerCreate);
    if plan.encode == MediaImplementation::Hardware {
        v.push(InitializationPoint::VaapiFramesPoolCreate);
    }
    if vulkan && plan.hardware_input_interop {
        v.push(InitializationPoint::InputDrmPrimeMap);
        v.push(InitializationPoint::InputDmaBufImport);
    }
    if vulkan && plan.hardware_output_interop {
        v.push(InitializationPoint::OutputVaapiFrameAcquire);
        v.push(InitializationPoint::OutputDrmPrimeMap);
        v.push(InitializationPoint::OutputDmaBufImport);
    }
    proof {
        assert(v@ =~= initialization_points_spec(*plan));
    }
    v
}

/// Which frame processor runs a plan.
#[derive(Clone, Copy, Debug, PartialEq, Eq, Structural)]
pub enum ProcessorKind {
    /// VAAPI surfaces in, encoder surfaces out, all on the GPU.
    FullInterop,
    /// Host frames in, encoder surfaces out.
    OutputInterop,
    /// VAAPI surfaces in, host frames out.
    InputInterop,
    /// CPU cell mapping with Vulkan rendering (a diagnostic).
    HybridCpuMapping,
    /// Vulkan mapping and rendering, one frame in flight.
    Gpu,
    /// Vulkan mapping and rendering, two frames in flight.
    PipelinedGpu,
    /// The CPU backend.
    Cpu,
}

/// The processor a plan runs on, as the verbose report names it.
#[derive(Clone, Copy, Debug, PartialEq, Eq)]
pub struct ProcessorLayout {
    pub kind: ProcessorKind,
    pub mapping_strategy: Option<&'static str>,
    pub gpu_slots: Option<usize>,
}

/// The processor for a plan, the diagnostic mapping option and the slot
/// setting: interop processors need the two-slot configuration; plain
/// Vulkan runs one or two slots as configured, or maps on the CPU when asked.
pub open spec fn processor_layout_spec(
    plan: PipelinePlan,
    mapping: VulkanMappingArg,
    slots: Option<&str>,
) -> core::result::Result<(ProcessorKind, Option<Seq<char>>, Option<usize>), (InitCapability, Seq<char>)> {
    let two = vulkan_slot_outcome(slots);
    if plan.backend != ProcessingBackend::Vulkan {
        Ok((ProcessorKind::Cpu, None, None))
    } else if plan.hardware_output_interop || plan.hardware_input_interop {
        let path = if plan.hardware_output_interop && plan.hardware_input_interop {
            "full interop"@
        } else if plan.hardware_output_interop {
            "output interop"@
        } else {
            "input interop"@
        };
        match two {
            Err(m) => Err((InitCapability::Configuration, m)),
            Ok(n) => if n != 2 {
                Err((InitCapability::Configuration, two_slot_message(path)))
            } else if plan.hardware_output_interop && plan.hardware_input_interop {
                Ok((ProcessorKind::FullInterop, Some("GPU + DMA-BUF input/output"@), Some(2usize)))
            } else if plan.hardware_output_interop {
                Ok((ProcessorKind::OutputInterop, Some("Host input + DMA-BUF output"@), Some(2usize)))
            } else {
                Ok((ProcessorKind::InputInterop, Some("GPU + DMA-BUF input"@), Some(2usize)))
            },
        }
    } else if mapping == VulkanMappingArg::Cpu {
        Ok((ProcessorKind::HybridCpuMapping, Some("CPU"@), Some(1usize)))
    } else {
        match two {
            Err(m) => Err((InitCapability::Configuration, m)),
            Ok(n) => if n == 1 {
                Ok((ProcessorKind::Gpu, Some("GPU"@), Some(1usize)))
            } else {
                Ok((ProcessorKind::PipelinedGpu, Some("GPU"@), Some(2usize)))
            },
        }
    }
}

pub open spec fn layout_view(l: ProcessorLayout) -> (ProcessorKind, Option<Seq<char>>, Option<usize>) {
    (l.kind, match l.mapping_strategy { Some(s) => Some(s@), None => None }, l.gpu_slots)
}

/// Chooses the frame processor for a plan.
pub fn processor_layout(plan: &PipelinePlan, mapping: VulkanMappingArg, slots: Option<&str>) -> (r: core::result::Result<ProcessorLayout, InitializationFailure>)
    ensures
        match processor_layout_spec(*plan, mapping, slots) {
            Ok(v) => r matches Ok(l) && layout_view(l) == v,
            Err((c, m)) => r matches Err(f) && f.capability == c && f.source@ == m,
        },
{
    proof {
        reveal_strlit("full interop");
        reveal_strlit("output interop");
        reveal_strlit("input interop");
        reveal_strlit("GPU + DMA-BUF input/output");
        reveal_strlit("Host input + DMA-BUF output");
        reveal_strlit("GPU + DMA-BUF input");
        reveal_strlit("CPU");
        reveal_strlit("GPU");
    }
    if plan.backend != ProcessingBackend::Vulkan {
        return Ok(ProcessorLayout { kind: ProcessorKind::Cpu, mapping_strategy: None, gpu_slots: None });
    }
    if plan.hardware_output_interop && plan.hardware_input_interop {
        match require_two_slots("full interop", slots) {
            Ok(()) => {},
            Err(f) => return Err(f),
        }
        return Ok(ProcessorLayout {
            kind: ProcessorKind::FullInterop,
            mapping_strategy: Some("GPU + DMA-BUF input/output"),
            gpu_slots: Some(2),
        });
    }
    if plan.hardware_output_interop {
        match require_two_slots("output interop", slots) {
            Ok(()) => {},
            Err(f) => return Err(f),
        }
        return Ok(ProcessorLayout {
            kind: ProcessorKind::OutputInterop,
            mapping_strategy: Some("Host input + DMA-BUF output"),
            gpu_slots: Some(2),
        });
    }
    if plan.hardware_input_interop {
        match require_two_slots("input interop", slots) {
            Ok(()) => {},
            Err(f) => return Err(f),
        }
        return Ok(ProcessorLayout {
            kind: ProcessorKind::InputInterop,
            mapping_strategy: Some("GPU + DMA-BUF input"),
            gpu_slots: Some(2),
        });
    }
    if mapping == VulkanMappingArg::Cpu {
        return Ok(ProcessorLayout { kind: ProcessorKind::HybridCpuMapping, mapping_strategy: Some("CPU"), gpu_slots: Some(1) });
    }
    match vulkan_frame_slots(slots) {
        Err(error) => Err(InitializationFailure::new(InitCapability::Configuration, error)),
        Ok(n) => {
            if n == 1 {
                Ok(ProcessorLayout { kind: ProcessorKind::Gpu, mapping_strategy: Some("GPU"), gpu_slots: Some(1) })
            } else {
                Ok(ProcessorLayout { kind: ProcessorKind::PipelinedGpu, mapping_strategy: Some("GPU"), gpu_slots: Some(2) })
            }
        },
    }
}

} // verus!
