//! Decode-and-process planning for internal 10-bit qualification.
//! There is deliberately no encode node: no production output comes of it.

use vstd::prelude::*;
use crate::config::ProcessingBackend;
use crate::error::{Error, Result};
use crate::frame::PixelFormat;
use crate::debug::str_debug_text;
use crate::debug::str_debug;
use crate::planner::caps::{CapabilitySupport, Fact, VideoCodec, VideoProfile};
use crate::planner::requirements::{InputRequirements, matches_outcome, processing_input_spec};
use crate::planner::policy::{InteropRequest, MediaImplementation, MediaRequest, PixelPath};
use crate::text::cat;

verus! {

/// 10-bit decode, input interop and P010 processing facts.
#[derive(Clone, Debug, PartialEq, Eq)]
pub struct InputProcessingCapabilities {
    pub hevc_main10_vaapi_decode: CapabilitySupport,
    pub av1_main10_vaapi_decode: CapabilitySupport,
    pub hevc_main10_input_interop: CapabilitySupport,
    pub av1_main10_input_interop: CapabilitySupport,
    pub vulkan_p010: CapabilitySupport,
}

/// Which qualified 10-bit input this is: HEVC Main10 (`Some(true)`),
/// 10-bit AV1 Main (`Some(false)`), or neither.
pub open spec fn qualified_kind(input: InputRequirements) -> Option<bool> {
    if input.bit_depth != Some(10u8) {
        None
    } else {
        match (input.codec, input.profile) {
            (VideoCodec::Hevc, Some(VideoProfile::HevcMain10)) => Some(true),
            (VideoCodec::Av1, Some(VideoProfile::Av1Main)) => Some(false),
            _ => None,
        }
    }
}

pub open spec fn unqualified_reason() -> Seq<char> {
    "input is outside HEVC Main10 / AV1 Main 10-bit qualification"@
}

pub open spec fn decode_fact(c: InputProcessingCapabilities, input: InputRequirements) -> Fact {
    match qualified_kind(input) {
        Some(true) => c.hevc_main10_vaapi_decode@,
        Some(false) => c.av1_main10_vaapi_decode@,
        None => Fact::NotProbed(unqualified_reason()),
    }
}

pub open spec fn interop_fact(c: InputProcessingCapabilities, input: InputRequirements) -> Fact {
    match qualified_kind(input) {
        Some(true) => c.hevc_main10_input_interop@,
        Some(false) => c.av1_main10_input_interop@,
        None => Fact::NotProbed(unqualified_reason()),
    }
}

/// `Debug` text of a capability fact.
pub open spec fn fact_debug_text(f: Fact) -> Seq<char> {
    match f {
        Fact::Supported => "Supported"@,
        Fact::Unsupported(r) => "Unsupported("@ + str_debug_text(r) + ")"@,
        Fact::NotProbed(r) => "NotProbed("@ + str_debug_text(r) + ")"@,
    }
}

/// `Debug` formatting of a capability fact.
pub fn capability_debug(c: &CapabilitySupport) -> (s: String)
    ensures
        s@ == fact_debug_text(c@),
{
    proof {
        reveal_strlit("Supported");
        reveal_strlit("Unsupported(");
        reveal_strlit("NotProbed(");
        reveal_strlit(")");
    }
    match c {
        CapabilitySupport::Supported => String::from_str("Supported"),
        CapabilitySupport::Unsupported(r) => {
            let inner = str_debug(r.as_str());
            let mut s = cat("Unsupported(", inner.as_str());
            s.append(")");
            s
        },
        CapabilitySupport::NotProbed(r) => {
            let inner = str_debug(r.as_str());
            let mut s = cat("NotProbed(", inner.as_str());
            s.append(")");
            s
        },
    }
}

fn kind_of(input: &InputRequirements) -> (k: Option<bool>)
    ensures
        k == qualified_kind(*input),
{
    if input.bit_depth != Some(10u8) {
        return None;
    }
    match (&input.codec, &input.profile) {
        (VideoCodec::Hevc, Some(VideoProfile::HevcMain10)) => Some(true),
        (VideoCodec::Av1, Some(VideoProfile::Av1Main)) => Some(false),
        _ => None,
    }
}

fn unqualified() -> (s: CapabilitySupport)
    ensures
        s@ == Fact::NotProbed(unqualified_reason()),
{
    CapabilitySupport::not_probed("input is outside HEVC Main10 / AV1 Main 10-bit qualification")
}

impl InputProcessingCapabilities {
    /// VAAPI decode fact for this input.
    pub fn decode_for(&self, input: &InputRequirements) -> (s: CapabilitySupport)
        ensures
            s@ == decode_fact(*self, *input),
    {
        match kind_of(input) {
            Some(true) => self.hevc_main10_vaapi_decode.copied(),
            Some(false) => self.av1_main10_vaapi_decode.copied(),
            None => unqualified(),
        }
    }

    /// Input interop fact for this input.
    pub fn interop_for(&self, input: &InputRequirements) -> (s: CapabilitySupport)
        ensures
            s@ == interop_fact(*self, *input),
    {
        match kind_of(input) {
            Some(true) => self.hevc_main10_input_interop.copied(),
            Some(false) => self.av1_main10_input_interop.copied(),
            None => unqualified(),
        }
    }

    /// Marks this input's decode unsupported; nothing else changes.
    pub fn disable_decode(&mut self, input: &InputRequirements, reason: &str)
        ensures
            qualified_kind(*input) == Some(true) ==> final(self).hevc_main10_vaapi_decode@ == Fact::Unsupported(reason@)
                && final(self).av1_main10_vaapi_decode == old(self).av1_main10_vaapi_decode,
            qualified_kind(*input) == Some(false) ==> final(self).av1_main10_vaapi_decode@ == Fact::Unsupported(reason@)
                && final(self).hevc_main10_vaapi_decode == old(self).hevc_main10_vaapi_decode,
            qualified_kind(*input) is None ==> *final(self) == *old(self),
            final(self).hevc_main10_input_interop == old(self).hevc_main10_input_interop,
            final(self).av1_main10_input_interop == old(self).av1_main10_input_interop,
            final(self).vulkan_p010 == old(self).vulkan_p010,
    {
        match kind_of(input) {
            Some(true) => self.hevc_main10_vaapi_decode = CapabilitySupport::unsupported(reason),
            Some(false) => self.av1_main10_vaapi_decode = CapabilitySupport::unsupported(reason),
            None => {},
        }
    }

    /// Marks this input's interop unsupported; nothing else changes.
    pub fn disable_interop(&mut self, input: &InputRequirements, reason: &str)
        ensures
            qualified_kind(*input) == Some(true) ==> final(self).hevc_main10_input_interop@ == Fact::Unsupported(reason@)
                && final(self).av1_main10_input_interop == old(self).av1_main10_input_interop,
            qualified_kind(*input) == Some(false) ==> final(self).av1_main10_input_interop@ == Fact::Unsupported(reason@)
                && final(self).hevc_main10_input_interop == old(self).hevc_main10_input_interop,
            qualified_kind(*input) is None ==> *final(self) == *old(self),
            final(self).hevc_main10_vaapi_decode == old(self).hevc_main10_vaapi_decode,
            final(self).av1_main10_vaapi_decode == old(self).av1_main10_vaapi_decode,
            final(self).vulkan_p010 == old(self).vulkan_p010,
    {
        match kind_of(input) {
            Some(true) => self.hevc_main10_input_interop = CapabilitySupport::unsupported(reason),
            Some(false) => self.av1_main10_input_interop = CapabilitySupport::unsupported(reason),
            None => {},
        }
    }
}

/// Decode, backend and interop requests for qualification.
#[derive(Clone, Copy, Debug, PartialEq, Eq, Structural)]
pub struct InputProcessingPolicy {
    pub decode: MediaRequest,
    pub backend: ProcessingBackend,
    pub input_interop: InteropRequest,
}

impl Default for InputProcessingPolicy {
    fn default() -> (p: Self)
        ensures
            p == (InputProcessingPolicy {
                decode: MediaRequest::Auto,
                backend: ProcessingBackend::Auto,
                input_interop: InteropRequest::Auto,
            }),
    {
        InputProcessingPolicy {
            decode: MediaRequest::Auto,
            backend: ProcessingBackend::Auto,
            input_interop: InteropRequest::Auto,
        }
    }
}

/// Where P010 pixels live at a step.
#[derive(Clone, Copy, Debug, PartialEq, Eq, Structural)]
pub enum InputProcessingDomain {
    HostP010,
    HardwareP010,
    VulkanP010Buffer,
}

/// A decode-and-process plan.
#[derive(Clone, Copy, Debug, PartialEq, Eq, Structural)]
pub struct InputProcessingPlan {
    pub format: PixelFormat,
    pub decode: MediaImplementation,
    pub decoded_domain: InputProcessingDomain,
    pub backend: ProcessingBackend,
    pub processing_domain: InputProcessingDomain,
    pub output_domain: InputProcessingDomain,
    pub input_interop: bool,
    pub hardware_download: bool,
    pub pixel_path: PixelPath,
}

/// Chooses the 10-bit decode and processing path.
pub struct InputProcessingPlanner;

/// The plan once every check has passed.
pub open spec fn qualification_plan(
    c: InputProcessingCapabilities,
    input: InputRequirements,
    policy: InputProcessingPolicy,
) -> InputProcessingPlan {
    let vulkan = c.vulkan_p010@ is Supported;
    let decode = decode_fact(c, input) is Supported;
    let interop = interop_fact(c, input) is Supported;
    let backend = if policy.backend == ProcessingBackend::Auto {
        if vulkan { ProcessingBackend::Vulkan } else { ProcessingBackend::Cpu }
    } else {
        policy.backend
    };
    let full_interop = backend == ProcessingBackend::Vulkan && policy.decode != MediaRequest::Software
        && policy.input_interop != InteropRequest::Off && decode && interop;
    let use_hardware = full_interop || policy.decode == MediaRequest::Hardware;
    InputProcessingPlan {
        format: PixelFormat::P010Le,
        decode: if use_hardware { MediaImplementation::Hardware } else { MediaImplementation::Software },
        decoded_domain: if use_hardware { InputProcessingDomain::HardwareP010 } else { InputProcessingDomain::HostP010 },
        backend,
        processing_domain: if backend == ProcessingBackend::Vulkan {
            InputProcessingDomain::VulkanP010Buffer
        } else {
            InputProcessingDomain::HostP010
        },
        output_domain: InputProcessingDomain::HostP010,
        input_interop: full_interop,
        hardware_download: use_hardware && !full_interop,
        pixel_path: if full_interop {
            PixelPath::GpuResident
        } else if backend == ProcessingBackend::Vulkan {
            PixelPath::PartiallyStaged
        } else {
            PixelPath::Host
        },
    }
}

/// Outcome of qualification planning: the plan, or an error that is
/// `InvalidConfig` (`true`) or `UnsupportedFrame` (`false`).
pub open spec fn qualification_spec(
    c: InputProcessingCapabilities,
    input: InputRequirements,
    policy: InputProcessingPolicy,
) -> core::result::Result<InputProcessingPlan, (bool, Seq<char>)> {
    let vulkan = c.vulkan_p010@ is Supported;
    let decode = decode_fact(c, input) is Supported;
    let interop = interop_fact(c, input) is Supported;
    match processing_input_spec(input) {
        Err(m) => Err((false, m)),
        Ok(f) => if f != PixelFormat::P010Le {
            Err((true, "input processing qualification requires P010LE"@))
        } else if policy.input_interop == InteropRequest::On && (policy.backend == ProcessingBackend::Cpu
            || policy.decode == MediaRequest::Software) {
            Err((true, "explicit input interop requires VAAPI decode and Vulkan processing"@))
        } else if policy.backend == ProcessingBackend::Vulkan && !vulkan {
            Err((true, "P010 Vulkan processing unavailable: "@ + fact_debug_text(c.vulkan_p010@)))
        } else if policy.decode == MediaRequest::Hardware && !decode {
            Err((true, "10-bit VAAPI decode unavailable: "@ + fact_debug_text(decode_fact(c, input))))
        } else if policy.input_interop == InteropRequest::On && (!decode || !interop || !vulkan) {
            Err((true, "explicit P010 input interop unavailable: "@ + fact_debug_text(interop_fact(c, input))))
        } else {
            Ok(qualification_plan(c, input, policy))
        },
    }
}

fn invalid_plan(prefix: &str, fact: &CapabilitySupport) -> (r: Result<InputProcessingPlan>)
    ensures
        matches_outcome(r, Err((true, prefix@ + fact_debug_text(fact@)))),
{
    let d = capability_debug(fact);
    Err(Error::InvalidConfig(cat(prefix, d.as_str())))
}

impl InputProcessingPlanner {
    /// Plans 10-bit decode and processing: explicit requests are honoured or
    /// refused, never silently downgraded; `Auto` prefers the GPU-resident path.
    pub fn select(
        capabilities: &InputProcessingCapabilities,
        input: &InputRequirements,
        policy: InputProcessingPolicy,
    ) -> (r: Result<InputProcessingPlan>)
        ensures
            matches_outcome(r, qualification_spec(*capabilities, *input, policy)),
    {
        proof {
            reveal_strlit("input processing qualification requires P010LE");
            reveal_strlit("explicit input interop requires VAAPI decode and Vulkan processing");
            reveal_strlit("P010 Vulkan processing unavailable: ");
            reveal_strlit("10-bit VAAPI decode unavailable: ");
            reveal_strlit("explicit P010 input interop unavailable: ");
        }
        let format = match input.validate_processing_input() {
            Ok(f) => f,
            Err(e) => return Err(e),
        };
        if format != PixelFormat::P010Le {
            return Err(Error::InvalidConfig(String::from_str("input processing qualification requires P010LE")));
        }
        if policy.input_interop == InteropRequest::On
            && (policy.backend == ProcessingBackend::Cpu || policy.decode == MediaRequest::Software) {
            return Err(Error::InvalidConfig(String::from_str(
                "explicit input interop requires VAAPI decode and Vulkan processing",
            )));
        }
        let vulkan = capabilities.vulkan_p010.is_supported();
        let decode_support = capabilities.decode_for(input);
        let interop_support = capabilities.interop_for(input);
        let decode = decode_support.is_supported();
        let interop = interop_support.is_supported();
        if policy.backend == ProcessingBackend::Vulkan && !vulkan {
            return invalid_plan("P010 Vulkan processing unavailable: ", &capabilities.vulkan_p010);
        }
        if policy.decode == MediaRequest::Hardware && !decode {
            return invalid_plan("10-bit VAAPI decode unavailable: ", &decode_support);
        }
        if policy.input_interop == InteropRequest::On && (!decode || !interop || !vulkan) {
            return invalid_plan("explicit P010 input interop unavailable: ", &interop_support);
        }
        let backend = if policy.backend == ProcessingBackend::Auto {
            if vulkan { ProcessingBackend::Vulkan } else { ProcessingBackend::Cpu }
        } else {
            policy.backend
        };
        let full_interop = backend == ProcessingBackend::Vulkan && policy.decode != MediaRequest::Software
            && policy.input_interop != InteropRequest::Off && decode && interop;
        let use_hardware = full_interop || policy.decode == MediaRequest::Hardware;
        Ok(InputProcessingPlan {
            format: PixelFormat::P010Le,
            decode: if use_hardware { MediaImplementation::Hardware } else { MediaImplementation::Software },
            decoded_domain: if use_hardware {
                InputProcessingDomain::HardwareP010
            } else {
                InputProcessingDomain::HostP010
            },
            backend,
            processing_domain: if backend == ProcessingBackend::Vulkan {
                InputProcessingDomain::VulkanP010Buffer
            } else {
                InputProcessingDomain::HostP010
            },
            output_domain: InputProcessingDomain::HostP010,
            input_interop: full_interop,
            hardware_download: use_hardware && !full_interop,
            pixel_path: if full_interop {
                PixelPath::GpuResident
            } else if backend == ProcessingBackend::Vulkan {
                PixelPath::PartiallyStaged
            } else {
                PixelPath::Host
            },
        })
    }
}

/// Explicit requests are never downgraded: a successful plan uses the
/// requested backend and decoder, and interop exactly when it was required
/// or refused; it always ends in host P010 and never stages without a
/// hardware decoder.
pub proof fn lemma_qualification_honours_requests(
    c: InputProcessingCapabilities,
    input: InputRequirements,
    policy: InputProcessingPolicy,
)
    ensures
        qualification_spec(c, input, policy) matches Ok(plan) ==> {
            &&& policy.backend != ProcessingBackend::Auto ==> plan.backend == policy.backend
            &&& policy.decode == MediaRequest::Hardware ==> plan.decode == MediaImplementation::Hardware
            &&& policy.decode == MediaRequest::Software ==> plan.decode == MediaImplementation::Software
            &&& policy.input_interop == InteropRequest::On ==> plan.input_interop
            &&& policy.input_interop == InteropRequest::Off ==> !plan.input_interop
            &&& plan.input_interop ==> plan.backend == ProcessingBackend::Vulkan
                && plan.decode == MediaImplementation::Hardware
            &&& plan.hardware_download == (plan.decode == MediaImplementation::Hardware && !plan.input_interop)
            &&& plan.output_domain == InputProcessingDomain::HostP010
            &&& plan.format == PixelFormat::P010Le
        },
{
}

} // verus!
