//! Deterministic capability-probe failures, for exercising degraded planning.

use vstd::prelude::*;
use crate::planner::caps::{CapabilitySnapshot, CapabilitySupport, Fact, InteropCapabilities, MediaCapabilities};
use crate::text::cat;
use crate::config::ProcessingBackend;
use crate::planner::planning::{lemma_best_is_cheapest_legal, select_outcome};
use crate::planner::policy::{MediaImplementation, PipelinePolicy, PlanningResult};
use crate::planner::requirements::{input_for_requirements_spec, output_for_requirements_spec, InputRequirements, OutputVideoRequirements};
use crate::planner::select::{
    backend_reasons, best_upto, candidate_at, decode_reasons, encode_reasons, interop_reasons,
    plan_matches, reasons_spec, req_text, select_precheck,
};

verus! {

/// A probe that can be made to fail.
#[derive(Clone, Copy, Debug, PartialEq, Eq, Structural)]
pub enum ProbeFaultPoint {
    VaapiDevice,
    VulkanLoader,
    InputInteropQualification,
    OutputInteropQualification,
}

/// The reason recorded for a probe made to fail at `operation`.
pub open spec fn injected_probe_text(operation: Seq<char>) -> Seq<char> {
    "injected capability probe failure: "@ + operation
}

/// Every interop fact is `NotProbed(reason)`.
pub open spec fn interop_not_probed(i: InteropCapabilities, reason: Seq<char>) -> bool {
    &&& i.input@ == Fact::NotProbed(reason)
    &&& i.hevc_input@ == Fact::NotProbed(reason)
    &&& i.av1_input@ == Fact::NotProbed(reason)
    &&& i.output@ == Fact::NotProbed(reason)
    &&& i.hevc_output@ == Fact::NotProbed(reason)
    &&& i.av1_output@ == Fact::NotProbed(reason)
    &&& i.p010_input@ == Fact::NotProbed(reason)
    &&& i.p010_output@ == Fact::NotProbed(reason)
    &&& i.av1_p010_output@ == Fact::NotProbed(reason)
}

/// Every VAAPI-dependent media fact is `NotProbed(reason)`.
pub open spec fn vaapi_media_not_probed(m: MediaCapabilities, reason: Seq<char>) -> bool {
    &&& m.h264_vaapi_decode@ == Fact::NotProbed(reason)
    &&& m.hevc_vaapi_decode@ == Fact::NotProbed(reason)
    &&& m.hevc_main10_vaapi_decode@ == Fact::NotProbed(reason)
    &&& m.av1_10bit_vaapi_decode@ == Fact::NotProbed(reason)
    &&& m.av1_vaapi_decode@ == Fact::NotProbed(reason)
    &&& m.h264_vaapi_encode@ == Fact::NotProbed(reason)
    &&& m.hevc_vaapi_encode@ == Fact::NotProbed(reason)
    &&& m.hevc_main10_vaapi_encode@ == Fact::NotProbed(reason)
    &&& m.av1_vaapi_encode@ == Fact::NotProbed(reason)
    &&& m.av1_10bit_vaapi_encode@ == Fact::NotProbed(reason)
    &&& m.nv12_hardware_frames@ == Fact::NotProbed(reason)
    &&& m.nv12_hardware_upload@ == Fact::NotProbed(reason)
    &&& m.p010_hardware_frames@ == Fact::NotProbed(reason)
    &&& m.p010_hardware_upload@ == Fact::NotProbed(reason)
}

/// The snapshot after probe `point` was made to fail: the failed probe is
/// unsupported, what depends on it was not probed, the rest is unchanged.
pub open spec fn probe_failed(point: ProbeFaultPoint, before: CapabilitySnapshot, after: CapabilitySnapshot) -> bool {
    match point {
        ProbeFaultPoint::VaapiDevice => {
            &&& after.processing == before.processing
            &&& after.media.software_decode == before.media.software_decode
            &&& after.media.software_encode == before.media.software_encode
            &&& after.media.vaapi_device@ == Fact::Unsupported(injected_probe_text("open VAAPI device"@))
            &&& vaapi_media_not_probed(after.media, "VAAPI device probe failed"@)
            &&& interop_not_probed(after.interop, "VAAPI device probe failed"@)
        },
        ProbeFaultPoint::VulkanLoader => {
            &&& after.media == before.media
            &&& after.processing.cpu == before.processing.cpu
            &&& after.processing.vulkan@ == Fact::Unsupported(injected_probe_text("load Vulkan"@))
            &&& !after.processing.vulkan_auto_eligible
            &&& after.processing.vulkan_device_name is None
            &&& after.processing.vulkan_device_kind is None
            &&& after.processing.compute_queue@ == Fact::NotProbed("injected Vulkan loader failure"@)
            &&& after.processing.storage_buffer_8bit@ == Fact::NotProbed("injected Vulkan loader failure"@)
            &&& after.processing.shader_int64@ == Fact::NotProbed("injected Vulkan loader failure"@)
            &&& after.processing.synchronization2@ == Fact::NotProbed("injected Vulkan loader failure"@)
            &&& interop_not_probed(after.interop, "injected Vulkan loader failure"@)
        },
        ProbeFaultPoint::InputInteropQualification => {
            &&& after == (CapabilitySnapshot {
                interop: InteropCapabilities { input: after.interop.input, ..before.interop },
                ..before
            })
            &&& after.interop.input@ == Fact::Unsupported(injected_probe_text("qualify input DMA-BUF import"@))
        },
        ProbeFaultPoint::OutputInteropQualification => {
            &&& after == (CapabilitySnapshot {
                interop: InteropCapabilities {
                    output: after.interop.output,
                    hevc_output: after.interop.hevc_output,
                    av1_output: after.interop.av1_output,
                    p010_output: after.interop.p010_output,
                    av1_p010_output: after.interop.av1_p010_output,
                    ..before.interop
                },
                ..before
            })
            &&& after.interop.output@ == Fact::Unsupported(injected_probe_text("qualify output DMA-BUF import"@))
            &&& after.interop.hevc_output@ == Fact::Unsupported(injected_probe_text("qualify output DMA-BUF import"@))
            &&& after.interop.av1_output@ == Fact::Unsupported(injected_probe_text("qualify output DMA-BUF import"@))
            &&& after.interop.p010_output@ == Fact::Unsupported(injected_probe_text("qualify P010 output DMA-BUF import"@))
            &&& after.interop.av1_p010_output@ == Fact::Unsupported(injected_probe_text("qualify P010 output DMA-BUF import"@))
        },
    }
}

fn injected(operation: &str) -> (s: CapabilitySupport)
    ensures
        s@ == Fact::Unsupported(injected_probe_text(operation@)),
{
    proof { reveal_strlit("injected capability probe failure: "); }
    let reason = cat("injected capability probe failure: ", operation);
    CapabilitySupport::Unsupported(reason)
}

fn all_not_probed(interop: &mut InteropCapabilities, reason: &str)
    ensures
        interop_not_probed(*final(interop), reason@),
{
    interop.input = CapabilitySupport::not_probed(reason);
    interop.hevc_input = CapabilitySupport::not_probed(reason);
    interop.av1_input = CapabilitySupport::not_probed(reason);
    interop.output = CapabilitySupport::not_probed(reason);
    interop.hevc_output = CapabilitySupport::not_probed(reason);
    interop.av1_output = CapabilitySupport::not_probed(reason);
    interop.p010_input = CapabilitySupport::not_probed(reason);
    interop.p010_output = CapabilitySupport::not_probed(reason);
    interop.av1_p010_output = CapabilitySupport::not_probed(reason);
}

/// Makes the probe at `point` look as if it had failed.
pub fn inject_probe_failure(snapshot: &mut CapabilitySnapshot, point: ProbeFaultPoint)
    ensures
        probe_failed(point, *old(snapshot), *final(snapshot)),
{
    proof {
        reveal_strlit("open VAAPI device");
        reveal_strlit("VAAPI device probe failed");
        reveal_strlit("load Vulkan");
        reveal_strlit("injected Vulkan loader failure");
        reveal_strlit("qualify input DMA-BUF import");
        reveal_strlit("qualify output DMA-BUF import");
        reveal_strlit("qualify P010 output DMA-BUF import");
    }
    match point {
        ProbeFaultPoint::VaapiDevice => {
            let reason = "VAAPI device probe failed";
            snapshot.media.vaapi_device = injected("open VAAPI device");
            snapshot.media.h264_vaapi_decode = CapabilitySupport::not_probed(reason);
            snapshot.media.hevc_vaapi_decode = CapabilitySupport::not_probed(reason);
            snapshot.media.hevc_main10_vaapi_decode = CapabilitySupport::not_probed(reason);
            snapshot.media.av1_10bit_vaapi_decode = CapabilitySupport::not_probed(reason);
            snapshot.media.av1_vaapi_decode = CapabilitySupport::not_probed(reason);
            snapshot.media.h264_vaapi_encode = CapabilitySupport::not_probed(reason);
            snapshot.media.hevc_vaapi_encode = CapabilitySupport::not_probed(reason);
            snapshot.media.hevc_main10_vaapi_encode = CapabilitySupport::not_probed(reason);
            snapshot.media.av1_vaapi_encode = CapabilitySupport::not_probed(reason);
            snapshot.media.av1_10bit_vaapi_encode = CapabilitySupport::not_probed(reason);
            snapshot.media.nv12_hardware_frames = CapabilitySupport::not_probed(reason);
            snapshot.media.nv12_hardware_upload = CapabilitySupport::not_probed(reason);
            snapshot.media.p010_hardware_frames = CapabilitySupport::not_probed(reason);
            snapshot.media.p010_hardware_upload = CapabilitySupport::not_probed(reason);
            all_not_probed(&mut snapshot.interop, reason);
        },
        ProbeFaultPoint::VulkanLoader => {
            let reason = "injected Vulkan loader failure";
            snapshot.processing.vulkan = injected("load Vulkan");
            snapshot.processing.vulkan_auto_eligible = false;
            snapshot.processing.vulkan_device_name = None;
            snapshot.processing.vulkan_device_kind = None;
            snapshot.processing.compute_queue = CapabilitySupport::not_probed(reason);
            snapshot.processing.storage_buffer_8bit = CapabilitySupport::not_probed(reason);
            snapshot.processing.shader_int64 = CapabilitySupport::not_probed(reason);
            snapshot.processing.synchronization2 = CapabilitySupport::not_probed(reason);
            all_not_probed(&mut snapshot.interop, reason);
        },
        ProbeFaultPoint::InputInteropQualification => {
            snapshot.interop.input = injected("qualify input DMA-BUF import");
        },
        ProbeFaultPoint::OutputInteropQualification => {
            snapshot.interop.output = injected("qualify output DMA-BUF import");
            snapshot.interop.hevc_output = injected("qualify output DMA-BUF import");
            snapshot.interop.av1_output = injected("qualify output DMA-BUF import");
            snapshot.interop.p010_output = injected("qualify P010 output DMA-BUF import");
            snapshot.interop.av1_p010_output = injected("qualify P010 output DMA-BUF import");
        },
    }
}

/// A plan chosen after a probe was made to fail never relies on it: without
/// a VAAPI device both media stages run in software, without a Vulkan
/// loader processing runs on the CPU, and without qualified interop the
/// plan stages frames through host memory. (The input-interop probe covers
/// 8-bit H.264 input only, so that case is stated for such input.)
pub proof fn lemma_failed_probe_is_avoided(
    point: ProbeFaultPoint,
    before: CapabilitySnapshot,
    after: CapabilitySnapshot,
    req: InputRequirements,
    out: OutputVideoRequirements,
    policy: PipelinePolicy,
    res: PlanningResult,
)
    requires
        probe_failed(point, before, after),
        select_precheck(after, req, policy) == Ok::<OutputVideoRequirements, (bool, Seq<char>)>(out),
        select_outcome(Ok(res), after, req, policy),
        point == ProbeFaultPoint::InputInteropQualification ==> req.codec is H264 && req.bit_depth != Some(10u8),
    ensures
        point == ProbeFaultPoint::VaapiDevice ==> res.selected.decode != MediaImplementation::Hardware
            && res.selected.encode != MediaImplementation::Hardware,
        point == ProbeFaultPoint::VulkanLoader ==> res.selected.backend != ProcessingBackend::Vulkan,
        point == ProbeFaultPoint::InputInteropQualification ==> !res.selected.hardware_input_interop,
        point == ProbeFaultPoint::OutputInteropQualification ==> !res.selected.hardware_output_interop,
{
    lemma_best_is_cheapest_legal(32, after, req, out, policy);
    let b = best_upto(32, after, req, out, policy)->0;
    let cand = candidate_at(b);
    assert(plan_matches(res.selected, cand, after, out));
    let vaapi = if cand.decode == MediaImplementation::Hardware || cand.encode == MediaImplementation::Hardware {
        req_text("VAAPI device"@, after.media.vaapi_device@)
    } else {
        Seq::empty()
    };
    let total = reasons_spec(cand, after, req, out, policy);
    assert(total == vaapi + decode_reasons(cand, after, req) + encode_reasons(cand, after, out)
        + backend_reasons(cand, after, policy) + interop_reasons(cand, after, req, out));
    assert(total.len() == 0);
    if point == ProbeFaultPoint::VaapiDevice && (cand.decode == MediaImplementation::Hardware
        || cand.encode == MediaImplementation::Hardware) {
        assert(vaapi.len() > 0);
    }
    if point == ProbeFaultPoint::VulkanLoader && cand.backend == ProcessingBackend::Vulkan {
        assert(backend_reasons(cand, after, policy).len() > 0);
    }
    if point == ProbeFaultPoint::InputInteropQualification && cand.input_interop {
        assert(input_for_requirements_spec(after.interop, req) == after.interop.input@);
        assert(interop_reasons(cand, after, req, out).len() > 0);
    }
    if point == ProbeFaultPoint::OutputInteropQualification && cand.output_interop {
        assert(!(output_for_requirements_spec(after.interop, out) is Supported));
        assert(interop_reasons(cand, after, req, out).len() > 0);
    }
}

} // verus!
