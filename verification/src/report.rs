//! Console report lines: capability facts, the audio plan and the rejected
//! planning candidates, assembled from the library's own values. Printing
//! them is left to the caller.

use vstd::prelude::*;
use crate::audio::{AudioPlan, AudioPolicy, AudioStreamPlan, SkippedAudioStream};
use crate::planner::caps::{CapabilitySnapshot, CapabilitySupport, Fact};
use crate::planner::requirements::{input_for_requirements_spec, InputRequirements};
use crate::planner::policy::{texts, CandidateRejection, PlanningResult};
use crate::text::{cat, decimal, decimal_text, signed_decimal, signed_text};
use crate::debug::{
    codec_debug, codec_debug_text, color_space_debug, color_space_debug_text, option_profile_debug,
    option_profile_debug_text,
};
use crate::planner::requirements::{chroma_debug, chroma_debug_text};
use crate::planner::policy::{MediaImplementation, PipelinePlan};
use crate::config::ProcessingBackend;
use crate::frame::PixelFormat;

verus! {

/// `"  {label}: supported"`, or the reason a capability is unsupported or
/// was not probed.
pub open spec fn fact_text(label: Seq<char>, fact: Fact) -> Seq<char> {
    match fact {
        Fact::Supported => "  "@ + label + ": supported"@,
        Fact::Unsupported(reason) => "  "@ + label + ": unsupported ("@ + reason + ")"@,
        Fact::NotProbed(reason) => "  "@ + label + ": not probed ("@ + reason + ")"@,
    }
}

/// The report line of one capability fact.
pub fn fact_line(label: &str, fact: &CapabilitySupport) -> (s: String)
    ensures
        s@ == fact_text(label@, fact@),
{
    let mut s = cat("  ", label);
    match fact {
        CapabilitySupport::Supported => s.append(": supported"),
        CapabilitySupport::Unsupported(reason) => {
            s.append(": unsupported (");
            s.append(reason.as_str());
            s.append(")");
        },
        CapabilitySupport::NotProbed(reason) => {
            s.append(": not probed (");
            s.append(reason.as_str());
            s.append(")");
        },
    }
    s
}

/// How the audio policy is named in reports.
pub open spec fn policy_text(p: AudioPolicy) -> Seq<char> {
    match p {
        AudioPolicy::Auto => "Auto"@,
        AudioPolicy::Copy => "Copy"@,
        AudioPolicy::Disabled => "None"@,
    }
}

pub open spec fn bool_text(b: bool) -> Seq<char> {
    if b { "true"@ } else { "false"@ }
}

/// The line of a stream that will be copied.
pub open spec fn selected_stream_text(s: AudioStreamPlan) -> Seq<char> {
    "  input stream #"@ + decimal_text(s.input_index as nat) + ": "@ + s.codec@ + " · language "@
        + (match s.language { Some(l) => l@, None => "unknown"@ }) + " · default "@ + bool_text(s.default)
        + " → compressed packet copy"@
}

/// The line of a stream that is left out.
pub open spec fn skipped_stream_text(s: SkippedAudioStream) -> Seq<char> {
    "  skipped input stream #"@ + decimal_text(s.input_index as nat) + " ("@ + s.codec@ + "): "@ + s.reason@
}

/// The audio plan report: the policy, a note when nothing is copied, each
/// copied stream, then each skipped one.
pub open spec fn audio_plan_text(p: AudioPlan) -> Seq<Seq<char>> {
    seq!["Audio plan: "@ + policy_text(p.policy)]
        + (if p.selected@.len() == 0 { seq!["  no audio streams will be copied"@] } else { Seq::empty() })
        + p.selected@.map_values(|s: AudioStreamPlan| selected_stream_text(s))
        + p.skipped@.map_values(|s: SkippedAudioStream| skipped_stream_text(s))
}

proof fn lemma_texts_push(a: Seq<String>, s: String)
    ensures
        texts(a.push(s)) == texts(a).push(s@),
{
    assert(texts(a.push(s)) =~= texts(a).push(s@));
}

fn push_line(lines: &mut Vec<String>, s: String)
    ensures
        texts(final(lines)@) == texts(old(lines)@).push(s@),
{
    let ghost t = s;
    lines.push(s);
    proof { lemma_texts_push(old(lines)@, t); }
}

fn selected_stream_line(s: &AudioStreamPlan) -> (line: String)
    ensures
        line@ == selected_stream_text(*s),
{
    let mut line = String::from_str("  input stream #");
    let index = decimal(s.input_index as u64);
    line.append(index.as_str());
    line.append(": ");
    line.append(s.codec.as_str());
    line.append(" · language ");
    match &s.language {
        Some(l) => line.append(l.as_str()),
        None => line.append("unknown"),
    }
    line.append(" · default ");
    if s.default { line.append("true") } else { line.append("false") }
    line.append(" → compressed packet copy");
    line
}

fn skipped_stream_line(s: &SkippedAudioStream) -> (line: String)
    ensures
        line@ == skipped_stream_text(*s),
{
    let mut line = String::from_str("  skipped input stream #");
    let index = decimal(s.input_index as u64);
    line.append(index.as_str());
    line.append(" (");
    line.append(s.codec.as_str());
    line.append("): ");
    line.append(s.reason.as_str());
    line
}

/// The lines of the audio plan report.
pub fn audio_plan_lines(plan: &AudioPlan) -> (lines: Vec<String>)
    ensures
        texts(lines@) == audio_plan_text(*plan),
{
    let mut lines: Vec<String> = Vec::new();
    let policy = match plan.policy {
        AudioPolicy::Auto => "Auto",
        AudioPolicy::Copy => "Copy",
        AudioPolicy::Disabled => "None",
    };
    proof { assert(texts(lines@) =~= Seq::<Seq<char>>::empty()); }
    push_line(&mut lines, cat("Audio plan: ", policy));
    if plan.selected.len() == 0 {
        push_line(&mut lines, String::from_str("  no audio streams will be copied"));
    }
    let ghost head = texts(lines@);
    let mut i: usize = 0;
    while i < plan.selected.len()
        invariant
            i <= plan.selected@.len(),
            texts(lines@) == head + plan.selected@.take(i as int).map_values(|s: AudioStreamPlan| selected_stream_text(s)),
        decreases plan.selected@.len() - i,
    {
        let line = selected_stream_line(&plan.selected[i]);
        push_line(&mut lines, line);
        proof {
            assert(plan.selected@.take(i as int + 1).map_values(|s: AudioStreamPlan| selected_stream_text(s))
                =~= plan.selected@.take(i as int).map_values(|s: AudioStreamPlan| selected_stream_text(s))
                    .push(selected_stream_text(plan.selected@[i as int])));
        }
        i = i + 1;
    }
    proof { assert(plan.selected@.take(i as int) =~= plan.selected@); }
    let ghost middle = texts(lines@);
    let mut j: usize = 0;
    while j < plan.skipped.len()
        invariant
            j <= plan.skipped@.len(),
            texts(lines@) == middle + plan.skipped@.take(j as int).map_values(|s: SkippedAudioStream| skipped_stream_text(s)),
        decreases plan.skipped@.len() - j,
    {
        let line = skipped_stream_line(&plan.skipped[j]);
        push_line(&mut lines, line);
        proof {
            assert(plan.skipped@.take(j as int + 1).map_values(|s: SkippedAudioStream| skipped_stream_text(s))
                =~= plan.skipped@.take(j as int).map_values(|s: SkippedAudioStream| skipped_stream_text(s))
                    .push(skipped_stream_text(plan.skipped@[j as int])));
        }
        j = j + 1;
    }
    proof {
        assert(plan.skipped@.take(j as int) =~= plan.skipped@);
        assert(texts(lines@) =~= audio_plan_text(*plan));
    }
    lines
}

/// The lines of one rejected candidate: its label, then each reason.
pub open spec fn rejection_text(r: CandidateRejection) -> Seq<Seq<char>> {
    seq!["  - "@ + r.candidate@] + r.reasons@.map_values(|x: String| "      "@ + x@)
}

/// The lines of each rejected candidate, in order.
pub open spec fn rejections_text(rs: Seq<CandidateRejection>) -> Seq<Seq<char>>
    decreases rs.len(),
{
    if rs.len() == 0 {
        Seq::empty()
    } else {
        rejections_text(rs.drop_last()) + rejection_text(rs.last())
    }
}

/// The rejected-candidates report: a heading, each rejection, or `(none)`.
pub open spec fn rejected_report_text(decision: PlanningResult) -> Seq<Seq<char>> {
    seq!["Rejected candidates:"@] + rejections_text(decision.rejected@)
        + (if decision.rejected@.len() == 0 { seq!["  (none)"@] } else { Seq::empty() })
}

/// The lines of the rejected-candidates report.
pub fn rejected_lines(decision: &PlanningResult) -> (lines: Vec<String>)
    ensures
        texts(lines@) == rejected_report_text(*decision),
{
    let mut lines: Vec<String> = Vec::new();
    proof { assert(texts(lines@) =~= Seq::<Seq<char>>::empty()); }
    push_line(&mut lines, String::from_str("Rejected candidates:"));
    let mut i: usize = 0;
    while i < decision.rejected.len()
        invariant
            i <= decision.rejected@.len(),
            texts(lines@) == seq!["Rejected candidates:"@] + rejections_text(decision.rejected@.take(i as int)),
        decreases decision.rejected@.len() - i,
    {
        let rejection = &decision.rejected[i];
        let ghost before = texts(lines@);
        push_line(&mut lines, cat("  - ", rejection.candidate.as_str()));
        let mut k: usize = 0;
        while k < rejection.reasons.len()
            invariant
                k <= rejection.reasons@.len(),
                texts(lines@) == before + seq!["  - "@ + rejection.candidate@]
                    + rejection.reasons@.take(k as int).map_values(|x: String| "      "@ + x@),
            decreases rejection.reasons@.len() - k,
        {
            push_line(&mut lines, cat("      ", rejection.reasons[k].as_str()));
            proof {
                assert(rejection.reasons@.take(k as int + 1).map_values(|x: String| "      "@ + x@)
                    =~= rejection.reasons@.take(k as int).map_values(|x: String| "      "@ + x@)
                        .push("      "@ + rejection.reasons@[k as int]@));
            }
            k = k + 1;
        }
        proof {
            assert(rejection.reasons@.take(k as int) =~= rejection.reasons@);
            let rs = decision.rejected@.take(i as int + 1);
            assert(rs.drop_last() =~= decision.rejected@.take(i as int));
            assert(rs.last() == *rejection);
            assert(texts(lines@) =~= seq!["Rejected candidates:"@] + rejections_text(rs));
        }
        i = i + 1;
    }
    proof { assert(decision.rejected@.take(i as int) =~= decision.rejected@); }
    if decision.rejected.len() == 0 {
        push_line(&mut lines, String::from_str("  (none)"));
    }
    proof { assert(texts(lines@) =~= rejected_report_text(*decision)); }
    lines
}

/// The capability report of a snapshot for an input: decode, encode,
/// processing and interop facts under their section headings.
pub open spec fn capability_report_text(s: CapabilitySnapshot, input: InputRequirements) -> Seq<Seq<char>> {
    seq![
        "Video decode:"@,
        fact_text("software decode"@, s.media.software_decode@),
        fact_text("VAAPI device"@, s.media.vaapi_device@),
        fact_text("VAAPI H.264 decode"@, s.media.h264_vaapi_decode@),
        fact_text("VAAPI HEVC Main 8-bit decode"@, s.media.hevc_vaapi_decode@),
        fact_text("VAAPI AV1 Main 8-bit decode"@, s.media.av1_vaapi_decode@),
        fact_text("VAAPI HEVC Main10 decode"@, s.media.hevc_main10_vaapi_decode@),
        fact_text("VAAPI AV1 Main 10-bit decode"@, s.media.av1_10bit_vaapi_decode@),
        "Video encode:"@,
        fact_text("H.264 8-bit 4:2:0 software"@, s.media.software_encode@),
        fact_text("H.264 8-bit 4:2:0 VAAPI"@, s.media.h264_vaapi_encode@),
        fact_text("HEVC Main 8-bit 4:2:0 software"@, Fact::Unsupported("not implemented"@)),
        fact_text("HEVC Main 8-bit 4:2:0 VAAPI"@, s.media.hevc_vaapi_encode@),
        fact_text("HEVC Main10 10-bit 4:2:0 VAAPI"@, s.media.hevc_main10_vaapi_encode@),
        fact_text("AV1 Profile0 8-bit 4:2:0 software"@, Fact::Unsupported("not implemented"@)),
        fact_text("AV1 Profile0 8-bit 4:2:0 VAAPI"@, s.media.av1_vaapi_encode@),
        fact_text("AV1 Profile0 10-bit 4:2:0 VAAPI"@, s.media.av1_10bit_vaapi_encode@),
        fact_text("VAAPI NV12 frames"@, s.media.nv12_hardware_frames@),
        fact_text("Host to VAAPI NV12 upload"@, s.media.nv12_hardware_upload@),
        fact_text("VAAPI P010 frames"@, s.media.p010_hardware_frames@),
        fact_text("Host to VAAPI P010 upload"@, s.media.p010_hardware_upload@),
        "Vulkan:"@,
        fact_text("CPU processing"@, s.processing.cpu@),
        fact_text("processing"@, s.processing.vulkan@)
    ] + (match s.processing.vulkan_device_name { Some(name) => seq!["  device: "@ + name@], None => Seq::empty() })
    + seq![
        "  auto eligible: "@ + bool_text(s.processing.vulkan_auto_eligible),
        fact_text("compute queue"@, s.processing.compute_queue@),
        fact_text("storageBuffer8BitAccess"@, s.processing.storage_buffer_8bit@),
        fact_text("shaderInt64"@, s.processing.shader_int64@),
        fact_text("Synchronization2"@, s.processing.synchronization2@),
        "Interop:"@,
        fact_text("VAAPI -> Vulkan (this stream)"@, input_for_requirements_spec(s.interop, input)),
        fact_text("Vulkan -> VAAPI H.264 output"@, s.interop.output@),
        fact_text("Vulkan -> VAAPI HEVC output"@, s.interop.hevc_output@),
        fact_text("Vulkan -> VAAPI AV1 output"@, s.interop.av1_output@),
        fact_text("Vulkan -> VAAPI P010 output"@, s.interop.p010_output@),
        fact_text("Vulkan -> VAAPI AV1 P010 output"@, s.interop.av1_p010_output@)
    ]
}

fn push_fact(lines: &mut Vec<String>, label: &str, fact: &CapabilitySupport)
    ensures
        texts(final(lines)@) == texts(old(lines)@).push(fact_text(label@, fact@)),
{
    push_line(lines, fact_line(label, fact));
}

/// The lines of the capability report.
pub fn capability_report_lines(snapshot: &CapabilitySnapshot, input: &InputRequirements) -> (lines: Vec<String>)
    ensures
        texts(lines@) == capability_report_text(*snapshot, *input),
{
    let media = &snapshot.media;
    let processing = &snapshot.processing;
    let interop = &snapshot.interop;
    let mut lines: Vec<String> = Vec::new();
    proof { assert(texts(lines@) =~= Seq::<Seq<char>>::empty()); }
    push_line(&mut lines, String::from_str("Video decode:"));
    push_fact(&mut lines, "software decode", &media.software_decode);
    push_fact(&mut lines, "VAAPI device", &media.vaapi_device);
    push_fact(&mut lines, "VAAPI H.264 decode", &media.h264_vaapi_decode);
    push_fact(&mut lines, "VAAPI HEVC Main 8-bit decode", &media.hevc_vaapi_decode);
    push_fact(&mut lines, "VAAPI AV1 Main 8-bit decode", &media.av1_vaapi_decode);
    push_fact(&mut lines, "VAAPI HEVC Main10 decode", &media.hevc_main10_vaapi_decode);
    push_fact(&mut lines, "VAAPI AV1 Main 10-bit decode", &media.av1_10bit_vaapi_decode);
    push_line(&mut lines, String::from_str("Video encode:"));
    push_fact(&mut lines, "H.264 8-bit 4:2:0 software", &media.software_encode);
    push_fact(&mut lines, "H.264 8-bit 4:2:0 VAAPI", &media.h264_vaapi_encode);
    let not_implemented = CapabilitySupport::unsupported("not implemented");
    push_fact(&mut lines, "HEVC Main 8-bit 4:2:0 software", &not_implemented);
    push_fact(&mut lines, "HEVC Main 8-bit 4:2:0 VAAPI", &media.hevc_vaapi_encode);
    push_fact(&mut lines, "HEVC Main10 10-bit 4:2:0 VAAPI", &media.hevc_main10_vaapi_encode);
    push_fact(&mut lines, "AV1 Profile0 8-bit 4:2:0 software", &not_implemented);
    push_fact(&mut lines, "AV1 Profile0 8-bit 4:2:0 VAAPI", &media.av1_vaapi_encode);
    push_fact(&mut lines, "AV1 Profile0 10-bit 4:2:0 VAAPI", &media.av1_10bit_vaapi_encode);
    push_fact(&mut lines, "VAAPI NV12 frames", &media.nv12_hardware_frames);
    push_fact(&mut lines, "Host to VAAPI NV12 upload", &media.nv12_hardware_upload);
    push_fact(&mut lines, "VAAPI P010 frames", &media.p010_hardware_frames);
    push_fact(&mut lines, "Host to VAAPI P010 upload", &media.p010_hardware_upload);
    push_line(&mut lines, String::from_str("Vulkan:"));
    push_fact(&mut lines, "CPU processing", &processing.cpu);
    push_fact(&mut lines, "processing", &processing.vulkan);
    let ghost head = texts(lines@);
    if let Some(name) = &processing.vulkan_device_name {
        push_line(&mut lines, cat("  device: ", name.as_str()));
    }
    let eligible = if processing.vulkan_auto_eligible { "true" } else { "false" };
    push_line(&mut lines, cat("  auto eligible: ", eligible));
    push_fact(&mut lines, "compute queue", &processing.compute_queue);
    push_fact(&mut lines, "storageBuffer8BitAccess", &processing.storage_buffer_8bit);
    push_fact(&mut lines, "shaderInt64", &processing.shader_int64);
    push_fact(&mut lines, "Synchronization2", &processing.synchronization2);
    push_line(&mut lines, String::from_str("Interop:"));
    let input_fact = interop.input_for_requirements(input);
    push_fact(&mut lines, "VAAPI -> Vulkan (this stream)", &input_fact);
    push_fact(&mut lines, "Vulkan -> VAAPI H.264 output", &interop.output);
    push_fact(&mut lines, "Vulkan -> VAAPI HEVC output", &interop.hevc_output);
    push_fact(&mut lines, "Vulkan -> VAAPI AV1 output", &interop.av1_output);
    push_fact(&mut lines, "Vulkan -> VAAPI P010 output", &interop.p010_output);
    push_fact(&mut lines, "Vulkan -> VAAPI AV1 P010 output", &interop.av1_p010_output);
    proof { assert(texts(lines@) =~= capability_report_text(*snapshot, *input)); }
    lines
}

/// The input block of the capability report: codec and profile, pixel
/// format, bit depth, chroma subsampling and size, frame rate and color.
pub open spec fn input_report_text(input: InputRequirements) -> Seq<Seq<char>> {
    seq![
        "Input:"@,
        "  codec/profile: "@ + codec_debug_text(input.codec) + " / "@ + option_profile_debug_text(input.profile),
        "  format: "@ + (match input.pixel_format { Some(f) => f@, None => "unknown"@ }) + " · "@
            + (match input.bit_depth { Some(d) => decimal_text(d as nat) + "-bit"@, None => "unknown bit depth"@ })
            + " · "@ + chroma_debug_text(input.chroma_subsampling) + " · "@
            + decimal_text(input.width as nat) + "x"@ + decimal_text(input.height as nat),
        "  frame rate: "@ + signed_text(input.frame_rate.numerator as int) + "/"@
            + signed_text(input.frame_rate.denominator as int) + " · color: "@ + color_space_debug_text(input.color_space)
    ]
}

/// The lines of the input block.
pub fn input_report_lines(input: &InputRequirements) -> (lines: Vec<String>)
    ensures
        texts(lines@) == input_report_text(*input),
{
    let mut lines: Vec<String> = Vec::new();
    proof { assert(texts(lines@) =~= Seq::<Seq<char>>::empty()); }
    push_line(&mut lines, String::from_str("Input:"));
    let mut codec = cat("  codec/profile: ", codec_debug(&input.codec).as_str());
    codec.append(" / ");
    codec.append(option_profile_debug(&input.profile).as_str());
    assert(codec@ == input_report_text(*input)[1]);
    push_line(&mut lines, codec);
    let mut format = String::from_str("  format: ");
    match &input.pixel_format {
        Some(f) => format.append(f.as_str()),
        None => format.append("unknown"),
    }
    format.append(" · ");
    match input.bit_depth {
        Some(d) => {
            format.append(decimal(d as u64).as_str());
            format.append("-bit");
        },
        None => format.append("unknown bit depth"),
    }
    format.append(" · ");
    format.append(chroma_debug(input.chroma_subsampling));
    format.append(" · ");
    format.append(decimal(input.width as u64).as_str());
    format.append("x");
    format.append(decimal(input.height as u64).as_str());
    assert(format@ == input_report_text(*input)[2]);
    push_line(&mut lines, format);
    let mut rate = cat("  frame rate: ", signed_decimal(input.frame_rate.numerator as i64).as_str());
    rate.append("/");
    rate.append(signed_decimal(input.frame_rate.denominator as i64).as_str());
    rate.append(" · color: ");
    rate.append(color_space_debug(input.color_space).as_str());
    assert(rate@ == input_report_text(*input)[3]);
    push_line(&mut lines, rate);
    proof { assert(texts(lines@) =~= input_report_text(*input)); }
    lines
}

/// How a host frame format is named in the media plan.
pub open spec fn host_format_text(f: PixelFormat) -> Seq<char> {
    match f {
        PixelFormat::Nv12 => "Host NV12"@,
        PixelFormat::P010Le => "Host P010LE"@,
    }
}

/// The stages a plan's frames go through, from decoding to encoding: the
/// mapped interop path or the host path with its transfers on each side.
pub open spec fn media_plan_spec(p: PipelinePlan, f: PixelFormat) -> Seq<Seq<char>> {
    let decode = match p.decode {
        MediaImplementation::Software => "software decode"@,
        MediaImplementation::Hardware => "VAAPI decode"@,
    };
    let processing = if p.hardware_input_interop {
        seq!["DRM PRIME direct map"@, "DMA-BUF external image"@, "GPU image→buffer copy"@, "Vulkan ASCII"@]
    } else {
        (if p.hardware_download { seq!["hwdownload"@] } else { Seq::empty() }) + seq![
            host_format_text(f),
            if p.backend == ProcessingBackend::Cpu { "CPU ASCII"@ } else { "Vulkan ASCII"@ },
        ]
    };
    let encoding = if p.hardware_output_interop {
        seq!["DRM PRIME WRITE direct map"@, "DMA-BUF writable external image"@, "GPU buffer→image copy"@, "VAAPI encode"@]
    } else {
        seq![host_format_text(f)] + (if p.hardware_upload { seq!["hwupload"@] } else { Seq::empty() }) + seq![
            match p.encode {
                MediaImplementation::Software => "software encode"@,
                MediaImplementation::Hardware => "VAAPI encode"@,
            },
        ]
    };
    seq![decode] + processing + encoding
}

/// `parts` separated by `sep`.
pub open spec fn joined(parts: Seq<Seq<char>>, sep: Seq<char>) -> Seq<char>
    decreases parts.len(),
{
    if parts.len() == 0 {
        Seq::empty()
    } else if parts.len() == 1 {
        parts[0]
    } else {
        joined(parts.drop_last(), sep) + sep + parts.last()
    }
}

fn push_stage(stages: &mut Vec<String>, stage: &str)
    ensures
        final(stages)@.len() == old(stages)@.len() + 1,
        forall|i: int| 0 <= i < old(stages)@.len() ==> final(stages)@[i]@ == old(stages)@[i]@,
        final(stages)@.last()@ == stage@,
{
    stages.push(String::from_str(stage));
}

/// The media plan's stages, in order. The plan's backend is resolved.
pub fn media_plan_stages(plan: &PipelinePlan, format: PixelFormat) -> (v: Vec<String>)
    requires
        plan.backend != ProcessingBackend::Auto,
    ensures
        v@.len() == media_plan_spec(*plan, format).len(),
        forall|i: int| 0 <= i < v@.len() ==> #[trigger] v@[i]@ == media_plan_spec(*plan, format)[i],
{
    let host = match format {
        PixelFormat::Nv12 => "Host NV12",
        PixelFormat::P010Le => "Host P010LE",
    };
    let mut v: Vec<String> = Vec::new();
    push_stage(&mut v, match plan.decode {
        MediaImplementation::Software => "software decode",
        MediaImplementation::Hardware => "VAAPI decode",
    });
    let ghost decode = v@.map_values(|s: String| s@);
    if plan.hardware_input_interop {
        push_stage(&mut v, "DRM PRIME direct map");
        push_stage(&mut v, "DMA-BUF external image");
        push_stage(&mut v, "GPU image→buffer copy");
        push_stage(&mut v, "Vulkan ASCII");
    } else {
        if plan.hardware_download {
            push_stage(&mut v, "hwdownload");
        }
        push_stage(&mut v, host);
        push_stage(&mut v, match plan.backend {
            ProcessingBackend::Cpu => "CPU ASCII",
            _ => "Vulkan ASCII",
        });
    }
    let ghost middle = v@.map_values(|s: String| s@);
    if plan.hardware_output_interop {
        push_stage(&mut v, "DRM PRIME WRITE direct map");
        push_stage(&mut v, "DMA-BUF writable external image");
        push_stage(&mut v, "GPU buffer→image copy");
        push_stage(&mut v, "VAAPI encode");
    } else {
        push_stage(&mut v, host);
        if plan.hardware_upload {
            push_stage(&mut v, "hwupload");
        }
        push_stage(&mut v, match plan.encode {
            MediaImplementation::Software => "software encode",
            MediaImplementation::Hardware => "VAAPI encode",
        });
    }
    proof {
        let spec = media_plan_spec(*plan, format);
        assert(v@.map_values(|s: String| s@) =~= spec);
        assert forall|i: int| 0 <= i < v@.len() implies #[trigger] v@[i]@ == spec[i] by {
            assert(v@.map_values(|s: String| s@)[i] == v@[i]@);
        }
    }
    v
}

/// `"Media plan："` and the plan's stages joined by arrows.
pub fn media_plan_line(plan: &PipelinePlan, format: PixelFormat) -> (s: String)
    requires
        plan.backend != ProcessingBackend::Auto,
    ensures
        s@ == "Media plan："@ + joined(media_plan_spec(*plan, format), " → "@),
{
    let stages = media_plan_stages(plan, format);
    let ghost parts = media_plan_spec(*plan, format);
    let mut s = String::from_str("Media plan：");
    let ghost head = s@;
    let mut i: usize = 0;
    while i < stages.len()
        invariant
            i <= stages@.len(),
            stages@.len() == parts.len(),
            forall|k: int| 0 <= k < stages@.len() ==> #[trigger] stages@[k]@ == parts[k],
            s@ == head + joined(parts.take(i as int), " → "@),
        decreases stages@.len() - i,
    {
        proof {
            assert(parts.take(i as int + 1).drop_last() =~= parts.take(i as int));
            assert(parts.take(i as int + 1).last() == stages@[i as int]@);
        }
        if i > 0 {
            s.append(" → ");
        } else {
            proof {
                assert(parts.take(0) =~= Seq::<Seq<char>>::empty());
                assert(parts.take(1).len() == 1);
            }
        }
        s.append(stages[i].as_str());
        i = i + 1;
    }
    proof {
        assert(parts.take(stages@.len() as int) =~= parts);
    }
    s
}

/// The audio line: `"Audio：none"`, or how many compressed streams are
/// passed through to the MP4 muxer.
pub fn audio_summary_line(selected: usize) -> (s: String)
    ensures
        s@ == (if selected == 0 { "Audio：none"@ } else {
            "Audio："@ + decimal_text(selected as nat) + " compressed stream(s) → packet passthrough → MP4 mux"@
        }),
{
    if selected == 0 {
        String::from_str("Audio：none")
    } else {
        let mut s = String::from_str("Audio：");
        let n = decimal(selected as u64);
        s.append(n.as_str());
        s.append(" compressed stream(s) → packet passthrough → MP4 mux");
        s
    }
}

} // verus!
