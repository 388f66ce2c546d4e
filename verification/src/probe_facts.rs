//! Turning what the hardware probes found into capability facts. The probes
//! themselves (opening the input, creating a Vulkan device, trial encodes and
//! DMA-BUF imports) are the caller's; these functions take their outcomes
//! and decide the facts the planner sees.

use vstd::prelude::*;
use crate::frame::PixelFormat;
use crate::text::cat3;
use crate::planner::caps::{
    reason_of, CapabilitySupport, Fact, InteropCapabilities, ProcessingCapabilities, VideoCodec,
    VulkanDeviceKind,
};

verus! {

/// The processing facts for a Vulkan device probe: with a device, every
/// Vulkan feature is supported and the device is described; without one,
/// each Vulkan fact is unsupported for the probe's reason. The CPU path is
/// always available.
pub open spec fn processing_facts_spec(p: ProcessingCapabilities, device: Result<(String, VulkanDeviceKind, bool), String>) -> bool {
    &&& p.cpu@ == Fact::Supported
    &&& match device {
        Ok((name, kind, auto_eligible)) => {
            &&& p.vulkan@ == Fact::Supported
            &&& p.vulkan_auto_eligible == auto_eligible
            &&& p.vulkan_device_name matches Some(n) && n@ == name@
            &&& p.vulkan_device_kind == Some(kind)
            &&& p.compute_queue@ == Fact::Supported
            &&& p.storage_buffer_8bit@ == Fact::Supported
            &&& p.shader_int64@ == Fact::Supported
            &&& p.synchronization2@ == Fact::Supported
        },
        Err(reason) => {
            &&& p.vulkan@ == Fact::Unsupported(reason@)
            &&& !p.vulkan_auto_eligible
            &&& p.vulkan_device_name is None
            &&& p.vulkan_device_kind is None
            &&& p.compute_queue@ == Fact::Unsupported(reason@)
            &&& p.storage_buffer_8bit@ == Fact::Unsupported(reason@)
            &&& p.shader_int64@ == Fact::Unsupported(reason@)
            &&& p.synchronization2@ == Fact::Unsupported(reason@)
        },
    }
}

/// The processing facts for the outcome of a Vulkan device probe: the
/// device's name, kind and automatic eligibility, or why none was created.
pub fn processing_facts(device: Result<(String, VulkanDeviceKind, bool), String>) -> (p: ProcessingCapabilities)
    ensures
        processing_facts_spec(p, device),
{
    match device {
        Ok((name, kind, auto_eligible)) => ProcessingCapabilities {
            cpu: CapabilitySupport::supported(),
            vulkan: CapabilitySupport::supported(),
            vulkan_auto_eligible: auto_eligible,
            vulkan_device_name: Some(name),
            vulkan_device_kind: Some(kind),
            compute_queue: CapabilitySupport::supported(),
            storage_buffer_8bit: CapabilitySupport::supported(),
            shader_int64: CapabilitySupport::supported(),
            synchronization2: CapabilitySupport::supported(),
        },
        Err(reason) => ProcessingCapabilities {
            cpu: CapabilitySupport::supported(),
            vulkan: CapabilitySupport::unsupported(reason.as_str()),
            vulkan_auto_eligible: false,
            vulkan_device_name: None,
            vulkan_device_kind: None,
            compute_queue: CapabilitySupport::unsupported(reason.as_str()),
            storage_buffer_8bit: CapabilitySupport::unsupported(reason.as_str()),
            shader_int64: CapabilitySupport::unsupported(reason.as_str()),
            synchronization2: CapabilitySupport::unsupported(reason.as_str()),
        },
    }
}

/// Position of a codec among the VAAPI-qualified codecs H.264, HEVC, AV1.
pub open spec fn codec_slot_spec(c: VideoCodec) -> Option<usize> {
    match c {
        VideoCodec::H264 => Some(0usize),
        VideoCodec::Hevc => Some(1usize),
        VideoCodec::Av1 => Some(2usize),
        VideoCodec::Other(_) => None,
    }
}

/// Position of a codec among the VAAPI-qualified codecs H.264, HEVC, AV1.
pub fn codec_slot(codec: &VideoCodec) -> (r: Option<usize>)
    ensures
        r == codec_slot_spec(*codec),
{
    match codec {
        VideoCodec::H264 => Some(0),
        VideoCodec::Hevc => Some(1),
        VideoCodec::Av1 => Some(2),
        VideoCodec::Other(_) => None,
    }
}

/// Whether the input stream's codec and depth can be decoded with VAAPI by
/// the probed profiles: 10-bit HEVC and AV1 by their own profiles, anything
/// else qualified by its codec's 8-bit profile.
pub open spec fn stream_decodable_spec(
    codec: VideoCodec,
    bit_depth: Option<u8>,
    decode: (Fact, Fact, Fact),
    hevc_main10: Fact,
    av1_10bit: Fact,
) -> bool {
    match (codec, bit_depth) {
        (VideoCodec::Hevc, Some(10)) => hevc_main10 == Fact::Supported,
        (VideoCodec::Av1, Some(10)) => av1_10bit == Fact::Supported,
        _ => match codec_slot_spec(codec) {
            Some(0) => decode.0 == Fact::Supported,
            Some(1) => decode.1 == Fact::Supported,
            Some(2) => decode.2 == Fact::Supported,
            _ => false,
        },
    }
}

/// Whether the input stream can be decoded with VAAPI, from the probed
/// 8-bit profiles of H.264, HEVC and AV1 and the two 10-bit profiles.
pub fn stream_decodable(
    codec: &VideoCodec,
    bit_depth: Option<u8>,
    decode: (&CapabilitySupport, &CapabilitySupport, &CapabilitySupport),
    hevc_main10: &CapabilitySupport,
    av1_10bit: &CapabilitySupport,
) -> (b: bool)
    ensures
        b == stream_decodable_spec(*codec, bit_depth, ((*decode.0)@, (*decode.1)@, (*decode.2)@), hevc_main10@, av1_10bit@),
{
    let ten_bit = match bit_depth {
        Some(depth) => depth == 10,
        None => false,
    };
    match codec {
        VideoCodec::Hevc if ten_bit => hevc_main10.is_supported(),
        VideoCodec::Av1 if ten_bit => av1_10bit.is_supported(),
        VideoCodec::H264 => decode.0.is_supported(),
        VideoCodec::Hevc => decode.1.is_supported(),
        VideoCodec::Av1 => decode.2.is_supported(),
        VideoCodec::Other(_) => false,
    }
}

/// The lower-case codec name FFmpeg's VAAPI encoders carry.
pub open spec fn vaapi_encoder_codec(c: VideoCodec) -> Seq<char> {
    match c {
        VideoCodec::H264 => "h264"@,
        VideoCodec::Hevc => "hevc"@,
        _ => "av1"@,
    }
}

/// The fact for a codec whose VAAPI encoder FFmpeg was built without.
pub open spec fn missing_encoder_text(c: VideoCodec) -> Seq<char> {
    "FFmpeg exposes no "@ + vaapi_encoder_codec(c) + "_vaapi encoder"@
}

fn missing_encoder(codec: &VideoCodec) -> (s: CapabilitySupport)
    requires
        codec is H264 || codec is Hevc || codec is Av1,
    ensures
        s@ == Fact::Unsupported(missing_encoder_text(*codec)),
{
    let name = match codec {
        VideoCodec::H264 => "h264",
        VideoCodec::Hevc => "hevc",
        _ => "av1",
    };
    let text = cat3("FFmpeg exposes no ", name, "_vaapi encoder");
    CapabilitySupport::unsupported(text.as_str())
}

/// What is known of an encoder before a trial encode: unsupported when
/// FFmpeg lacks the encoder or the driver lacks the profile (for the
/// profile's reason), not probed for a non-NV12 sample when an 8-bit
/// output is asked for; `None` when the trial encode decides.
pub open spec fn encoder_precheck_spec(
    codec: VideoCodec,
    encoder_built: bool,
    profile: CapabilitySupport,
    eight_bit_sample: Option<PixelFormat>,
) -> Option<Fact> {
    if !encoder_built {
        Some(Fact::Unsupported(missing_encoder_text(codec)))
    } else if reason_of(profile) is Some {
        Some(Fact::Unsupported(reason_of(profile)->0))
    } else if eight_bit_sample matches Some(f) && f != PixelFormat::Nv12 {
        Some(Fact::NotProbed("8-bit NV12 output probe requires an NV12 input sample"@))
    } else {
        None
    }
}

/// The encoder fact settled before a trial encode, if any. For an 8-bit
/// output `eight_bit_sample` is the input sample's format; for a 10-bit
/// output it is `None`.
pub fn encoder_precheck(
    codec: &VideoCodec,
    encoder_built: bool,
    profile: &CapabilitySupport,
    eight_bit_sample: Option<PixelFormat>,
) -> (r: Option<CapabilitySupport>)
    requires
        codec is H264 || codec is Hevc || codec is Av1,
    ensures
        r matches Some(f) ==> encoder_precheck_spec(*codec, encoder_built, *profile, eight_bit_sample) == Some(f@),
        r is None <==> encoder_precheck_spec(*codec, encoder_built, *profile, eight_bit_sample) is None,
{
    if !encoder_built {
        return Some(missing_encoder(codec));
    }
    if let Some(reason) = profile.unavailable_reason() {
        return Some(CapabilitySupport::unsupported(reason));
    }
    match eight_bit_sample {
        Some(PixelFormat::P010Le) => Some(CapabilitySupport::not_probed("8-bit NV12 output probe requires an NV12 input sample")),
        _ => None,
    }
}

/// The interop facts from the qualification probes: the input import fact
/// stands for the input's own codec (8-bit) and for P010 input, the other
/// inputs were not qualified; output facts are per codec and, for P010,
/// for HEVC and AV1.
pub open spec fn interop_facts_spec(
    i: InteropCapabilities,
    slot: Option<usize>,
    bit_depth: Option<u8>,
    format: PixelFormat,
    input: Fact,
    output: (Fact, Fact, Fact),
    p010_output: (Fact, Fact),
) -> bool {
    let eight_bit = bit_depth == Some(8u8);
    &&& i.input@ == (if slot == Some(0usize) && eight_bit { input } else { Fact::NotProbed("no H.264 stream qualified"@) })
    &&& i.hevc_input@ == (if slot == Some(1usize) && eight_bit { input } else { Fact::NotProbed("no HEVC stream qualified"@) })
    &&& i.av1_input@ == (if slot == Some(2usize) && eight_bit { input } else { Fact::NotProbed("no AV1 stream qualified"@) })
    &&& i.output@ == output.0
    &&& i.hevc_output@ == output.1
    &&& i.av1_output@ == output.2
    &&& i.p010_input@ == (if format == PixelFormat::P010Le { input } else { Fact::NotProbed("no P010 stream qualified"@) })
    &&& i.p010_output@ == p010_output.0
    &&& i.av1_p010_output@ == p010_output.1
}

fn in_slot(slot: Option<usize>, k: usize) -> (b: bool)
    ensures
        b == (slot == Some(k)),
{
    match slot {
        Some(s) => s == k,
        None => false,
    }
}

fn input_fact(qualified: bool, input: &CapabilitySupport, otherwise: &str) -> (s: CapabilitySupport)
    ensures
        s@ == (if qualified { input@ } else { Fact::NotProbed(otherwise@) }),
{
    if qualified {
        input.copied()
    } else {
        CapabilitySupport::not_probed(otherwise)
    }
}

/// The interop facts once the input import and the output imports per
/// codec (8-bit, then P010 for HEVC and AV1) have been qualified.
pub fn interop_facts(
    slot: Option<usize>,
    bit_depth: Option<u8>,
    format: PixelFormat,
    input: &CapabilitySupport,
    output: (CapabilitySupport, CapabilitySupport, CapabilitySupport),
    p010_output: (CapabilitySupport, CapabilitySupport),
) -> (i: InteropCapabilities)
    ensures
        interop_facts_spec(i, slot, bit_depth, format, input@, (output.0@, output.1@, output.2@), (p010_output.0@, p010_output.1@)),
{
    let eight_bit = match bit_depth {
        Some(depth) => depth == 8,
        None => false,
    };
    let (h264_out, hevc_out, av1_out) = output;
    let (hevc_p010_out, av1_p010_out) = p010_output;
    InteropCapabilities {
        input: input_fact(in_slot(slot, 0) && eight_bit, input, "no H.264 stream qualified"),
        hevc_input: input_fact(in_slot(slot, 1) && eight_bit, input, "no HEVC stream qualified"),
        av1_input: input_fact(in_slot(slot, 2) && eight_bit, input, "no AV1 stream qualified"),
        output: h264_out,
        hevc_output: hevc_out,
        av1_output: av1_out,
        p010_input: input_fact(format == PixelFormat::P010Le, input, "no P010 stream qualified"),
        p010_output: hevc_p010_out,
        av1_p010_output: av1_p010_out,
    }
}

} // verus!
