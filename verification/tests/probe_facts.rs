use asciiflow::frame::PixelFormat;
use asciiflow::planner::caps::{CapabilitySupport, VideoCodec, VulkanDeviceKind};
use asciiflow::probe_facts::{codec_slot, encoder_precheck, interop_facts, processing_facts, stream_decodable};

fn unsupported(reason: &str) -> CapabilitySupport {
    CapabilitySupport::Unsupported(reason.to_string())
}

fn not_probed(reason: &str) -> CapabilitySupport {
    CapabilitySupport::NotProbed(reason.to_string())
}

#[test]
fn vulkan_probe_outcome_decides_every_processing_fact() {
    let found = processing_facts(Ok(("Test GPU".to_string(), VulkanDeviceKind::DiscreteGpu, true)));
    assert_eq!(found.cpu, CapabilitySupport::Supported);
    assert_eq!(found.vulkan, CapabilitySupport::Supported);
    assert!(found.vulkan_auto_eligible);
    assert_eq!(found.vulkan_device_name.as_deref(), Some("Test GPU"));
    assert_eq!(found.vulkan_device_kind, Some(VulkanDeviceKind::DiscreteGpu));
    assert_eq!(found.synchronization2, CapabilitySupport::Supported);
    let missing = processing_facts(Err("no Vulkan loader".to_string()));
    assert_eq!(missing.cpu, CapabilitySupport::Supported);
    assert_eq!(missing.vulkan, unsupported("no Vulkan loader"));
    assert_eq!(missing.compute_queue, unsupported("no Vulkan loader"));
    assert_eq!(missing.shader_int64, unsupported("no Vulkan loader"));
    assert!(!missing.vulkan_auto_eligible);
    assert_eq!(missing.vulkan_device_name, None);
    assert_eq!(missing.vulkan_device_kind, None);
}

#[test]
fn ten_bit_streams_are_decoded_by_their_own_profiles() {
    let yes = CapabilitySupport::Supported;
    let no = unsupported("profile missing");
    assert_eq!(codec_slot(&VideoCodec::Hevc), Some(1));
    assert_eq!(codec_slot(&VideoCodec::Other("vp9".to_string())), None);
    assert!(stream_decodable(&VideoCodec::Hevc, Some(10), (&no, &no, &no), &yes, &no));
    assert!(!stream_decodable(&VideoCodec::Hevc, Some(10), (&yes, &yes, &yes), &no, &yes));
    assert!(stream_decodable(&VideoCodec::Hevc, Some(8), (&no, &yes, &no), &no, &no));
    assert!(stream_decodable(&VideoCodec::Av1, Some(10), (&no, &no, &no), &no, &yes));
    assert!(stream_decodable(&VideoCodec::H264, None, (&yes, &no, &no), &no, &no));
    assert!(!stream_decodable(&VideoCodec::Other("vp9".to_string()), Some(8), (&yes, &yes, &yes), &yes, &yes));
}

#[test]
fn encoder_facts_settled_before_a_trial_encode() {
    let yes = CapabilitySupport::Supported;
    assert_eq!(
        encoder_precheck(&VideoCodec::H264, false, &yes, Some(PixelFormat::Nv12)),
        Some(unsupported("FFmpeg exposes no h264_vaapi encoder"))
    );
    assert_eq!(
        encoder_precheck(&VideoCodec::Av1, false, &yes, None),
        Some(unsupported("FFmpeg exposes no av1_vaapi encoder"))
    );
    assert_eq!(
        encoder_precheck(&VideoCodec::Hevc, true, &not_probed("driver lacks HEVC Main"), Some(PixelFormat::Nv12)),
        Some(unsupported("driver lacks HEVC Main"))
    );
    assert_eq!(
        encoder_precheck(&VideoCodec::Hevc, true, &yes, Some(PixelFormat::P010Le)),
        Some(not_probed("8-bit NV12 output probe requires an NV12 input sample"))
    );
    assert_eq!(encoder_precheck(&VideoCodec::Hevc, true, &yes, Some(PixelFormat::Nv12)), None);
    assert_eq!(encoder_precheck(&VideoCodec::Hevc, true, &yes, None), None);
}

#[test]
fn input_interop_fact_stands_only_for_the_qualified_stream() {
    let input = unsupported("import failed");
    let outputs = (CapabilitySupport::Supported, not_probed("HEVC VAAPI encode is unavailable"), unsupported("map failed"));
    let p010 = (not_probed("HEVC Main10 output interop not probed"), not_probed("AV1 10-bit output interop not probed"));
    let h264 = interop_facts(Some(0), Some(8), PixelFormat::Nv12, &input, outputs.clone(), p010.clone());
    assert_eq!(h264.input, input);
    assert_eq!(h264.hevc_input, not_probed("no HEVC stream qualified"));
    assert_eq!(h264.av1_input, not_probed("no AV1 stream qualified"));
    assert_eq!(h264.p010_input, not_probed("no P010 stream qualified"));
    assert_eq!(h264.output, CapabilitySupport::Supported);
    assert_eq!(h264.av1_output, unsupported("map failed"));
    assert_eq!(h264.p010_output, not_probed("HEVC Main10 output interop not probed"));
    let main10 = interop_facts(Some(1), Some(10), PixelFormat::P010Le, &CapabilitySupport::Supported, outputs, p010);
    assert_eq!(main10.input, not_probed("no H.264 stream qualified"));
    assert_eq!(main10.hevc_input, not_probed("no HEVC stream qualified"));
    assert_eq!(main10.p010_input, CapabilitySupport::Supported);
    assert_eq!(main10.av1_p010_output, not_probed("AV1 10-bit output interop not probed"));
}
