use asciiflow::config::ProcessingBackend;
use asciiflow::frame::{ColorSpace, FrameDesc, PixelFormat, Rational};
use asciiflow::planner::caps::{
    CapabilitySnapshot, CapabilitySupport, FormatOutputInteropCapabilities, InteropCapabilities,
    MediaCapabilities, ProcessingCapabilities, VideoCodec, VideoProfile, VulkanDeviceKind,
};
use asciiflow::planner::planning::PipelinePlanner;
use asciiflow::planner::policy::{
    FrameDomain, InteropRequest, MediaImplementation, MediaRequest, PipelinePlan, PipelinePolicy,
    PixelPath, PlanNode,
};
use asciiflow::planner::requirements::{ChromaSubsampling, InputRequirements};

fn yes() -> CapabilitySupport {
    CapabilitySupport::Supported
}

fn no(name: &str) -> CapabilitySupport {
    CapabilitySupport::unsupported(&format!("synthetic {name} removal"))
}

fn full() -> CapabilitySnapshot {
    CapabilitySnapshot {
        media: MediaCapabilities {
            software_decode: yes(),
            software_encode: yes(),
            vaapi_device: yes(),
            h264_vaapi_decode: yes(),
            hevc_vaapi_decode: yes(),
            av1_vaapi_decode: yes(),
            h264_vaapi_encode: yes(),
            hevc_vaapi_encode: yes(),
            hevc_main10_vaapi_decode: yes(),
            av1_10bit_vaapi_decode: yes(),
            hevc_main10_vaapi_encode: yes(),
            av1_vaapi_encode: yes(),
            av1_10bit_vaapi_encode: yes(),
            nv12_hardware_frames: yes(),
            nv12_hardware_upload: yes(),
            p010_hardware_frames: yes(),
            p010_hardware_upload: yes(),
        },
        processing: ProcessingCapabilities {
            cpu: yes(),
            vulkan: yes(),
            vulkan_auto_eligible: true,
            vulkan_device_name: Some("synthetic integrated GPU".into()),
            vulkan_device_kind: Some(VulkanDeviceKind::IntegratedGpu),
            compute_queue: yes(),
            storage_buffer_8bit: yes(),
            shader_int64: yes(),
            synchronization2: yes(),
        },
        interop: InteropCapabilities {
            input: yes(),
            hevc_input: yes(),
            av1_input: yes(),
            output: yes(),
            hevc_output: yes(),
            av1_output: yes(),
            p010_input: yes(),
            p010_output: yes(),
            av1_p010_output: yes(),
        },
    }
}

fn h264() -> InputRequirements {
    InputRequirements {
        codec: VideoCodec::H264,
        profile: Some(VideoProfile::from_name("High")),
        pixel_format: Some("yuv420p".into()),
        bit_depth: Some(8),
        chroma_subsampling: ChromaSubsampling::Yuv420,
        width: 1920,
        height: 1080,
        frame_rate: Rational::new(50, 1).unwrap(),
        color_space: ColorSpace::default(),
        color_semantics: None,
    }
}

fn automatic(snapshot: &CapabilitySnapshot) -> PipelinePlan {
    PipelinePlanner::select(snapshot, &h264(), PipelinePolicy::default())
        .unwrap()
        .selected
}

fn nodes(plan: &PipelinePlan) -> Vec<PlanNode> {
    plan.steps.iter().map(|s| s.node).collect()
}

fn main10_input(codec: VideoCodec) -> InputRequirements {
    let mut input = h264();
    input.codec = codec.clone();
    input.profile = Some(match codec {
        VideoCodec::Hevc => VideoProfile::HevcMain10,
        VideoCodec::Av1 => VideoProfile::Av1Main,
        _ => unreachable!(),
    });
    input.pixel_format = Some("yuv420p10le".into());
    input.bit_depth = Some(10);
    input
}

#[test]
fn output_interop_support_is_independent_by_pixel_format() {
    let facts = FormatOutputInteropCapabilities {
        nv12: CapabilitySupport::Supported,
        p010: CapabilitySupport::not_probed("writable P010 descriptor not inspected"),
    };
    assert!(facts.for_format(PixelFormat::Nv12).is_supported());
    assert!(matches!(facts.for_format(PixelFormat::P010Le), CapabilitySupport::NotProbed(_)));
    let unavailable = FormatOutputInteropCapabilities {
        p010: CapabilitySupport::unsupported("R16 transfer-dst unsupported"),
        ..facts
    };
    assert!(unavailable.for_format(PixelFormat::Nv12).is_supported());
    assert!(matches!(unavailable.for_format(PixelFormat::P010Le), CapabilitySupport::Unsupported(_)));
}

#[test]
fn new_codec_auto_capabilities_are_isolated_and_do_not_prefer_hwdownload() {
    for (codec, profile) in [(VideoCodec::Hevc, VideoProfile::HevcMain), (VideoCodec::Av1, VideoProfile::Av1Main)] {
        let mut req = h264();
        req.codec = codec.clone();
        req.profile = Some(profile);
        let mut caps = full();
        let plan = PipelinePlanner::select(&caps, &req, Default::default()).unwrap().selected;
        assert!(plan.hardware_input_interop);
        caps.interop.set_input(&codec, no("stream import"));
        let plan = PipelinePlanner::select(&caps, &req, Default::default()).unwrap().selected;
        assert_eq!(plan.decode, MediaImplementation::Software);
        assert!(caps.interop.input.is_supported());
        caps.media.disable_decode(&codec, "decoder init");
        assert!(caps.media.h264_vaapi_decode.is_supported());
        assert!(!caps.media.decode_for(&codec).is_supported());
        assert!(PipelinePlanner::select(
            &caps,
            &req,
            PipelinePolicy { decode: MediaRequest::Hardware, ..Default::default() }
        )
        .is_err());
    }
}

#[test]
fn new_codec_depth_profile_and_chroma_are_planner_errors() {
    for (codec, profile) in [(VideoCodec::Hevc, VideoProfile::HevcMain), (VideoCodec::Av1, VideoProfile::Av1Main)] {
        let mut req = h264();
        req.codec = codec;
        req.profile = Some(profile);
        req.bit_depth = Some(10);
        assert!(PipelinePlanner::select(&full(), &req, Default::default()).is_err());
        req.bit_depth = Some(8);
        req.chroma_subsampling = ChromaSubsampling::Other;
        assert!(PipelinePlanner::select(&full(), &req, Default::default()).is_err());
        req.chroma_subsampling = ChromaSubsampling::Yuv420;
        req.profile = Some(VideoProfile::Other("unsupported profile".into()));
        assert!(PipelinePlanner::select(&full(), &req, Default::default()).is_err());
    }
}

#[test]
fn full_capability_selects_gpu_resident_pipeline() {
    let plan = automatic(&full());
    assert_eq!(plan.pixel_path, PixelPath::GpuResident);
    assert_eq!(
        nodes(&plan),
        vec![
            PlanNode::VaapiDecode,
            PlanNode::InputHardwareInterop,
            PlanNode::VulkanAscii,
            PlanNode::OutputHardwareInterop,
            PlanNode::VaapiEncode
        ]
    );
}

#[test]
fn no_input_interop_avoids_staged_hardware_decode() {
    let mut c = full();
    c.interop.input = no("input interop");
    let p = automatic(&c);
    assert_eq!(p.decode, MediaImplementation::Software);
    assert!(p.hardware_output_interop);
    assert!(!nodes(&p).contains(&PlanNode::HardwareDownload));
}

#[test]
fn no_output_interop_keeps_input_interop_and_uses_hwupload() {
    let mut c = full();
    c.interop.output = no("output interop");
    let p = automatic(&c);
    assert!(p.hardware_input_interop);
    assert!(p.hardware_upload);
    assert!(nodes(&p).contains(&PlanNode::HostReadback));
}

#[test]
fn no_vaapi_encode_uses_input_interop_and_software_encode() {
    let mut c = full();
    c.media.h264_vaapi_encode = no("VAAPI encode");
    c.media.nv12_hardware_frames = no("encoder frames");
    c.media.nv12_hardware_upload = no("encoder upload");
    c.interop.output = no("output interop");
    let p = automatic(&c);
    assert!(p.hardware_input_interop);
    assert_eq!(p.encode, MediaImplementation::Software);
}

#[test]
fn no_vaapi_uses_software_media_with_vulkan() {
    let mut c = full();
    c.media.vaapi_device = no("device");
    c.media.h264_vaapi_decode = no("decode");
    c.media.h264_vaapi_encode = no("encode");
    c.media.nv12_hardware_frames = no("frames");
    c.interop.input = no("input");
    c.interop.output = no("output");
    let p = automatic(&c);
    assert_eq!(
        (p.decode, p.backend, p.encode),
        (MediaImplementation::Software, ProcessingBackend::Vulkan, MediaImplementation::Software)
    );
}

#[test]
fn no_auto_eligible_vulkan_uses_cpu_without_staged_decode() {
    let mut c = full();
    c.processing.vulkan_auto_eligible = false;
    let p = automatic(&c);
    assert_eq!(
        (p.decode, p.backend, p.encode),
        (MediaImplementation::Software, ProcessingBackend::Cpu, MediaImplementation::Hardware)
    );
}

#[test]
fn explicit_overrides_are_respected() {
    let c = full();
    let policies = [
        PipelinePolicy { decode: MediaRequest::Software, ..Default::default() },
        PipelinePolicy { backend: ProcessingBackend::Cpu, ..Default::default() },
        PipelinePolicy { encode: MediaRequest::Software, ..Default::default() },
    ];
    for policy in policies {
        let p = PipelinePlanner::select(&c, &h264(), policy.clone()).unwrap().selected;
        if policy.decode == MediaRequest::Software {
            assert_eq!(p.decode, MediaImplementation::Software)
        }
        if policy.backend == ProcessingBackend::Cpu {
            assert_eq!(p.backend, ProcessingBackend::Cpu)
        }
        if policy.encode == MediaRequest::Software {
            assert_eq!(p.encode, MediaImplementation::Software)
        }
    }
}

#[test]
fn conflicts_and_unsupported_explicit_requests_are_errors() {
    let c = full();
    let e = PipelinePlanner::select(
        &c,
        &h264(),
        PipelinePolicy { encode: MediaRequest::Software, output_interop: InteropRequest::On, ..Default::default() },
    )
    .unwrap_err();
    assert!(e.to_string().contains("requires a hardware encoder"));
    let mut u = full();
    u.media.h264_vaapi_decode = no("decode");
    let e = PipelinePlanner::select(&u, &h264(), PipelinePolicy { decode: MediaRequest::Hardware, ..Default::default() })
        .unwrap_err();
    assert!(e.to_string().contains("VAAPI H.264 decode unavailable"));
}

#[test]
fn ten_bit_input_is_explicitly_rejected_by_current_pipeline_contract() {
    let p010 = FrameDesc::host_p010_le(1920, 1080, ColorSpace::default()).unwrap();
    assert_eq!(p010.format, PixelFormat::P010Le);
    let mut r = h264();
    r.bit_depth = Some(10);
    r.pixel_format = Some("yuv420p10le".into());
    let error = r.validate_current_pipeline().unwrap_err();
    assert!(error.to_string().contains("10-bit video is not supported"));
    for (codec, profile) in [(VideoCodec::Hevc, VideoProfile::HevcMain10), (VideoCodec::Av1, VideoProfile::Av1Main)] {
        let mut requirements = h264();
        requirements.codec = codec.clone();
        requirements.profile = Some(profile);
        requirements.bit_depth = Some(10);
        let error = PipelinePlanner::select(&full(), &requirements, Default::default()).unwrap_err();
        assert!(error.to_string().contains("without a conversion path"));
        requirements.bit_depth = Some(8);
        if codec == VideoCodec::Hevc {
            requirements.profile = Some(VideoProfile::HevcMain);
        }
        let plan = PipelinePlanner::select(
            &full(),
            &requirements,
            PipelinePolicy { output_codec: codec, ..Default::default() },
        )
        .unwrap()
        .selected;
        assert_eq!(plan.output.bit_depth, 8);
    }
}

#[test]
fn invalid_nv12_chroma_and_dimensions_are_rejected_early() {
    let mut requirements = h264();
    requirements.chroma_subsampling = ChromaSubsampling::Other;
    assert!(requirements.validate_current_pipeline().unwrap_err().to_string().contains("requires 4:2:0 chroma"));
    requirements.chroma_subsampling = ChromaSubsampling::Yuv420;
    requirements.width = 1919;
    assert!(requirements.validate_current_pipeline().unwrap_err().to_string().contains("requires even dimensions"));
}

#[test]
fn display_and_domains_are_stable() {
    let p = automatic(&full());
    assert_eq!(p.steps[0].output, Some(FrameDomain::HardwareNv12));
    assert_eq!(
        p.to_string(),
        "VAAPI decode\n  -> VAAPI/Vulkan input interop\n  -> Vulkan ASCII\n  -> Vulkan/VAAPI output interop\n  -> VAAPI H.264 encode"
    );
}

#[test]
fn explicit_vulkan_can_use_a_device_excluded_from_auto() {
    let mut c = full();
    c.processing.vulkan_auto_eligible = false;
    c.processing.vulkan_device_kind = Some(VulkanDeviceKind::Cpu);
    let plan = PipelinePlanner::select(&c, &h264(), PipelinePolicy { backend: ProcessingBackend::Vulkan, ..Default::default() })
        .unwrap()
        .selected;
    assert_eq!(plan.backend, ProcessingBackend::Vulkan);
}

#[test]
fn missing_required_vulkan_feature_rejects_explicit_vulkan() {
    let mut c = full();
    c.processing.synchronization2 = no("Synchronization2");
    let error = PipelinePlanner::select(&c, &h264(), PipelinePolicy { backend: ProcessingBackend::Vulkan, ..Default::default() })
        .unwrap_err();
    assert!(error.to_string().contains("Synchronization2 unavailable"));
}

#[test]
fn planning_is_deterministic() {
    let capabilities = full();
    let first = PipelinePlanner::select(&capabilities, &h264(), Default::default()).unwrap();
    assert_eq!(first.selected.output.profile, None);
    for _ in 0..20 {
        assert_eq!(PipelinePlanner::select(&capabilities, &h264(), Default::default()).unwrap(), first);
    }
}

#[test]
fn hevc_output_selects_vaapi_and_records_codec_identity() {
    let plan = PipelinePlanner::select(&full(), &h264(), PipelinePolicy { output_codec: VideoCodec::Hevc, ..Default::default() })
        .unwrap()
        .selected;
    assert_eq!(plan.output.codec, VideoCodec::Hevc);
    assert_eq!(plan.output.profile, Some(VideoProfile::HevcMain));
    assert_eq!(plan.encode, MediaImplementation::Hardware);
    assert!(plan.hardware_output_interop);
    assert!(plan.to_string().contains("VAAPI HEVC encode"));
}

#[test]
fn hevc_output_without_interop_keeps_vaapi_encode_and_stages() {
    let mut capabilities = full();
    capabilities.interop.hevc_output = no("HEVC output interop");
    let plan = PipelinePlanner::select(&capabilities, &h264(), PipelinePolicy { output_codec: VideoCodec::Hevc, ..Default::default() })
        .unwrap()
        .selected;
    assert_eq!(plan.output.codec, VideoCodec::Hevc);
    assert!(plan.hardware_upload);
    assert!(!plan.hardware_output_interop);
}

#[test]
fn hevc_output_never_falls_back_to_h264_or_software() {
    let mut capabilities = full();
    capabilities.media.hevc_vaapi_encode = no("HEVC encoder");
    let error = PipelinePlanner::select(&capabilities, &h264(), PipelinePolicy { output_codec: VideoCodec::Hevc, ..Default::default() })
        .unwrap_err();
    assert!(error.to_string().contains("HEVC 8-bit VAAPI encoding unavailable"));

    let error = PipelinePlanner::select(
        &full(),
        &h264(),
        PipelinePolicy { encode: MediaRequest::Software, output_codec: VideoCodec::Hevc, ..Default::default() },
    )
    .unwrap_err();
    assert!(error.to_string().contains("HEVC software encoding is not implemented"));
}

#[test]
fn output_interop_capability_is_scoped_by_codec() {
    let mut capabilities = full();
    capabilities.interop.hevc_output = no("HEVC-only output import");
    let h264_plan = PipelinePlanner::select(&capabilities, &h264(), Default::default()).unwrap().selected;
    assert!(h264_plan.hardware_output_interop);
    let hevc = PipelinePlanner::select(&capabilities, &h264(), PipelinePolicy { output_codec: VideoCodec::Hevc, ..Default::default() })
        .unwrap()
        .selected;
    assert!(!hevc.hardware_output_interop);

    let error = PipelinePlanner::select(
        &capabilities,
        &h264(),
        PipelinePolicy { output_codec: VideoCodec::Hevc, output_interop: InteropRequest::On, ..Default::default() },
    )
    .unwrap_err();
    assert!(error.to_string().contains("HEVC-only output import"));
}

#[test]
fn av1_output_requires_its_own_encoder_and_never_changes_codec() {
    let policy = PipelinePolicy { output_codec: VideoCodec::Av1, ..Default::default() };
    let plan = PipelinePlanner::select(&full(), &h264(), policy.clone()).unwrap().selected;
    assert_eq!(plan.output.codec, VideoCodec::Av1);
    assert_eq!(plan.output.profile, Some(VideoProfile::Av1Main));
    assert_eq!(plan.encode, MediaImplementation::Hardware);
    assert!(plan.hardware_output_interop);
    assert!(plan.to_string().contains("VAAPI AV1 encode"));

    let mut capabilities = full();
    capabilities.media.av1_vaapi_encode = no("AV1 encoder absent");
    let error = PipelinePlanner::select(&capabilities, &h264(), policy.clone()).unwrap_err();
    assert!(error.to_string().contains("AV1 encoder absent"));
    assert!(capabilities.media.h264_vaapi_encode.is_supported());
    assert!(capabilities.media.hevc_vaapi_encode.is_supported());

    let error = PipelinePlanner::select(&full(), &h264(), PipelinePolicy { encode: MediaRequest::Software, ..policy })
        .unwrap_err();
    assert!(error.to_string().contains("AV1 software encoding is not implemented"));
}

#[test]
fn av1_output_interop_failure_stages_only_av1_when_auto() {
    let mut capabilities = full();
    capabilities.interop.av1_output = no("AV1 import rejected");
    let policy = PipelinePolicy { output_codec: VideoCodec::Av1, ..Default::default() };
    let plan = PipelinePlanner::select(&capabilities, &h264(), policy.clone()).unwrap().selected;
    assert!(plan.hardware_upload);
    assert!(!plan.hardware_output_interop);
    assert_eq!(plan.output.codec, VideoCodec::Av1);
    assert!(capabilities.interop.output.is_supported());
    assert!(capabilities.interop.hevc_output.is_supported());

    let error = PipelinePlanner::select(&capabilities, &h264(), PipelinePolicy { output_interop: InteropRequest::On, ..policy })
        .unwrap_err();
    assert!(error.to_string().contains("AV1 import rejected"));
}

#[test]
fn main10_production_plan_is_explicit_and_format_aware() {
    let policy = PipelinePolicy { output_codec: VideoCodec::Hevc, output_bit_depth: 10, ..Default::default() };
    for codec in [VideoCodec::Hevc, VideoCodec::Av1] {
        let plan = PipelinePlanner::select(&full(), &main10_input(codec), policy.clone()).unwrap().selected;
        assert_eq!(plan.output.profile, Some(VideoProfile::HevcMain10));
        assert_eq!(plan.output.pixel_format, PixelFormat::P010Le);
        assert_eq!(plan.output.bit_depth, 10);
        assert_eq!(plan.pixel_path, PixelPath::GpuResident);
        assert_eq!(plan.steps[0].output, Some(FrameDomain::HardwareP010));
        assert!(plan.steps.iter().any(|step| step.output == Some(FrameDomain::VulkanP010Buffer)));
    }
}

#[test]
fn main10_replan_stays_main10_and_isolates_main8_facts() {
    let mut caps = full();
    let policy = PipelinePolicy { output_codec: VideoCodec::Hevc, output_bit_depth: 10, ..Default::default() };
    let input = main10_input(VideoCodec::Hevc);
    let output = PipelinePlanner::select(&caps, &input, policy.clone()).unwrap().selected.output;
    caps.interop.set_output_for_requirements(&output, no("P010 import"));
    let staged = PipelinePlanner::select(&caps, &input, policy.clone()).unwrap().selected;
    assert!(staged.hardware_upload);
    assert!(!staged.hardware_output_interop);
    assert_eq!(staged.output.profile, Some(VideoProfile::HevcMain10));
    assert!(caps.interop.hevc_output.is_supported());
    let explicit_error = PipelinePlanner::select(&caps, &input, PipelinePolicy { output_interop: InteropRequest::On, ..policy.clone() })
        .unwrap_err();
    assert!(explicit_error.to_string().contains("P010 import"));
    caps.media.disable_encode_output(&output, "Main10 encoder failed");
    let error = PipelinePlanner::select(&caps, &input, policy).unwrap_err();
    assert!(error.to_string().contains("Main10 encoder failed"));
    assert!(caps.media.hevc_vaapi_encode.is_supported());
}

#[test]
fn ten_bit_output_rejects_unsupported_codec_and_conversion() {
    let input = main10_input(VideoCodec::Hevc);
    let error = PipelinePlanner::select(
        &full(),
        &input,
        PipelinePolicy { output_codec: VideoCodec::H264, output_bit_depth: 10, ..Default::default() },
    )
    .unwrap_err();
    assert!(error.to_string().contains("not implemented"));
    let error = PipelinePlanner::select(
        &full(),
        &h264(),
        PipelinePolicy { output_codec: VideoCodec::Hevc, output_bit_depth: 10, ..Default::default() },
    )
    .unwrap_err();
    assert!(error.to_string().contains("without a conversion path"));
}

#[test]
fn av1_10bit_output_is_independent_of_av1_8bit_and_hevc_main10() {
    let input = main10_input(VideoCodec::Av1);
    let policy = PipelinePolicy { output_codec: VideoCodec::Av1, output_bit_depth: 10, ..Default::default() };
    let mut caps = full();
    let output = PipelinePlanner::select(&caps, &input, policy.clone()).unwrap().selected.output;
    assert_eq!(output.profile, Some(VideoProfile::Av1Main));
    assert_eq!(output.pixel_format, PixelFormat::P010Le);
    assert_eq!(output.bit_depth, 10);

    caps.interop.set_output_for_requirements(&output, no("AV1 P010 import"));
    let staged = PipelinePlanner::select(&caps, &input, policy.clone()).unwrap().selected;
    assert!(staged.hardware_upload);
    assert!(!staged.hardware_output_interop);
    assert!(caps.interop.p010_output.is_supported());
    assert!(caps.interop.av1_output.is_supported());
    assert!(PipelinePlanner::select(&caps, &input, PipelinePolicy { output_interop: InteropRequest::On, ..policy.clone() })
        .unwrap_err()
        .to_string()
        .contains("AV1 P010 import"));

    caps.media.disable_encode_output(&output, "AV1 10-bit encoder failed");
    assert!(PipelinePlanner::select(&caps, &input, policy)
        .unwrap_err()
        .to_string()
        .contains("AV1 10-bit encoder failed"));
    assert!(caps.media.av1_vaapi_encode.is_supported());
    assert!(caps.media.hevc_main10_vaapi_encode.is_supported());
}
