use asciiflow::config::ProcessingBackend;
use asciiflow::frame::{ColorSpace, Rational};
use asciiflow::planner::caps::{
    CapabilitySnapshot, CapabilitySupport, InteropCapabilities, MediaCapabilities,
    ProcessingCapabilities, VideoCodec, VideoProfile, VulkanDeviceKind,
};
use asciiflow::planner::planning::PipelinePlanner;
use asciiflow::planner::policy::{InteropRequest, MediaImplementation, MediaRequest, PipelinePolicy};
use asciiflow::planner::requirements::{ChromaSubsampling, InputRequirements};
use asciiflow::probe::{inject_probe_failure, ProbeFaultPoint};

fn supported() -> CapabilitySupport {
    CapabilitySupport::supported()
}

fn full_snapshot() -> CapabilitySnapshot {
    CapabilitySnapshot {
        media: MediaCapabilities {
            software_decode: supported(),
            software_encode: supported(),
            vaapi_device: supported(),
            h264_vaapi_decode: supported(),
            hevc_vaapi_decode: supported(),
            av1_vaapi_decode: supported(),
            h264_vaapi_encode: supported(),
            hevc_vaapi_encode: supported(),
            hevc_main10_vaapi_decode: supported(),
            av1_10bit_vaapi_decode: supported(),
            hevc_main10_vaapi_encode: supported(),
            av1_vaapi_encode: supported(),
            av1_10bit_vaapi_encode: supported(),
            nv12_hardware_frames: supported(),
            nv12_hardware_upload: supported(),
            p010_hardware_frames: supported(),
            p010_hardware_upload: supported(),
        },
        processing: ProcessingCapabilities {
            cpu: supported(),
            vulkan: supported(),
            vulkan_auto_eligible: true,
            vulkan_device_name: Some("synthetic GPU".into()),
            vulkan_device_kind: Some(VulkanDeviceKind::IntegratedGpu),
            compute_queue: supported(),
            storage_buffer_8bit: supported(),
            shader_int64: supported(),
            synchronization2: supported(),
        },
        interop: InteropCapabilities {
            input: supported(),
            hevc_input: supported(),
            av1_input: supported(),
            output: supported(),
            hevc_output: supported(),
            av1_output: supported(),
            p010_input: supported(),
            p010_output: supported(),
            av1_p010_output: supported(),
        },
    }
}

fn requirements() -> InputRequirements {
    InputRequirements {
        codec: VideoCodec::H264,
        profile: Some(VideoProfile::from_name("High")),
        pixel_format: Some("yuv420p".into()),
        bit_depth: Some(8),
        chroma_subsampling: ChromaSubsampling::Yuv420,
        width: 1920,
        height: 1080,
        frame_rate: Rational::new(50, 1).unwrap(),
        color_space: ColorSpace::default(),
        color_semantics: None,
    }
}

#[test]
fn probe_faults_degrade_auto_without_panicking_or_poisoning_unrelated_facts() {
    for point in [
        ProbeFaultPoint::VaapiDevice,
        ProbeFaultPoint::VulkanLoader,
        ProbeFaultPoint::InputInteropQualification,
        ProbeFaultPoint::OutputInteropQualification,
    ] {
        let mut snapshot = full_snapshot();
        inject_probe_failure(&mut snapshot, point);
        let selected = PipelinePlanner::select(&snapshot, &requirements(), PipelinePolicy::default())
            .unwrap()
            .selected;
        match point {
            ProbeFaultPoint::VaapiDevice => {
                assert_eq!(selected.decode, MediaImplementation::Software);
                assert_eq!(selected.encode, MediaImplementation::Software);
                assert!(snapshot.processing.vulkan.is_supported());
            }
            ProbeFaultPoint::VulkanLoader => {
                assert_eq!(selected.backend, ProcessingBackend::Cpu);
                assert!(snapshot.media.vaapi_device.is_supported());
            }
            ProbeFaultPoint::InputInteropQualification => {
                assert!(!selected.hardware_input_interop);
                assert!(snapshot.interop.output.is_supported());
            }
            ProbeFaultPoint::OutputInteropQualification => {
                assert!(!selected.hardware_output_interop);
                assert!(snapshot.interop.input.is_supported());
            }
        }
    }
}

#[test]
fn explicit_policy_reports_probe_failure_during_planning() {
    let cases = [
        (ProbeFaultPoint::VaapiDevice, PipelinePolicy { decode: MediaRequest::Hardware, ..PipelinePolicy::default() }),
        (ProbeFaultPoint::VulkanLoader, PipelinePolicy { backend: ProcessingBackend::Vulkan, ..PipelinePolicy::default() }),
        (
            ProbeFaultPoint::InputInteropQualification,
            PipelinePolicy { input_interop: InteropRequest::On, ..PipelinePolicy::default() },
        ),
        (
            ProbeFaultPoint::OutputInteropQualification,
            PipelinePolicy { output_interop: InteropRequest::On, ..PipelinePolicy::default() },
        ),
    ];
    for (point, policy) in cases {
        let mut snapshot = full_snapshot();
        inject_probe_failure(&mut snapshot, point);
        let error = PipelinePlanner::select(&snapshot, &requirements(), policy).unwrap_err();
        assert!(error.to_string().contains("injected"));
    }
}

#[test]
fn vaapi_probe_failure_reasons_are_exact() {
    let mut snapshot = full_snapshot();
    inject_probe_failure(&mut snapshot, ProbeFaultPoint::VaapiDevice);
    assert_eq!(
        snapshot.media.vaapi_device,
        CapabilitySupport::Unsupported("injected capability probe failure: open VAAPI device".into())
    );
    assert_eq!(snapshot.media.hevc_vaapi_encode, CapabilitySupport::NotProbed("VAAPI device probe failed".into()));
    assert_eq!(snapshot.interop.av1_p010_output, CapabilitySupport::NotProbed("VAAPI device probe failed".into()));
    assert!(snapshot.media.software_decode.is_supported());
}
