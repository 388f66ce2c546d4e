use asciiflow::config::ProcessingBackend;
use asciiflow::error::Error;
use asciiflow::frame::{ColorSpace, PixelFormat, Rational};
use asciiflow::init::{
    initialize_with_replan, FactoryHooks, InitCapability, InitializationFailure,
    InitializationFaultInjector, InitializationPoint,
};
use asciiflow::planner::caps::{
    CapabilitySnapshot, CapabilitySupport, InteropCapabilities, MediaCapabilities,
    ProcessingCapabilities, VideoCodec, VideoProfile, VulkanDeviceKind,
};
use asciiflow::planner::planning::PipelinePlanner;
use asciiflow::planner::policy::{
    InteropRequest, MediaImplementation, MediaRequest, PipelinePlan, PipelinePolicy, PixelPath,
};
use asciiflow::planner::requirements::{ChromaSubsampling, InputRequirements};
use asciiflow::session::{failure_exit_code, is_cancellation};
use asciiflow::report::{
    audio_summary_line, capability_report_lines, input_report_lines, media_plan_line, media_plan_stages, rejected_lines,
};

fn supported() -> CapabilitySupport {
    CapabilitySupport::Supported
}

fn full_capabilities() -> CapabilitySnapshot {
    CapabilitySnapshot {
        media: MediaCapabilities {
            software_decode: supported(),
            software_encode: supported(),
            vaapi_device: supported(),
            h264_vaapi_decode: supported(),
            hevc_vaapi_decode: supported(),
            av1_vaapi_decode: supported(),
            h264_vaapi_encode: supported(),
            hevc_vaapi_encode: supported(),
            hevc_main10_vaapi_decode: supported(),
            av1_10bit_vaapi_decode: supported(),
            hevc_main10_vaapi_encode: supported(),
            av1_vaapi_encode: supported(),
            av1_10bit_vaapi_encode: supported(),
            nv12_hardware_frames: supported(),
            nv12_hardware_upload: supported(),
            p010_hardware_frames: supported(),
            p010_hardware_upload: supported(),
        },
        processing: ProcessingCapabilities {
            cpu: supported(),
            vulkan: supported(),
            vulkan_auto_eligible: true,
            vulkan_device_name: Some("synthetic GPU".into()),
            vulkan_device_kind: Some(VulkanDeviceKind::IntegratedGpu),
            compute_queue: supported(),
            storage_buffer_8bit: supported(),
            shader_int64: supported(),
            synchronization2: supported(),
        },
        interop: InteropCapabilities {
            input: supported(),
            hevc_input: supported(),
            av1_input: supported(),
            output: supported(),
            hevc_output: supported(),
            av1_output: supported(),
            p010_input: supported(),
            p010_output: supported(),
            av1_p010_output: supported(),
        },
    }
}

fn requirements() -> InputRequirements {
    InputRequirements {
        codec: VideoCodec::H264,
        profile: Some(VideoProfile::from_name("High")),
        pixel_format: Some("yuv420p".into()),
        bit_depth: Some(8),
        chroma_subsampling: ChromaSubsampling::Yuv420,
        width: 1920,
        height: 1080,
        frame_rate: Rational::new(50, 1).unwrap(),
        color_space: ColorSpace::default(),
        color_semantics: None,
    }
}

fn main10_requirements() -> InputRequirements {
    let mut input = requirements();
    input.codec = VideoCodec::Hevc;
    input.profile = Some(VideoProfile::HevcMain10);
    input.pixel_format = Some("yuv420p10le".into());
    input.bit_depth = Some(10);
    input
}

fn injected(capability: InitCapability, message: &'static str) -> InitializationFailure {
    InitializationFailure::new(capability, message.to_string())
}

#[test]
fn only_auto_policy_fields_are_eligible_for_initialization_replan() {
    let automatic = PipelinePolicy::default();
    assert!(InitCapability::HardwareDecode.is_auto(&automatic));
    assert!(InitCapability::HardwareEncode.is_auto(&automatic));
    assert!(InitCapability::Vulkan.is_auto(&automatic));
    assert!(InitCapability::InputInterop.is_auto(&automatic));
    assert!(InitCapability::OutputInterop.is_auto(&automatic));

    let explicit = PipelinePolicy {
        backend: ProcessingBackend::Vulkan,
        decode: MediaRequest::Hardware,
        encode: MediaRequest::Hardware,
        input_interop: InteropRequest::On,
        output_interop: InteropRequest::On,
        output_codec: VideoCodec::H264,
        output_bit_depth: 8,
    };
    assert!(!InitCapability::HardwareDecode.is_auto(&explicit));
    assert!(!InitCapability::HardwareEncode.is_auto(&explicit));
    assert!(!InitCapability::Vulkan.is_auto(&explicit));
    assert!(!InitCapability::InputInterop.is_auto(&explicit));
    assert!(!InitCapability::OutputInterop.is_auto(&explicit));
}

#[test]
fn cooperative_cancellation_maps_to_sigint_exit_contract() {
    let error = Error::Cancelled;
    assert!(is_cancellation(&error));
    assert_eq!(failure_exit_code(&error), 130);
}

#[test]
fn every_initialization_fault_point_is_deterministic_and_single_shot() {
    let plan = PipelinePlanner::select(&full_capabilities(), &requirements(), PipelinePolicy::default())
        .unwrap()
        .selected;
    let points = [
        InitializationPoint::DecoderCreate,
        InitializationPoint::VaapiFramesPoolCreate,
        InitializationPoint::InputDrmPrimeMap,
        InitializationPoint::InputDmaBufImport,
        InitializationPoint::VulkanProcessorCreate,
        InitializationPoint::OutputVaapiFrameAcquire,
        InitializationPoint::OutputDrmPrimeMap,
        InitializationPoint::OutputDmaBufImport,
        InitializationPoint::EncoderCreate,
        InitializationPoint::MuxerCreate,
    ];
    for point in points {
        let mut injector = InitializationFaultInjector::new(point);
        let first = injector.checkpoint(point, &plan).unwrap_err();
        assert!(first.to_string().contains(point.operation()));
        assert!(injector.checkpoint(point, &plan).is_ok());
    }
}

#[test]
fn input_interop_failure_replans_to_software_decode_without_hwdownload() {
    let policy = PipelinePolicy::default();
    let requirements = requirements();
    let mut snapshot = full_capabilities();
    let initial = PipelinePlanner::select(&snapshot, &requirements, policy.clone()).unwrap();
    let mut attempt = 0;
    let initialized = initialize_with_replan(
        &mut snapshot,
        &requirements,
        policy,
        initial,
        |plan: &PipelinePlan| {
            attempt += 1;
            if attempt == 1 {
                Err(injected(InitCapability::InputInterop, "injected input DMA-BUF import failure"))
            } else {
                Ok(plan.clone())
            }
        },
        || Ok(()),
    )
    .unwrap();
    assert_eq!(attempt, 2);
    assert_eq!(initialized.value.decode, MediaImplementation::Software);
    assert!(!initialized.value.hardware_download);
    assert!(initialized.value.hardware_output_interop);
    assert!(snapshot.interop.input.unavailable_reason().is_some());
    assert!(snapshot.interop.output.is_supported());
}

#[test]
fn output_interop_failure_keeps_vaapi_encode_via_host_upload() {
    let policy = PipelinePolicy::default();
    let requirements = requirements();
    let mut snapshot = full_capabilities();
    let initial = PipelinePlanner::select(&snapshot, &requirements, policy.clone()).unwrap();
    let mut attempt = 0;
    let initialized = initialize_with_replan(
        &mut snapshot,
        &requirements,
        policy,
        initial,
        |plan: &PipelinePlan| {
            attempt += 1;
            if attempt == 1 {
                Err(injected(InitCapability::OutputInterop, "injected output DMA-BUF import failure"))
            } else {
                Ok(plan.clone())
            }
        },
        || Ok(()),
    )
    .unwrap();
    assert_eq!(initialized.value.pixel_path, PixelPath::PartiallyStaged);
    assert!(initialized.value.hardware_input_interop);
    assert!(initialized.value.hardware_upload);
    assert_eq!(initialized.value.encode, MediaImplementation::Hardware);
    assert!(snapshot.interop.input.is_supported());
    assert!(snapshot.media.h264_vaapi_encode.is_supported());
}

#[test]
fn hevc_output_interop_failure_replans_only_hevc_to_staged_encode() {
    let policy = PipelinePolicy { output_codec: VideoCodec::Hevc, ..Default::default() };
    let requirements = requirements();
    let mut snapshot = full_capabilities();
    let initial = PipelinePlanner::select(&snapshot, &requirements, policy.clone()).unwrap();
    let mut attempt = 0;
    let initialized = initialize_with_replan(
        &mut snapshot,
        &requirements,
        policy,
        initial,
        |plan: &PipelinePlan| {
            attempt += 1;
            if attempt == 1 {
                Err(injected(InitCapability::OutputInterop, "injected HEVC output DMA-BUF import failure"))
            } else {
                Ok(plan.clone())
            }
        },
        || Ok(()),
    )
    .unwrap();
    assert_eq!(attempt, 2);
    assert_eq!(initialized.value.output.codec, VideoCodec::Hevc);
    assert!(initialized.value.hardware_upload);
    assert!(!initialized.value.hardware_output_interop);
    assert!(snapshot.interop.output.is_supported());
    assert!(!snapshot.interop.hevc_output.is_supported());
    assert!(snapshot.media.hevc_vaapi_encode.is_supported());
}

#[test]
fn av1_output_interop_failure_replans_only_av1_to_staged_encode() {
    let policy = PipelinePolicy { output_codec: VideoCodec::Av1, ..Default::default() };
    let requirements = requirements();
    let mut snapshot = full_capabilities();
    let initial = PipelinePlanner::select(&snapshot, &requirements, policy.clone()).unwrap();
    let mut attempts = 0;
    let initialized = initialize_with_replan(
        &mut snapshot,
        &requirements,
        policy,
        initial,
        |plan: &PipelinePlan| {
            attempts += 1;
            if attempts == 1 {
                Err(injected(InitCapability::OutputInterop, "injected AV1 output DMA-BUF import failure"))
            } else {
                Ok(plan.clone())
            }
        },
        || Ok(()),
    )
    .unwrap();
    assert_eq!(attempts, 2);
    assert_eq!(initialized.value.output.codec, VideoCodec::Av1);
    assert!(initialized.value.hardware_upload);
    assert!(!initialized.value.hardware_output_interop);
    assert!(!snapshot.interop.av1_output.is_supported());
    assert!(snapshot.interop.output.is_supported());
    assert!(snapshot.interop.hevc_output.is_supported());
    assert!(snapshot.media.av1_vaapi_encode.is_supported());
}

#[test]
fn main10_output_interop_init_failure_replans_to_p010_staged_only() {
    let policy = PipelinePolicy { output_codec: VideoCodec::Hevc, output_bit_depth: 10, ..Default::default() };
    let requirements = main10_requirements();
    for point in [
        InitializationPoint::OutputVaapiFrameAcquire,
        InitializationPoint::OutputDrmPrimeMap,
        InitializationPoint::OutputDmaBufImport,
    ] {
        let mut snapshot = full_capabilities();
        let initial = PipelinePlanner::select(&snapshot, &requirements, policy.clone()).unwrap();
        assert!(initial.selected.hardware_output_interop);
        let capability = point.capability(&initial.selected);
        let mut attempts = 0;
        let initialized = initialize_with_replan(
            &mut snapshot,
            &requirements,
            policy.clone(),
            initial,
            |plan: &PipelinePlan| {
                attempts += 1;
                if attempts == 1 {
                    Err(injected(capability, "injected P010 output initialization failure"))
                } else {
                    Ok(plan.clone())
                }
            },
            || Ok(()),
        )
        .unwrap();
        assert_eq!(attempts, 2);
        assert_eq!(initialized.value.output.profile, Some(VideoProfile::HevcMain10));
        assert_eq!(initialized.value.output.pixel_format, PixelFormat::P010Le);
        assert!(initialized.value.hardware_upload);
        assert!(!initialized.value.hardware_output_interop);
        assert!(!snapshot.interop.p010_output.is_supported());
        assert!(snapshot.interop.hevc_output.is_supported());
    }
}

#[test]
fn main10_encoder_init_failure_is_terminal_and_does_not_disable_main8() {
    let policy = PipelinePolicy { output_codec: VideoCodec::Hevc, output_bit_depth: 10, ..Default::default() };
    let requirements = main10_requirements();
    for point in [InitializationPoint::EncoderCreate, InitializationPoint::VaapiFramesPoolCreate] {
        let mut snapshot = full_capabilities();
        let initial = PipelinePlanner::select(&snapshot, &requirements, policy.clone()).unwrap();
        let capability = point.capability(&initial.selected);
        let error = initialize_with_replan(
            &mut snapshot,
            &requirements,
            policy.clone(),
            initial,
            |_: &PipelinePlan| Err::<(), _>(injected(capability, "injected Main10 encoder/pool failure")),
            || Ok(()),
        )
        .unwrap_err();
        assert!(error.to_string().contains("Main10 encoder/pool failure"));
        assert!(!snapshot.media.hevc_main10_vaapi_encode.is_supported());
        assert!(snapshot.media.hevc_vaapi_encode.is_supported());
        assert!(snapshot.media.h264_vaapi_encode.is_supported());
    }
}

#[test]
fn av1_10bit_initialization_failures_preserve_codec_and_main8_facts() {
    let policy = PipelinePolicy { output_codec: VideoCodec::Av1, output_bit_depth: 10, ..Default::default() };
    let requirements = main10_requirements();
    for point in [
        InitializationPoint::OutputVaapiFrameAcquire,
        InitializationPoint::OutputDrmPrimeMap,
        InitializationPoint::OutputDmaBufImport,
    ] {
        let mut snapshot = full_capabilities();
        let initial = PipelinePlanner::select(&snapshot, &requirements, policy.clone()).unwrap();
        assert!(initial.selected.hardware_output_interop);
        let capability = point.capability(&initial.selected);
        let mut attempts = 0;
        let initialized = initialize_with_replan(
            &mut snapshot,
            &requirements,
            policy.clone(),
            initial,
            |plan: &PipelinePlan| {
                attempts += 1;
                if attempts == 1 {
                    Err(injected(capability, "injected AV1 P010 interop failure"))
                } else {
                    Ok(plan.clone())
                }
            },
            || Ok(()),
        )
        .unwrap();
        assert_eq!(attempts, 2);
        assert_eq!(initialized.value.output.codec, VideoCodec::Av1);
        assert_eq!(initialized.value.output.bit_depth, 10);
        assert!(initialized.value.hardware_upload);
        assert!(!snapshot.interop.av1_p010_output.is_supported());
        assert!(snapshot.interop.p010_output.is_supported());
    }

    for point in [InitializationPoint::EncoderCreate, InitializationPoint::VaapiFramesPoolCreate] {
        let mut snapshot = full_capabilities();
        let initial = PipelinePlanner::select(&snapshot, &requirements, policy.clone()).unwrap();
        let capability = point.capability(&initial.selected);
        let error = initialize_with_replan(
            &mut snapshot,
            &requirements,
            policy.clone(),
            initial,
            |_: &PipelinePlan| Err::<(), _>(injected(capability, "injected AV1 10-bit encoder failure")),
            || Ok(()),
        )
        .unwrap_err();
        assert!(error.to_string().contains("AV1 10-bit encoder failure"));
        assert!(!snapshot.media.av1_10bit_vaapi_encode.is_supported());
        assert!(snapshot.media.av1_vaapi_encode.is_supported());
        assert!(snapshot.media.hevc_main10_vaapi_encode.is_supported());
    }
}

#[test]
fn hevc_encoder_or_frames_pool_failure_never_changes_output_codec() {
    for capability in [
        InitCapability::HardwareEncode,
        InitializationPoint::VaapiFramesPoolCreate.capability(
            &PipelinePlanner::select(
                &full_capabilities(),
                &requirements(),
                PipelinePolicy { output_codec: VideoCodec::Hevc, ..Default::default() },
            )
            .unwrap()
            .selected,
        ),
    ] {
        let policy = PipelinePolicy { output_codec: VideoCodec::Hevc, ..Default::default() };
        let requirements = requirements();
        let mut snapshot = full_capabilities();
        let initial = PipelinePlanner::select(&snapshot, &requirements, policy.clone()).unwrap();
        let error = initialize_with_replan(
            &mut snapshot,
            &requirements,
            policy,
            initial,
            |_: &PipelinePlan| Err::<(), _>(injected(capability, "injected HEVC encoder initialization failure")),
            || Ok(()),
        )
        .unwrap_err();
        assert!(error.to_string().contains("HEVC"));
        assert!(snapshot.media.h264_vaapi_encode.is_supported());
        assert!(!snapshot.media.hevc_vaapi_encode.is_supported());
    }
}

#[test]
fn av1_encoder_or_frames_pool_failure_is_terminal_without_codec_fallback() {
    let policy = PipelinePolicy { output_codec: VideoCodec::Av1, ..Default::default() };
    for capability in [
        InitCapability::HardwareEncode,
        InitializationPoint::VaapiFramesPoolCreate.capability(
            &PipelinePlanner::select(&full_capabilities(), &requirements(), policy.clone()).unwrap().selected,
        ),
    ] {
        let requirements = requirements();
        let mut snapshot = full_capabilities();
        let initial = PipelinePlanner::select(&snapshot, &requirements, policy.clone()).unwrap();
        let error = initialize_with_replan(
            &mut snapshot,
            &requirements,
            policy.clone(),
            initial,
            |_: &PipelinePlan| Err::<(), _>(injected(capability, "injected AV1 encoder initialization failure")),
            || Ok(()),
        )
        .unwrap_err();
        assert!(error.to_string().contains("AV1"));
        assert!(!snapshot.media.av1_vaapi_encode.is_supported());
        assert!(snapshot.media.h264_vaapi_encode.is_supported());
        assert!(snapshot.media.hevc_vaapi_encode.is_supported());
    }
}

#[test]
fn new_codec_input_replan_leaves_other_codecs_available() {
    for (codec, profile) in [(VideoCodec::Hevc, VideoProfile::HevcMain), (VideoCodec::Av1, VideoProfile::Av1Main)] {
        let mut req = requirements();
        req.codec = codec.clone();
        req.profile = Some(profile);
        let mut snapshot = full_capabilities();
        let initial = PipelinePlanner::select(&snapshot, &req, Default::default()).unwrap();
        let mut attempts = 0;
        let result = initialize_with_replan(
            &mut snapshot,
            &req,
            Default::default(),
            initial,
            |plan: &PipelinePlan| {
                attempts += 1;
                if attempts == 1 {
                    Err(injected(InitCapability::InputInterop, "new codec input import failed"))
                } else {
                    Ok(plan.clone())
                }
            },
            || Ok(()),
        )
        .unwrap();
        assert_eq!(attempts, 2);
        assert_eq!(result.value.decode, MediaImplementation::Software);
        assert!(!snapshot.interop.input_for(&codec).is_supported());
        assert!(snapshot.interop.input.is_supported());
        assert!(snapshot.media.decode_for(&codec).is_supported());
    }
}

#[test]
fn automatic_decoder_vulkan_and_encoder_failures_replan_once() {
    type PlanCheck = fn(&PipelinePlan) -> bool;
    let cases: [(InitCapability, PlanCheck); 3] = [
        (InitCapability::HardwareDecode, |plan: &PipelinePlan| plan.decode == MediaImplementation::Software),
        (InitCapability::Vulkan, |plan: &PipelinePlan| plan.backend == ProcessingBackend::Cpu),
        (InitCapability::HardwareEncode, |plan: &PipelinePlan| plan.encode == MediaImplementation::Software),
    ];
    for (failure, verify) in cases {
        let policy = PipelinePolicy::default();
        let requirements = requirements();
        let mut snapshot = full_capabilities();
        let initial = PipelinePlanner::select(&snapshot, &requirements, policy.clone()).unwrap();
        let mut attempt = 0;
        let initialized = initialize_with_replan(
            &mut snapshot,
            &requirements,
            policy,
            initial,
            |plan: &PipelinePlan| {
                attempt += 1;
                if attempt == 1 {
                    Err(injected(failure, "injected initialization failure"))
                } else {
                    Ok(plan.clone())
                }
            },
            || Ok(()),
        )
        .unwrap();
        assert_eq!(attempt, 2);
        assert!(verify(&initialized.value));
    }
}

#[test]
fn explicit_initialization_failure_never_replans() {
    let policy = PipelinePolicy { decode: MediaRequest::Hardware, ..PipelinePolicy::default() };
    let requirements = requirements();
    let mut snapshot = full_capabilities();
    let initial = PipelinePlanner::select(&snapshot, &requirements, policy.clone()).unwrap();
    let mut attempts = 0;
    let error = initialize_with_replan(
        &mut snapshot,
        &requirements,
        policy,
        initial,
        |_: &PipelinePlan| {
            attempts += 1;
            Err::<(), _>(injected(InitCapability::HardwareDecode, "injected explicit decoder failure"))
        },
        || Ok(()),
    )
    .unwrap_err();
    assert_eq!(attempts, 1);
    assert!(error.to_string().contains("decoder initialization"));
}

#[test]
fn second_initialization_failure_is_terminal_and_explains_both_plans() {
    let policy = PipelinePolicy::default();
    let requirements = requirements();
    let mut snapshot = full_capabilities();
    let initial = PipelinePlanner::select(&snapshot, &requirements, policy.clone()).unwrap();
    let mut attempts = 0;
    let error = initialize_with_replan(
        &mut snapshot,
        &requirements,
        policy,
        initial,
        |_: &PipelinePlan| {
            attempts += 1;
            Err::<(), _>(if attempts == 1 {
                injected(InitCapability::InputInterop, "first injected failure")
            } else {
                injected(InitCapability::SoftwareDecode, "second injected failure")
            })
        },
        || Ok(()),
    )
    .unwrap_err();
    assert_eq!(attempts, 2);
    let message = error.to_string();
    assert!(message.contains("initial plan:"));
    assert!(message.contains("first injected failure"));
    assert!(message.contains("replanned plan:"));
    assert!(message.contains("second injected failure"));
}

#[test]
fn failures_name_their_stage_and_operation() {
    let failure = injected(InitCapability::Vulkan, "no device");
    assert_eq!(failure.to_string(), "processor initialization: create Vulkan ASCII processor failed: no device");
    let mut injector = InitializationFaultInjector::new(InitializationPoint::MuxerCreate);
    let plan = PipelinePlanner::select(&full_capabilities(), &requirements(), PipelinePolicy::default())
        .unwrap()
        .selected;
    assert!(injector.checkpoint(InitializationPoint::EncoderCreate, &plan).is_ok());
    let fired = injector.checkpoint(InitializationPoint::MuxerCreate, &plan).unwrap_err();
    assert_eq!(fired.to_string(), "mux initialization: create MP4 muxer failed: deterministic injected failure at muxer create");
}

#[test]
fn vulkan_failure_marks_only_the_processor_unavailable() {
    let mut snapshot = full_capabilities();
    let before = snapshot.clone();
    let plan = PipelinePlanner::select(&snapshot, &requirements(), PipelinePolicy::default()).unwrap().selected;
    InitCapability::Vulkan.mark_unsupported(&mut snapshot, &requirements(), &plan.output, "gone");
    assert_eq!(snapshot.processing.vulkan, CapabilitySupport::Unsupported("gone".into()));
    assert!(!snapshot.processing.vulkan_auto_eligible);
    assert_eq!(snapshot.media, before.media);
    assert_eq!(snapshot.interop, before.interop);
    let mut unchanged = full_capabilities();
    InitCapability::Muxer.mark_unsupported(&mut unchanged, &requirements(), &plan.output, "gone");
    assert_eq!(unchanged, before);
}

#[test]
fn staging_reset_failure_stops_the_replan() {
    let mut snapshot = full_capabilities();
    let initial = PipelinePlanner::select(&snapshot, &requirements(), PipelinePolicy::default()).unwrap();
    let mut attempts = 0;
    let error = initialize_with_replan(
        &mut snapshot,
        &requirements(),
        PipelinePolicy::default(),
        initial,
        |_: &PipelinePlan| {
            attempts += 1;
            Err::<(), _>(injected(InitCapability::Vulkan, "lost"))
        },
        || Err("permission denied".to_string()),
    )
    .unwrap_err();
    assert_eq!(attempts, 1);
    assert_eq!(error, "initialization replan: clean failed staging output: permission denied");
    assert!(!snapshot.processing.vulkan.is_supported());
}

#[test]
fn replan_without_a_legal_plan_explains_the_first_failure() {
    let mut snapshot = full_capabilities();
    snapshot.processing.cpu = CapabilitySupport::unsupported("no CPU path");
    let initial = PipelinePlanner::select(&snapshot, &requirements(), PipelinePolicy::default()).unwrap();
    let error = initialize_with_replan(
        &mut snapshot,
        &requirements(),
        PipelinePolicy::default(),
        initial,
        |_: &PipelinePlan| Err::<(), _>(injected(InitCapability::Vulkan, "lost")),
        || Ok(()),
    )
    .unwrap_err();
    assert!(error.starts_with("pipeline initialization could not find a legal automatic replan\ninitial plan: "));
    assert!(error.contains("\nfirst failure: processor initialization: create Vulkan ASCII processor failed: lost\nreplan failure: "));
}

#[test]
fn successful_first_build_keeps_the_initial_decision() {
    let mut snapshot = full_capabilities();
    let initial = PipelinePlanner::select(&snapshot, &requirements(), PipelinePolicy::default()).unwrap();
    let expected = initial.clone();
    let initialized = initialize_with_replan(
        &mut snapshot,
        &requirements(),
        PipelinePolicy::default(),
        initial,
        |plan: &PipelinePlan| Ok::<_, InitializationFailure>(plan.steps.len()),
        || Ok(()),
    )
    .unwrap();
    assert_eq!(initialized.decision, expected);
    assert!(initialized.replan.is_none());
    assert_eq!(snapshot, full_capabilities());
}

use asciiflow::args::VulkanMappingArg;
use asciiflow::error::PipelineStage;
use asciiflow::init::{
    decode_capability, encoder_failure_capability, initialization_points, processor_layout, ProcessorKind,
};

#[test]
fn gpu_resident_plans_pass_every_interop_checkpoint_in_order() {
    let plan = PipelinePlanner::select(&full_capabilities(), &requirements(), PipelinePolicy::default())
        .unwrap()
        .selected;
    assert_eq!(
        initialization_points(&plan),
        vec![
            InitializationPoint::DecoderCreate,
            InitializationPoint::VulkanProcessorCreate,
            InitializationPoint::EncoderCreate,
            InitializationPoint::MuxerCreate,
            InitializationPoint::VaapiFramesPoolCreate,
            InitializationPoint::InputDrmPrimeMap,
            InitializationPoint::InputDmaBufImport,
            InitializationPoint::OutputVaapiFrameAcquire,
            InitializationPoint::OutputDrmPrimeMap,
            InitializationPoint::OutputDmaBufImport,
        ]
    );
    assert_eq!(decode_capability(&plan), InitCapability::HardwareDecode);
    assert_eq!(encoder_failure_capability(&plan, Some(PipelineStage::MuxInitialization)), InitCapability::Muxer);
    assert_eq!(encoder_failure_capability(&plan, None), InitCapability::HardwareEncode);
    let layout = processor_layout(&plan, VulkanMappingArg::Auto, None).unwrap();
    assert_eq!(layout.kind, ProcessorKind::FullInterop);
    assert_eq!(layout.mapping_strategy, Some("GPU + DMA-BUF input/output"));
    assert_eq!(layout.gpu_slots, Some(2));
    let refused = processor_layout(&plan, VulkanMappingArg::Auto, Some("1")).unwrap_err();
    assert_eq!(refused.capability, InitCapability::Configuration);
    assert_eq!(refused.source, "full interop requires the validated two-slot Vulkan configuration");
}

#[test]
fn cpu_and_staged_plans_choose_their_processor() {
    let cpu_policy = PipelinePolicy { backend: ProcessingBackend::Cpu, ..PipelinePolicy::default() };
    let cpu = PipelinePlanner::select(&full_capabilities(), &requirements(), cpu_policy).unwrap().selected;
    assert_eq!(processor_layout(&cpu, VulkanMappingArg::Auto, Some("junk")).unwrap().kind, ProcessorKind::Cpu);
    assert_eq!(
        initialization_points(&cpu),
        vec![
            InitializationPoint::DecoderCreate,
            InitializationPoint::EncoderCreate,
            InitializationPoint::MuxerCreate,
            InitializationPoint::VaapiFramesPoolCreate,
        ]
    );
    let staged_policy = PipelinePolicy {
        input_interop: InteropRequest::Off,
        output_interop: InteropRequest::Off,
        ..PipelinePolicy::default()
    };
    let staged = PipelinePlanner::select(&full_capabilities(), &requirements(), staged_policy).unwrap().selected;
    assert_eq!(staged.backend, ProcessingBackend::Vulkan);
    assert_eq!(processor_layout(&staged, VulkanMappingArg::Auto, None).unwrap().kind, ProcessorKind::PipelinedGpu);
    let single = processor_layout(&staged, VulkanMappingArg::Gpu, Some("1")).unwrap();
    assert_eq!((single.kind, single.gpu_slots), (ProcessorKind::Gpu, Some(1)));
    let hybrid = processor_layout(&staged, VulkanMappingArg::Cpu, Some("junk")).unwrap();
    assert_eq!((hybrid.kind, hybrid.mapping_strategy), (ProcessorKind::HybridCpuMapping, Some("CPU")));
    let bad = processor_layout(&staged, VulkanMappingArg::Auto, Some("4")).unwrap_err();
    assert_eq!(bad.source, "ASCIIFLOW_VULKAN_FRAME_SLOTS must be 1 or 2, got 4");
}

#[test]
fn capability_report_lists_every_section() {
    let mut snapshot = full_capabilities();
    snapshot.interop.input = CapabilitySupport::Unsupported("no DMA-BUF import".into());
    let lines = capability_report_lines(&snapshot, &requirements());
    assert_eq!(lines[0], "Video decode:");
    assert_eq!(lines[1], "  software decode: supported");
    assert_eq!(lines[8], "Video encode:");
    assert_eq!(lines[11], "  HEVC Main 8-bit 4:2:0 software: unsupported (not implemented)");
    assert!(lines.contains(&"  device: synthetic GPU".to_string()));
    assert!(lines.contains(&"  auto eligible: true".to_string()));
    assert!(lines.contains(&"  VAAPI -> Vulkan (this stream): unsupported (no DMA-BUF import)".to_string()));
    assert_eq!(lines.last().unwrap(), "  Vulkan -> VAAPI AV1 P010 output: supported");
    assert_eq!(lines.len(), 37);
}

#[test]
fn rejected_report_names_each_candidate_and_reason() {
    let snapshot = full_capabilities();
    let mut policy = PipelinePolicy::default();
    policy.backend = ProcessingBackend::Cpu;
    let decision = PipelinePlanner::select(&snapshot, &requirements(), policy).unwrap();
    let lines = rejected_lines(&decision);
    assert_eq!(lines[0], "Rejected candidates:");
    let mut expected = vec!["Rejected candidates:".to_string()];
    for rejection in &decision.rejected {
        expected.push(format!("  - {}", rejection.candidate));
        for reason in &rejection.reasons {
            expected.push(format!("      {reason}"));
        }
    }
    if decision.rejected.is_empty() {
        expected.push("  (none)".to_string());
    }
    assert_eq!(lines, expected);
}

#[test]
fn input_report_names_codec_format_rate_and_color() {
    let lines = input_report_lines(&requirements());
    assert_eq!(lines[0], "Input:");
    assert_eq!(lines[1], format!("  codec/profile: H264 / Some({:?})", VideoProfile::from_name("High")));
    assert_eq!(lines[2], "  format: yuv420p · 8-bit · Yuv420 · 1920x1080");
    assert_eq!(lines[3], format!("  frame rate: 50/1 · color: {:?}", ColorSpace::default()));
    let mut unknown = requirements();
    unknown.pixel_format = None;
    unknown.bit_depth = None;
    assert_eq!(input_report_lines(&unknown)[2], "  format: unknown · unknown bit depth · Yuv420 · 1920x1080");
}

#[test]
fn media_plan_names_each_transfer_on_the_host_and_mapped_paths() {
    let mut plan = PipelinePlanner::select(&full_capabilities(), &requirements(), PipelinePolicy::default())
        .unwrap()
        .selected;
    plan.decode = MediaImplementation::Hardware;
    plan.encode = MediaImplementation::Hardware;
    plan.backend = ProcessingBackend::Vulkan;
    plan.hardware_input_interop = true;
    plan.hardware_output_interop = true;
    assert_eq!(
        media_plan_line(&plan, PixelFormat::Nv12),
        "Media plan：VAAPI decode → DRM PRIME direct map → DMA-BUF external image → GPU image→buffer copy → Vulkan ASCII → DRM PRIME WRITE direct map → DMA-BUF writable external image → GPU buffer→image copy → VAAPI encode"
    );
    plan.hardware_input_interop = false;
    plan.hardware_output_interop = false;
    plan.hardware_download = true;
    plan.hardware_upload = true;
    assert_eq!(
        media_plan_stages(&plan, PixelFormat::P010Le),
        vec!["VAAPI decode", "hwdownload", "Host P010LE", "Vulkan ASCII", "Host P010LE", "hwupload", "VAAPI encode"]
    );
    plan.decode = MediaImplementation::Software;
    plan.encode = MediaImplementation::Software;
    plan.backend = ProcessingBackend::Cpu;
    plan.hardware_download = false;
    plan.hardware_upload = false;
    assert_eq!(
        media_plan_line(&plan, PixelFormat::Nv12),
        "Media plan：software decode → Host NV12 → CPU ASCII → Host NV12 → software encode"
    );
}

#[test]
fn audio_summary_counts_passthrough_streams() {
    assert_eq!(audio_summary_line(0), "Audio：none");
    assert_eq!(audio_summary_line(2), "Audio：2 compressed stream(s) → packet passthrough → MP4 mux");
}
