use asciiflow::args::{Args, AudioArg, BackendArg, InteropArg, MediaArg, VulkanMappingArg};
use asciiflow::audio::AudioPolicy;
use asciiflow::backend::{FrameSource, SourceTimings};
use asciiflow::cancellation::CancellationToken;
use asciiflow::config::ProcessingBackend;
use asciiflow::error::{Error, PipelineStage, Result};
use asciiflow::frame::{ColorSpace, FrameDesc, HostFrame, VideoFrame};
use asciiflow::init::InitCapability;
use asciiflow::planner::policy::{InteropRequest, MediaRequest};
use asciiflow::session::{
    ensure_not_cancelled, failure_exit_code, is_cancellation, require_two_slots,
    temporary_output_name, vulkan_frame_slots, LimitedSource,
};

fn args(charset: &str) -> Args {
    Args {
        input: "in.mp4".into(),
        output: Some("out.mp4".into()),
        backend: BackendArg::Auto,
        vulkan_mapping: VulkanMappingArg::Auto,
        decode: MediaArg::Auto,
        encode: MediaArg::Auto,
        audio: AudioArg::Auto,
        hw_device: None,
        vaapi_vulkan_input_interop: InteropArg::Auto,
        vaapi_vulkan_output_interop: InteropArg::Auto,
        explain_plan: false,
        capabilities: false,
        width: 160,
        height: None,
        charset: charset.into(),
        font: "builtin-8x8".into(),
        font_face_index: 0,
        color: true,
        max_frames: 0,
        no_progress: false,
        verbose: false,
    }
}

#[test]
fn named_charsets_resolve_and_others_are_literal() {
    assert_eq!(args("standard").resolved_charset(), "@%#*+=-:. ");
    assert_eq!(
        args("detailed").resolved_charset(),
        "$@B%8&WM#*oahkbdpqwmZO0QLCJUYXzcvunxrjft/\\|()1{}[]?-_+~<>i!lI;:,\"^`'. "
    );
    assert_eq!(args("#. ").resolved_charset(), "#. ");
}

#[test]
fn option_values_map_onto_policy_requests() {
    assert_eq!(AudioPolicy::from(AudioArg::Disabled), AudioPolicy::Disabled);
    assert_eq!(AudioPolicy::from(AudioArg::Copy), AudioPolicy::Copy);
    assert_eq!(MediaRequest::from(MediaArg::Vaapi), MediaRequest::Hardware);
    assert_eq!(MediaRequest::from(MediaArg::Software), MediaRequest::Software);
    assert_eq!(ProcessingBackend::from(BackendArg::Vulkan), ProcessingBackend::Vulkan);
    assert_eq!(InteropRequest::from(InteropArg::Off), InteropRequest::Off);
}

#[test]
fn cancellation_is_found_inside_staged_errors() {
    let wrapped = Error::pipeline(PipelineStage::Drain, "drain processor", Error::Cancelled);
    assert!(is_cancellation(&wrapped));
    assert_eq!(failure_exit_code(&wrapped), 130);
    let other = Error::Media("boom".into());
    assert!(!is_cancellation(&other));
    assert_eq!(failure_exit_code(&other), 1);
}

#[test]
fn a_cancelled_token_stops_the_run() {
    let token = CancellationToken::new();
    assert!(ensure_not_cancelled(&token).is_ok());
    token.clone().cancel();
    assert!(matches!(ensure_not_cancelled(&token), Err(Error::Cancelled)));
}

#[test]
fn frame_slot_setting_accepts_only_one_or_two() {
    assert_eq!(vulkan_frame_slots(None), Ok(2));
    assert_eq!(vulkan_frame_slots(Some("2")), Ok(2));
    assert_eq!(vulkan_frame_slots(Some("1")), Ok(1));
    assert_eq!(vulkan_frame_slots(Some("3")), Err("ASCIIFLOW_VULKAN_FRAME_SLOTS must be 1 or 2, got 3".to_string()));
    assert!(require_two_slots("full interop", None).is_ok());
    let one = require_two_slots("full interop", Some("1")).unwrap_err();
    assert_eq!(one.capability, InitCapability::Configuration);
    assert_eq!(one.source, "full interop requires the validated two-slot Vulkan configuration");
    assert_eq!(
        one.to_string(),
        "planning: validate execution configuration failed: full interop requires the validated two-slot Vulkan configuration"
    );
    let bad = require_two_slots("input interop", Some("x")).unwrap_err();
    assert_eq!(bad.source, "ASCIIFLOW_VULKAN_FRAME_SLOTS must be 1 or 2, got x");
}

#[test]
fn temporary_output_names_are_unique_and_support_bare_file_names() {
    let first = temporary_output_name("output", 42, 1_700_000_000_000_000_000, 0);
    let second = temporary_output_name("output", 42, 1_700_000_000_000_000_000, 1);
    assert_ne!(first, second);
    assert_eq!(first, ".output.asciiflow-part-42-1700000000000000000-0.mp4");
}

struct Counter {
    next: i64,
}

impl FrameSource for Counter {
    fn next_frame(&mut self) -> Result<Option<VideoFrame>> {
        let desc = FrameDesc::host_nv12(2, 2, ColorSpace::default())?;
        let frame = VideoFrame::new_host(desc.clone(), Some(self.next), HostFrame::new_zeroed(&desc))?;
        self.next += 1;
        Ok(Some(frame))
    }
}

#[test]
fn limited_source_stops_after_the_frame_limit() {
    let mut limited = LimitedSource::new(Counter { next: 0 }, 2);
    assert_eq!(limited.next_frame().unwrap().unwrap().pts(), Some(0));
    assert_eq!(limited.next_frame().unwrap().unwrap().pts(), Some(1));
    assert!(limited.next_frame().unwrap().is_none());
    assert!(limited.next_frame().unwrap().is_none());
    let mut unlimited = LimitedSource::new(Counter { next: 0 }, 0);
    for expected in 0..5 {
        assert_eq!(unlimited.next_frame().unwrap().unwrap().pts(), Some(expected));
    }
}

use asciiflow::args::cell_tile_size;

#[test]
fn option_combinations_are_checked_in_order() {
    let mut a = args("standard");
    assert!(a.check_options(true, false).is_ok());
    assert_eq!(a.check_options(false, false).unwrap_err(), "the current output container is MP4; use an .mp4 path");
    assert_eq!(a.check_options(true, true).unwrap_err(), "input and output must be different paths");
    a.output = None;
    assert_eq!(
        a.check_options(false, false).unwrap_err(),
        "output path is required unless --capabilities or --explain-plan is used"
    );
    a.capabilities = true;
    assert!(a.check_options(false, true).is_ok());
    a.backend = BackendArg::Cpu;
    a.vulkan_mapping = VulkanMappingArg::Gpu;
    assert_eq!(a.check_options(false, false).unwrap_err(), "--vulkan-mapping requires --backend auto or --backend vulkan");
    a.backend = BackendArg::Auto;
    a.vulkan_mapping = VulkanMappingArg::Cpu;
    a.vaapi_vulkan_output_interop = InteropArg::On;
    assert_eq!(
        a.check_options(false, false).unwrap_err(),
        "hardware interop cannot be combined with diagnostic CPU Vulkan mapping"
    );
}

#[test]
fn options_become_config_and_policy() {
    let mut a = args("detailed");
    a.width = 80;
    a.height = Some(30);
    a.color = false;
    a.decode = MediaArg::Software;
    a.vulkan_mapping = VulkanMappingArg::Cpu;
    a.vaapi_vulkan_input_interop = InteropArg::On;
    let config = a.ascii_config();
    assert_eq!((config.grid_width, config.grid_height, config.color), (80, Some(30), false));
    assert_eq!(config.charset.chars().count(), 70);
    let policy = a.pipeline_policy();
    assert_eq!(policy.decode, MediaRequest::Software);
    assert_eq!(policy.input_interop, InteropRequest::Off);
    assert_eq!(policy.output_interop, InteropRequest::Off);
    assert_eq!(cell_tile_size(1920, 1080, 160, 90), (12, 12));
    assert_eq!(cell_tile_size(1921, 1081, 160, 90), (13, 13));
}

struct Measured;

impl FrameSource for Measured {
    fn next_frame(&mut self) -> Result<Option<VideoFrame>> {
        Ok(None)
    }

    fn finish(&mut self) -> Result<()> {
        Err(Error::Media("flush failed".to_string()))
    }

    fn take_timings(&mut self) -> SourceTimings {
        SourceTimings { packet_submit: 3, frame_receive: 5, hardware_download: 7 }
    }
}

#[test]
fn limited_source_forwards_finish_and_timings() {
    let mut limited = LimitedSource::new(Measured, 4);
    let timings = limited.take_timings();
    assert_eq!((timings.packet_submit, timings.frame_receive, timings.hardware_download), (3, 5, 7));
    assert!(matches!(limited.finish(), Err(Error::Media(ref m)) if m == "flush failed"));
    assert_eq!(limited.remaining, Some(4));
}
