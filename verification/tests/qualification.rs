use asciiflow::config::ProcessingBackend;
use asciiflow::frame::{ColorRange, ColorSpace, PixelFormat, Rational, TransferCharacteristic};
use asciiflow::planner::caps::{CapabilitySupport, VideoCodec, VideoProfile};
use asciiflow::planner::policy::{InteropRequest, MediaImplementation, MediaRequest, PixelPath};
use asciiflow::planner::requirements::{ChromaSubsampling, InputRequirements};
use asciiflow::qualification::{
    InputProcessingCapabilities, InputProcessingDomain, InputProcessingPlanner, InputProcessingPolicy,
};

fn input(codec: VideoCodec, profile: VideoProfile) -> InputRequirements {
    InputRequirements {
        codec,
        profile: Some(profile),
        pixel_format: Some("yuv420p10le".into()),
        bit_depth: Some(10),
        chroma_subsampling: ChromaSubsampling::Yuv420,
        width: 1920,
        height: 1080,
        frame_rate: Rational::new(30, 1).unwrap(),
        color_space: ColorSpace::default(),
        color_semantics: None,
    }
}

fn full() -> InputProcessingCapabilities {
    let supported = CapabilitySupport::supported;
    InputProcessingCapabilities {
        hevc_main10_vaapi_decode: supported(),
        av1_main10_vaapi_decode: supported(),
        hevc_main10_input_interop: supported(),
        av1_main10_input_interop: supported(),
        vulkan_p010: supported(),
    }
}

#[test]
fn auto_selects_gpu_resident_then_software_when_only_p010_interop_fails() {
    let hevc = input(VideoCodec::Hevc, VideoProfile::HevcMain10);
    let av1 = input(VideoCodec::Av1, VideoProfile::Av1Main);
    let mut capabilities = full();
    let selected = InputProcessingPlanner::select(&capabilities, &hevc, Default::default()).unwrap();
    assert_eq!(selected.pixel_path, PixelPath::GpuResident);
    assert_eq!(selected.decode, MediaImplementation::Hardware);
    assert_eq!(selected.decoded_domain, InputProcessingDomain::HardwareP010);
    assert_eq!(selected.processing_domain, InputProcessingDomain::VulkanP010Buffer);
    assert_eq!(selected.output_domain, InputProcessingDomain::HostP010);
    capabilities.disable_interop(&hevc, "R16 modifier cannot be imported");
    let replanned = InputProcessingPlanner::select(&capabilities, &hevc, Default::default()).unwrap();
    assert_eq!(replanned.decode, MediaImplementation::Software);
    assert_eq!(replanned.decoded_domain, InputProcessingDomain::HostP010);
    assert!(!replanned.hardware_download);
    assert_eq!(replanned.backend, ProcessingBackend::Vulkan);
    assert_eq!(
        InputProcessingPlanner::select(&capabilities, &av1, Default::default()).unwrap().pixel_path,
        PixelPath::GpuResident
    );
    assert!(capabilities.hevc_main10_vaapi_decode.is_supported());
}

#[test]
fn explicit_decode_can_stage_but_explicit_interop_never_falls_back() {
    let hevc = input(VideoCodec::Hevc, VideoProfile::HevcMain10);
    let mut capabilities = full();
    capabilities.disable_interop(&hevc, "import failed");
    let staged = InputProcessingPlanner::select(
        &capabilities,
        &hevc,
        InputProcessingPolicy { decode: MediaRequest::Hardware, ..Default::default() },
    )
    .unwrap();
    assert!(staged.hardware_download);
    assert_eq!(staged.pixel_path, PixelPath::PartiallyStaged);
    let strict = InputProcessingPlanner::select(
        &capabilities,
        &hevc,
        InputProcessingPolicy { input_interop: InteropRequest::On, ..Default::default() },
    );
    assert!(strict.unwrap_err().to_string().contains("explicit P010 input interop"));
}

#[test]
fn vulkan_unavailable_uses_cpu_unless_explicit() {
    let av1 = input(VideoCodec::Av1, VideoProfile::Av1Main);
    let mut capabilities = full();
    capabilities.vulkan_p010 = CapabilitySupport::unsupported("16-bit storage unavailable");
    let auto = InputProcessingPlanner::select(&capabilities, &av1, Default::default()).unwrap();
    assert_eq!(auto.backend, ProcessingBackend::Cpu);
    assert_eq!(auto.decode, MediaImplementation::Software);
    assert!(InputProcessingPlanner::select(
        &capabilities,
        &av1,
        InputProcessingPolicy { backend: ProcessingBackend::Vulkan, ..Default::default() }
    )
    .is_err());
}

#[test]
fn ten_bit_input_requires_known_sdr_color_profile_and_420() {
    let mut hevc = input(VideoCodec::Hevc, VideoProfile::HevcMain10);
    assert_eq!(hevc.validate_processing_input().unwrap(), PixelFormat::P010Le);
    hevc.color_space.transfer = TransferCharacteristic::Pq;
    assert!(hevc.validate_processing_input().unwrap_err().to_string().contains("BT.709 SDR"));
    hevc.color_space.transfer = TransferCharacteristic::Unspecified;
    assert!(hevc.validate_processing_input().is_err());
    hevc.color_space.transfer = TransferCharacteristic::Bt709;
    hevc.color_space.range = ColorRange::Unspecified;
    assert!(hevc.validate_processing_input().is_err());
    hevc.color_space.range = ColorRange::Limited;
    hevc.chroma_subsampling = ChromaSubsampling::Other;
    assert!(hevc.validate_processing_input().is_err());
    hevc.chroma_subsampling = ChromaSubsampling::Yuv420;
    hevc.bit_depth = Some(12);
    assert!(hevc.validate_processing_input().is_err());
}
