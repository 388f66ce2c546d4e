use asciiflow::audio::{AudioPlan, AudioPolicy, AudioStreamPlan, SkippedAudioStream};
use asciiflow::planner::caps::CapabilitySupport;
use asciiflow::report::{audio_plan_lines, fact_line};

#[test]
fn fact_lines_name_the_reason() {
    assert_eq!(fact_line("VAAPI device", &CapabilitySupport::Supported), "  VAAPI device: supported");
    assert_eq!(
        fact_line("VAAPI device", &CapabilitySupport::Unsupported("no /dev/dri".to_string())),
        "  VAAPI device: unsupported (no /dev/dri)"
    );
    assert_eq!(
        fact_line("Vulkan", &CapabilitySupport::NotProbed("disabled".to_string())),
        "  Vulkan: not probed (disabled)"
    );
}

#[test]
fn audio_plan_lines_list_copied_and_skipped_streams() {
    let plan = AudioPlan {
        policy: AudioPolicy::Auto,
        selected: vec![AudioStreamPlan { input_index: 1, codec: "aac".to_string(), language: None, default: true }],
        skipped: vec![SkippedAudioStream { input_index: 2, codec: "dts".to_string(), reason: "not MP4-compatible".to_string() }],
    };
    assert_eq!(
        audio_plan_lines(&plan),
        vec![
            "Audio plan: Auto".to_string(),
            "  input stream #1: aac · language unknown · default true → compressed packet copy".to_string(),
            "  skipped input stream #2 (dts): not MP4-compatible".to_string(),
        ]
    );
    let none = AudioPlan { policy: AudioPolicy::Disabled, selected: vec![], skipped: vec![] };
    assert_eq!(
        audio_plan_lines(&none),
        vec!["Audio plan: None".to_string(), "  no audio streams will be copied".to_string()]
    );
}
