use asciiflow::backend::EncodeDiagnostics;
use asciiflow::config::AsciiConfig;
use asciiflow::frame::{ColorSpace, FrameDesc, HostFrame, PixelFormat};
use asciiflow::glyph::glyph_lookup_table;

#[test]
fn sums_scopes_and_counters_but_keeps_peak_values() {
    const MS: u128 = 1_000_000;
    let mut total = EncodeDiagnostics {
        send_wall: 2 * MS,
        send_eagain: 1,
        max_send_retries: 2,
        submitted_frames: 3,
        peak_frame_packet_delta: 4,
        ..Default::default()
    };
    total.accumulate(EncodeDiagnostics {
        send_wall: 5 * MS,
        send_eagain: 3,
        max_send_retries: 1,
        submitted_frames: 7,
        peak_frame_packet_delta: 2,
        ..Default::default()
    });
    assert_eq!(total.send_wall, 7 * MS);
    assert_eq!(total.send_eagain, 4);
    assert_eq!(total.submitted_frames, 10);
    assert_eq!(total.max_send_retries, 2);
    assert_eq!(total.peak_frame_packet_delta, 4);
}

#[test]
fn ascii_width_boundaries_are_explicit_and_overwide_grids_are_clamped() {
    let mut config = AsciiConfig { grid_width: 1, ..AsciiConfig::default() };
    assert_eq!(config.resolved_grid(1920, 1080).unwrap(), (1, 1));
    config.grid_width = 4096;
    assert_eq!(config.resolved_grid(1920, 1080).unwrap().0, 1920);
    config.grid_width = 0;
    assert!(config.validate().is_err());
    config.grid_width = 8193;
    assert!(config.validate().is_err());
}

#[test]
fn default_grid_height_follows_the_frame_aspect() {
    let config = AsciiConfig::default();
    assert_eq!(config.resolved_grid(1920, 1080).unwrap(), (160, 90));
    assert!(config.resolved_grid(0, 1080).is_err());
}

#[test]
fn p010_le_layout_and_sample_packing() {
    for (width, height) in [(2, 2), (4, 4), (16, 16), (1920, 1080)] {
        let desc = FrameDesc::host_p010_le(width, height, ColorSpace::default()).unwrap();
        let pixels = width as usize * height as usize;
        assert_eq!(desc.y_stride(), width as usize * 2);
        assert_eq!(desc.uv_stride(), width as usize * 2);
        assert_eq!(desc.y_plane_len(), pixels * 2);
        assert_eq!(desc.uv_plane_len(), pixels);
        assert_eq!(desc.byte_len(), pixels * 3);
        let storage = HostFrame::new_zeroed(&desc);
        let (y, uv) = storage.planes(&desc);
        assert_eq!(y.len(), desc.y_plane_len());
        assert_eq!(uv.len(), desc.uv_plane_len());
    }
    for code in [0u16, 1, 2, 3, 4, 511, 512, 1020, 1023] {
        let bytes = (code << 6).to_le_bytes();
        let stored = u16::from_le_bytes(bytes);
        assert_eq!(stored >> 6, code);
        assert_eq!(stored & 0x003f, 0);
    }
}

#[test]
fn p010_le_rejects_invalid_geometry_size_and_mismatched_format() {
    for (width, height) in [(0, 2), (2, 0), (1, 2), (2, 3)] {
        assert!(FrameDesc::host_p010_le(width, height, ColorSpace::default()).is_err());
    }
    assert!(FrameDesc::host_p010_le(u32::MAX - 1, u32::MAX - 1, ColorSpace::default()).is_err());
    let desc = FrameDesc::host_p010_le(2, 2, ColorSpace::default()).unwrap();
    assert!(HostFrame::from_p010_le(&desc, vec![0; desc.byte_len() - 1]).is_err());
    assert!(HostFrame::from_nv12(&desc, vec![0; desc.byte_len()]).is_err());
    let mut altered = desc.clone();
    altered.format = PixelFormat::Nv12;
    assert!(HostFrame::from_bytes(&altered, vec![0; desc.byte_len()]).is_err());
}

#[test]
fn limited_range_endpoints_map_to_charset_endpoints() {
    let lut = glyph_lookup_table(10);
    assert_eq!(lut[0], 0);
    assert_eq!(lut[16], 0);
    assert_eq!(lut[235], 9);
    assert_eq!(lut[255], 9);
}

#[test]
fn lookup_table_matches_single_precision_smoothstep() {
    for count in [1usize, 2, 10, 70, 65535] {
        let lut = glyph_lookup_table(count);
        for value in 0..256usize {
            let normalized = (value as u8).saturating_sub(16) as f32 / 219.0;
            let clamped = normalized.clamp(0.0, 1.0);
            let curved = clamped * clamped * (3.0 - 2.0 * clamped);
            let expected = (curved * (count - 1) as f32).round() as u32;
            assert_eq!(lut[value], expected, "count {count} value {value}");
        }
    }
}

#[test]
fn lookup_table_is_monotone_bounded_and_single_precision_across_counts() {
    let counts = (1usize..=512).chain((513..=65535).step_by(331)).chain([65535]);
    for count in counts {
        let lut = glyph_lookup_table(count);
        for value in 0..256usize {
            let normalized = (value as u8).saturating_sub(16) as f32 / 219.0;
            let clamped = normalized.clamp(0.0, 1.0);
            let curved = clamped * clamped * (3.0 - 2.0 * clamped);
            assert_eq!(lut[value], (curved * (count - 1) as f32).round() as u32, "count {count} value {value}");
            assert!((lut[value] as usize) < count, "count {count} value {value}");
            if value > 0 {
                assert!(lut[value - 1] <= lut[value], "count {count} value {value}");
            }
        }
    }
}
