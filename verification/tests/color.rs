use asciiflow::color::{
    ColorError, ColorMetadataRaw, ColorProvenance, ColorRational, ColorResolutionPolicy,
    ColorSupportReason, ContentLightLevelMetadata, DynamicRangeClass, MasteringDisplayMetadata,
    ResolvedColorSemantics,
};
use asciiflow::frame::{ColorMatrix, ColorPrimaries, ColorRange, ColorSpace, TransferCharacteristic};

#[test]
fn depth_does_not_classify_hdr_and_wide_gamut_sdr_is_not_hdr() {
    let mut raw = ColorMetadataRaw { space: ColorSpace::default(), ..ColorMetadataRaw::unspecified() };
    let sdr = ResolvedColorSemantics::resolve(raw, ColorMetadataRaw::unspecified(), ColorResolutionPolicy::StrictTenBit).unwrap();
    assert_eq!(sdr.dynamic_range, DynamicRangeClass::Sdr);
    assert_eq!(sdr.support, Ok(()));
    raw.space.primaries = ColorPrimaries::Bt2020;
    raw.space.matrix = ColorMatrix::Bt2020;
    let wide = ResolvedColorSemantics::resolve(raw, ColorMetadataRaw::unspecified(), ColorResolutionPolicy::StrictTenBit).unwrap();
    assert_eq!(wide.dynamic_range, DynamicRangeClass::Sdr);
    assert_eq!(wide.support, Err(ColorSupportReason::UnsupportedWideGamutSdr));
    raw.space.transfer = TransferCharacteristic::Pq;
    let pq = ResolvedColorSemantics::resolve(raw, ColorMetadataRaw::unspecified(), ColorResolutionPolicy::StrictTenBit).unwrap();
    assert_eq!(pq.dynamic_range, DynamicRangeClass::HdrPq);
    raw.space.transfer = TransferCharacteristic::Hlg;
    let hlg = ResolvedColorSemantics::resolve(raw, ColorMetadataRaw::unspecified(), ColorResolutionPolicy::StrictTenBit).unwrap();
    assert_eq!(hlg.dynamic_range, DynamicRangeClass::HdrHlg);
}

#[test]
fn unspecified_and_conflicting_facts_are_not_silently_sdr() {
    let raw = ColorMetadataRaw::unspecified();
    let strict = ResolvedColorSemantics::resolve(raw, raw, ColorResolutionPolicy::StrictTenBit).unwrap();
    assert_eq!(strict.dynamic_range, DynamicRangeClass::Unknown);
    let legacy = ResolvedColorSemantics::resolve(raw, raw, ColorResolutionPolicy::LegacyEightBit).unwrap();
    assert_eq!(legacy.provenance.transfer, ColorProvenance::LegacyDefault);
    let mut frame = raw;
    frame.space.transfer = TransferCharacteristic::Pq;
    let mut stream = raw;
    stream.space.transfer = TransferCharacteristic::Bt709;
    let conflicting = ResolvedColorSemantics::resolve(stream, frame, ColorResolutionPolicy::StrictTenBit).unwrap();
    assert_eq!(conflicting.dynamic_range, DynamicRangeClass::Conflicting);
    assert_eq!(conflicting.support, Err(ColorSupportReason::Conflicting));
}

#[test]
fn frame_fills_missing_stream_fields_without_erasing_raw_signal() {
    let mut stream = ColorMetadataRaw::unspecified();
    stream.space.transfer = TransferCharacteristic::Bt709;
    let mut frame = ColorMetadataRaw::unspecified();
    frame.space.primaries = ColorPrimaries::Bt709;
    frame.space.matrix = ColorMatrix::Bt709;
    frame.space.range = ColorRange::Limited;
    let resolved = ResolvedColorSemantics::resolve(stream, frame, ColorResolutionPolicy::StrictTenBit).unwrap();
    assert_eq!(resolved.provenance.transfer, ColorProvenance::Stream);
    assert_eq!(resolved.provenance.primaries, ColorProvenance::Frame);
    assert_eq!(resolved.stream.space.primaries, ColorPrimaries::Unspecified);
    assert_eq!(resolved.effective.primaries, ColorPrimaries::Bt709);
}

#[test]
fn mid_stream_sdr_to_pq_change_is_rejected() {
    let first = ColorMetadataRaw { space: ColorSpace::default(), ..ColorMetadataRaw::unspecified() };
    let first = ResolvedColorSemantics::resolve(first, ColorMetadataRaw::unspecified(), ColorResolutionPolicy::StrictTenBit).unwrap();
    let mut changed = ColorMetadataRaw::unspecified();
    changed.space.transfer = TransferCharacteristic::Pq;
    let next = ResolvedColorSemantics::resolve(first.stream, changed, ColorResolutionPolicy::StrictTenBit).unwrap();
    assert_eq!(first.ensure_stable(next), Err(ColorError::MidStreamColorMetadataChange));
}

#[test]
fn partial_signals_do_not_default_in_strict_mode() {
    let raw = ColorMetadataRaw::unspecified();
    for field in 0..3 {
        let mut partial = raw;
        match field {
            0 => partial.space.transfer = TransferCharacteristic::Bt709,
            1 => partial.space.primaries = ColorPrimaries::Bt709,
            _ => partial.space.matrix = ColorMatrix::Bt709,
        }
        let resolved = ResolvedColorSemantics::resolve(partial, raw, ColorResolutionPolicy::StrictTenBit).unwrap();
        assert_eq!(resolved.dynamic_range, DynamicRangeClass::Unknown);
        assert_eq!(resolved.support, Err(ColorSupportReason::Unknown));
    }
}

#[test]
fn hdr_transfer_is_not_overridden_by_legacy_defaults() {
    let mut raw = ColorMetadataRaw::unspecified();
    raw.space.transfer = TransferCharacteristic::Pq;
    let pq = ResolvedColorSemantics::resolve(raw, ColorMetadataRaw::unspecified(), ColorResolutionPolicy::LegacyEightBit).unwrap();
    assert_eq!(pq.dynamic_range, DynamicRangeClass::HdrPq);
    assert_eq!(pq.support, Err(ColorSupportReason::UnsupportedHdrPq));
    raw.space.transfer = TransferCharacteristic::Hlg;
    let hlg = ResolvedColorSemantics::resolve(raw, ColorMetadataRaw::unspecified(), ColorResolutionPolicy::LegacyEightBit).unwrap();
    assert_eq!(hlg.dynamic_range, DynamicRangeClass::HdrHlg);
    assert_eq!(hlg.support, Err(ColorSupportReason::UnsupportedHdrHlg));
}

#[test]
fn p3_srgb_is_sdr_but_not_a_supported_gamut() {
    let mut raw = ColorMetadataRaw::unspecified();
    raw.space.primaries = ColorPrimaries::DisplayP3;
    raw.space.transfer = TransferCharacteristic::Srgb;
    raw.space.matrix = ColorMatrix::Bt709;
    let color = ResolvedColorSemantics::resolve(raw, ColorMetadataRaw::unspecified(), ColorResolutionPolicy::StrictTenBit).unwrap();
    assert_eq!(color.dynamic_range, DynamicRangeClass::Sdr);
    assert_eq!(color.support, Err(ColorSupportReason::UnsupportedWideGamutSdr));
}

#[test]
fn contradictory_static_metadata_sources_are_conflicting() {
    let mut stream = ColorMetadataRaw { space: ColorSpace::default(), ..ColorMetadataRaw::unspecified() };
    let mut frame = ColorMetadataRaw::unspecified();
    stream.content_light = Some(ContentLightLevelMetadata { max_cll: Some(1000), max_fall: Some(400) });
    frame.content_light = Some(ContentLightLevelMetadata { max_cll: Some(1200), max_fall: Some(400) });
    let color = ResolvedColorSemantics::resolve(stream, frame, ColorResolutionPolicy::StrictTenBit).unwrap();
    assert_eq!(color.dynamic_range, DynamicRangeClass::Conflicting);
    assert_eq!(color.support, Err(ColorSupportReason::Conflicting));
}

#[test]
fn mastering_rationals_validate_without_float_roundtrip() {
    let good = MasteringDisplayMetadata {
        display_primaries: Some(
            [[
                ColorRational { numerator: 34_000, denominator: 50_000 },
                ColorRational { numerator: 16_000, denominator: 50_000 },
            ]; 3],
        ),
        white_point: Some([ColorRational { numerator: 15_635, denominator: 50_000 }; 2]),
        min_luminance: Some(ColorRational { numerator: 50, denominator: 10_000 }),
        max_luminance: Some(ColorRational { numerator: 10_000_000, denominator: 10_000 }),
    };
    assert_eq!(good.validate(), Ok(good));
    let mut bad = good;
    bad.max_luminance = Some(ColorRational { numerator: 1, denominator: 0 });
    assert_eq!(bad.validate(), Err(ColorError::MalformedMasteringMetadata));
    bad.max_luminance = Some(ColorRational { numerator: 1, denominator: 1 });
    bad.min_luminance = Some(ColorRational { numerator: 2, denominator: 1 });
    assert_eq!(bad.validate(), Err(ColorError::MalformedMasteringMetadata));
    bad = good;
    bad.white_point = Some([ColorRational { numerator: 2, denominator: 1 }; 2]);
    assert_eq!(bad.validate(), Err(ColorError::MalformedMasteringMetadata));
}

#[test]
fn resolution_keeps_both_raw_sources_unchanged() {
    let mut stream = ColorMetadataRaw::unspecified();
    stream.space.transfer = TransferCharacteristic::Pq;
    let mut frame = ColorMetadataRaw::unspecified();
    frame.space.primaries = ColorPrimaries::Bt2020;
    let resolved = ResolvedColorSemantics::resolve(stream, frame, ColorResolutionPolicy::StrictTenBit).unwrap();
    assert_eq!(resolved.stream, stream);
    assert_eq!(resolved.frame, frame);
    assert_eq!(resolved.support, Err(ColorSupportReason::UnsupportedHdrPq));
}
