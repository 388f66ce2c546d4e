//! Signaled color facts, their resolution across stream and frame, and the
//! deliberately narrow SDR support policy.
//!
//! Pixel format and bit depth are not inputs to dynamic-range classification.

use vstd::prelude::*;
use crate::frame::{ChromaLocation, ColorMatrix, ColorPrimaries, ColorRange, ColorSpace, TransferCharacteristic};

verus! {

/// An exact rational as signaled by the container.
#[derive(Clone, Copy, Debug, PartialEq, Eq, Structural)]
pub struct ColorRational {
    pub numerator: i32,
    pub denominator: i32,
}

pub open spec fn nonnegative(r: ColorRational) -> bool {
    r.numerator >= 0 && r.denominator > 0
}

pub open spec fn unit_coordinate(r: ColorRational) -> bool {
    nonnegative(r) && r.numerator <= r.denominator
}

/// `a < b` by cross-multiplication (denominators taken as given).
pub open spec fn rational_less(a: ColorRational, b: ColorRational) -> bool {
    a.numerator * b.denominator < b.numerator * a.denominator
}

impl ColorRational {
    pub fn is_nonnegative(self) -> (b: bool)
        ensures
            b == nonnegative(self),
    {
        self.numerator >= 0 && self.denominator > 0
    }

    pub fn is_unit_coordinate(self) -> (b: bool)
        ensures
            b == unit_coordinate(self),
    {
        self.is_nonnegative() && self.numerator <= self.denominator
    }

    fn less_than(self, other: Self) -> (b: bool)
        ensures
            b == rational_less(self, other),
    {
        let a = self.numerator as i64;
        let bd = other.denominator as i64;
        let c = other.numerator as i64;
        let d = self.denominator as i64;
        assert(-0x8000_0000 * 0x8000_0000 <= a * bd <= 0x8000_0000 * 0x8000_0000) by (nonlinear_arith)
            requires -0x8000_0000 <= a <= 0x7fff_ffff, -0x8000_0000 <= bd <= 0x7fff_ffff;
        assert(-0x8000_0000 * 0x8000_0000 <= c * d <= 0x8000_0000 * 0x8000_0000) by (nonlinear_arith)
            requires -0x8000_0000 <= c <= 0x7fff_ffff, -0x8000_0000 <= d <= 0x7fff_ffff;
        a * bd < c * d
    }
}

/// Coordinates are CIE 1931 xy; luminances are cd/m². Rationals keep the
/// exact numerator and denominator.
#[derive(Clone, Copy, Debug, PartialEq, Eq)]
pub struct MasteringDisplayMetadata {
    pub display_primaries: Option<[[ColorRational; 2]; 3]>,
    pub white_point: Option<[ColorRational; 2]>,
    pub min_luminance: Option<ColorRational>,
    pub max_luminance: Option<ColorRational>,
}

/// Every primary coordinate lies in `[0, 1]`.
pub open spec fn primaries_unit(p: [[ColorRational; 2]; 3]) -> bool {
    forall|i: int, j: int| 0 <= i < 3 && 0 <= j < 2 ==> #[trigger] unit_coordinate(p[i][j])
}

pub open spec fn point_unit(w: [ColorRational; 2]) -> bool {
    unit_coordinate(w[0]) && unit_coordinate(w[1])
}

/// Well-formed mastering metadata: primaries and white point come together
/// and lie in the unit square; luminances come together, are non-negative,
/// the maximum is non-zero and not below the minimum.
pub open spec fn mastering_valid(m: MasteringDisplayMetadata) -> bool {
    &&& match m.display_primaries {
        Some(p) => primaries_unit(p) && (m.white_point matches Some(w) && point_unit(w)),
        None => m.white_point is None,
    }
    &&& match (m.min_luminance, m.max_luminance) {
        (Some(min), Some(max)) => nonnegative(min) && nonnegative(max) && max.numerator != 0
            && !rational_less(max, min),
        (None, None) => true,
        _ => false,
    }
}

fn point_is_unit(w: [ColorRational; 2]) -> (b: bool)
    ensures
        b == point_unit(w),
{
    w[0].is_unit_coordinate() && w[1].is_unit_coordinate()
}

fn primaries_are_unit(p: [[ColorRational; 2]; 3]) -> (b: bool)
    ensures
        b == primaries_unit(p),
{
    let mut i: usize = 0;
    while i < 3
        invariant
            i <= 3,
            forall|a: int, c: int| 0 <= a < i && 0 <= c < 2 ==> #[trigger] unit_coordinate(p[a][c]),
        decreases 3 - i,
    {
        if !point_is_unit(p[i]) {
            assert(!unit_coordinate(p[i as int][0]) || !unit_coordinate(p[i as int][1]));
            return false;
        }
        i = i + 1;
    }
    true
}

/// Why color metadata cannot be used.
#[derive(Clone, Copy, Debug, PartialEq, Eq, Structural)]
pub enum ColorError {
    MidStreamColorMetadataChange,
    MalformedMasteringMetadata,
    MalformedContentLightMetadata,
}

pub open spec fn color_error_text(e: ColorError) -> Seq<char> {
    match e {
        ColorError::MidStreamColorMetadataChange => "decoded color metadata changed after the first frame"@,
        ColorError::MalformedMasteringMetadata => "malformed mastering display metadata"@,
        ColorError::MalformedContentLightMetadata => "malformed content light metadata"@,
    }
}

impl ColorError {
    /// The error's message.
    pub fn to_string(&self) -> (s: String)
        ensures
            s@ == color_error_text(*self),
    {
        proof {
            reveal_strlit("decoded color metadata changed after the first frame");
            reveal_strlit("malformed mastering display metadata");
            reveal_strlit("malformed content light metadata");
        }
        match self {
            ColorError::MidStreamColorMetadataChange => String::from_str(
                "decoded color metadata changed after the first frame",
            ),
            ColorError::MalformedMasteringMetadata => String::from_str("malformed mastering display metadata"),
            ColorError::MalformedContentLightMetadata => String::from_str("malformed content light metadata"),
        }
    }
}

impl MasteringDisplayMetadata {
    /// The metadata itself when well formed.
    pub fn validate(self) -> (r: Result<Self, ColorError>)
        ensures
            mastering_valid(self) ==> r == Ok::<Self, ColorError>(self),
            !mastering_valid(self) ==> r == Err::<Self, ColorError>(ColorError::MalformedMasteringMetadata),
    {
        match self.display_primaries {
            Some(primaries) => {
                let white_ok = match self.white_point {
                    Some(w) => point_is_unit(w),
                    None => false,
                };
                if !primaries_are_unit(primaries) || !white_ok {
                    return Err(ColorError::MalformedMasteringMetadata);
                }
            },
            None => {
                if self.white_point.is_some() {
                    return Err(ColorError::MalformedMasteringMetadata);
                }
            },
        }
        match (self.min_luminance, self.max_luminance) {
            (Some(min), Some(max)) => {
                if !min.is_nonnegative() || !max.is_nonnegative() || max.numerator == 0 || max.less_than(min) {
                    return Err(ColorError::MalformedMasteringMetadata);
                }
            },
            (None, None) => {},
            _ => {
                return Err(ColorError::MalformedMasteringMetadata);
            },
        }
        Ok(self)
    }
}

fn same_point(a: [ColorRational; 2], b: [ColorRational; 2]) -> (r: bool)
    ensures
        r == (a == b),
{
    let r = a[0] == b[0] && a[1] == b[1];
    proof {
        if r {
            assert(a =~= b);
        }
    }
    r
}

fn same_primaries(a: [[ColorRational; 2]; 3], b: [[ColorRational; 2]; 3]) -> (r: bool)
    ensures
        r == (a == b),
{
    let r = same_point(a[0], b[0]) && same_point(a[1], b[1]) && same_point(a[2], b[2]);
    proof {
        if r {
            assert(a =~= b);
        }
    }
    r
}

fn same_rational_opt(a: Option<ColorRational>, b: Option<ColorRational>) -> (r: bool)
    ensures
        r == (a == b),
{
    match (a, b) {
        (Some(x), Some(y)) => x == y,
        (None, None) => true,
        _ => false,
    }
}

/// Exact equality of mastering metadata.
pub fn same_mastering(a: &MasteringDisplayMetadata, b: &MasteringDisplayMetadata) -> (r: bool)
    ensures
        r == (*a == *b),
{
    let p = match (a.display_primaries, b.display_primaries) {
        (Some(x), Some(y)) => same_primaries(x, y),
        (None, None) => true,
        _ => false,
    };
    let w = match (a.white_point, b.white_point) {
        (Some(x), Some(y)) => same_point(x, y),
        (None, None) => true,
        _ => false,
    };
    p && w && same_rational_opt(a.min_luminance, b.min_luminance)
        && same_rational_opt(a.max_luminance, b.max_luminance)
}

fn same_mastering_opt(a: Option<MasteringDisplayMetadata>, b: Option<MasteringDisplayMetadata>) -> (r: bool)
    ensures
        r == (a == b),
{
    match (a, b) {
        (Some(x), Some(y)) => same_mastering(&x, &y),
        (None, None) => true,
        _ => false,
    }
}

/// Content light levels in cd/m²; zero or absent values are `None`.
#[derive(Clone, Copy, Debug, PartialEq, Eq, Structural)]
pub struct ContentLightLevelMetadata {
    pub max_cll: Option<u32>,
    pub max_fall: Option<u32>,
}

/// Color facts as signaled by one source (stream or frame).
#[derive(Clone, Copy, Debug, PartialEq, Eq)]
pub struct ColorMetadataRaw {
    pub space: ColorSpace,
    pub mastering_display: Option<MasteringDisplayMetadata>,
    pub content_light: Option<ContentLightLevelMetadata>,
}

pub open spec fn unspecified_space() -> ColorSpace {
    ColorSpace {
        matrix: ColorMatrix::Unspecified,
        range: ColorRange::Unspecified,
        primaries: ColorPrimaries::Unspecified,
        transfer: TransferCharacteristic::Unspecified,
        chroma_location: ChromaLocation::Unspecified,
    }
}

impl ColorMetadataRaw {
    /// Nothing signaled.
    pub fn unspecified() -> (m: Self)
        ensures
            m.space == unspecified_space(),
            m.mastering_display is None,
            m.content_light is None,
    {
        ColorMetadataRaw {
            space: ColorSpace {
                matrix: ColorMatrix::Unspecified,
                range: ColorRange::Unspecified,
                primaries: ColorPrimaries::Unspecified,
                transfer: TransferCharacteristic::Unspecified,
                chroma_location: ChromaLocation::Unspecified,
            },
            mastering_display: None,
            content_light: None,
        }
    }
}

/// Where a resolved field came from.
#[derive(Clone, Copy, Debug, PartialEq, Eq, Structural)]
pub enum ColorProvenance {
    Frame,
    Stream,
    LegacyDefault,
    Unknown,
}

#[derive(Clone, Copy, Debug, PartialEq, Eq, Structural)]
pub struct ColorFieldProvenance {
    pub primaries: ColorProvenance,
    pub transfer: ColorProvenance,
    pub matrix: ColorProvenance,
    pub range: ColorProvenance,
}

#[derive(Clone, Copy, Debug, PartialEq, Eq, Structural)]
pub enum DynamicRangeClass {
    Sdr,
    HdrPq,
    HdrHlg,
    Unknown,
    Conflicting,
}

/// Why resolved color is outside the qualified processing contract.
#[derive(Clone, Copy, Debug, PartialEq, Eq, Structural)]
pub enum ColorSupportReason {
    UnsupportedHdrPq,
    UnsupportedHdrHlg,
    UnsupportedWideGamutSdr,
    Unknown,
    Conflicting,
    UnsupportedSdrProfile,
    UnsupportedFullRange,
}

pub open spec fn support_reason_text(r: ColorSupportReason) -> Seq<char> {
    match r {
        ColorSupportReason::UnsupportedHdrPq =>
            "HDR PQ input detected (SMPTE ST 2084); HDR processing is not implemented"@,
        ColorSupportReason::UnsupportedHdrHlg =>
            "HDR HLG input detected (ARIB STD-B67); HDR processing is not implemented"@,
        ColorSupportReason::UnsupportedWideGamutSdr =>
            "wide-gamut SDR input detected; BT.2020/P3 processing is not implemented"@,
        ColorSupportReason::Unknown => "color semantics cannot be resolved safely"@,
        ColorSupportReason::Conflicting => "conflicting color metadata cannot be processed"@,
        ColorSupportReason::UnsupportedSdrProfile =>
            "SDR color profile is outside the qualified processing contract"@,
        ColorSupportReason::UnsupportedFullRange =>
            "full-range input is not qualified: the ASCII renderer emits limited-range code values"@,
    }
}

impl ColorSupportReason {
    /// The reason's message.
    pub fn to_string(&self) -> (s: String)
        ensures
            s@ == support_reason_text(*self),
    {
        proof {
            reveal_strlit("HDR PQ input detected (SMPTE ST 2084); HDR processing is not implemented");
            reveal_strlit("HDR HLG input detected (ARIB STD-B67); HDR processing is not implemented");
            reveal_strlit("wide-gamut SDR input detected; BT.2020/P3 processing is not implemented");
            reveal_strlit("color semantics cannot be resolved safely");
            reveal_strlit("conflicting color metadata cannot be processed");
            reveal_strlit("SDR color profile is outside the qualified processing contract");
            reveal_strlit("full-range input is not qualified: the ASCII renderer emits limited-range code values");
        }
        let m = match self {
            ColorSupportReason::UnsupportedHdrPq =>
                "HDR PQ input detected (SMPTE ST 2084); HDR processing is not implemented",
            ColorSupportReason::UnsupportedHdrHlg =>
                "HDR HLG input detected (ARIB STD-B67); HDR processing is not implemented",
            ColorSupportReason::UnsupportedWideGamutSdr =>
                "wide-gamut SDR input detected; BT.2020/P3 processing is not implemented",
            ColorSupportReason::Unknown => "color semantics cannot be resolved safely",
            ColorSupportReason::Conflicting => "conflicting color metadata cannot be processed",
            ColorSupportReason::UnsupportedSdrProfile =>
                "SDR color profile is outside the qualified processing contract",
            ColorSupportReason::UnsupportedFullRange =>
                "full-range input is not qualified: the ASCII renderer emits limited-range code values",
        };
        String::from_str(m)
    }
}

/// How unsignaled fields are treated.
#[derive(Clone, Copy, Debug, PartialEq, Eq, Structural)]
pub enum ColorResolutionPolicy {
    /// Keep the 8-bit NV12 conversion's BT.709/limited output default.
    LegacyEightBit,
    /// P010 requires explicitly signaled BT.709 SDR fields.
    StrictTenBit,
}

/// Stream and frame facts, the effective color space, and the verdict.
#[derive(Clone, Copy, Debug, PartialEq, Eq)]
pub struct ResolvedColorSemantics {
    pub stream: ColorMetadataRaw,
    pub frame: ColorMetadataRaw,
    pub effective: ColorSpace,
    pub provenance: ColorFieldProvenance,
    pub dynamic_range: DynamicRangeClass,
    pub support: Result<(), ColorSupportReason>,
}

/// One field: the frame's value wins over the stream's; unsignaled fields
/// take the legacy default or stay unknown. Also reports whether both
/// sources signal different values.
pub open spec fn field_spec<T>(stream: T, frame: T, unspecified: T, fallback: T, policy: ColorResolutionPolicy)
    -> (T, ColorProvenance, bool)
{
    let conflict = stream != unspecified && frame != unspecified && stream != frame;
    if frame != unspecified {
        (frame, ColorProvenance::Frame, conflict)
    } else if stream != unspecified {
        (stream, ColorProvenance::Stream, conflict)
    } else if policy == ColorResolutionPolicy::LegacyEightBit {
        (fallback, ColorProvenance::LegacyDefault, conflict)
    } else {
        (unspecified, ColorProvenance::Unknown, conflict)
    }
}

fn field<T: Copy>(
    stream: T,
    frame: T,
    unspecified: T,
    fallback: T,
    policy: ColorResolutionPolicy,
    stream_set: bool,
    frame_set: bool,
    differ: bool,
) -> (r: (T, ColorProvenance, bool))
    requires
        stream_set == (stream != unspecified),
        frame_set == (frame != unspecified),
        differ == (stream != frame),
    ensures
        r == field_spec(stream, frame, unspecified, fallback, policy),
{
    let conflict = stream_set && frame_set && differ;
    if frame_set {
        (frame, ColorProvenance::Frame, conflict)
    } else if stream_set {
        (stream, ColorProvenance::Stream, conflict)
    } else if policy == ColorResolutionPolicy::LegacyEightBit {
        (fallback, ColorProvenance::LegacyDefault, conflict)
    } else {
        (unspecified, ColorProvenance::Unknown, conflict)
    }
}

pub open spec fn primaries_field(s: ColorMetadataRaw, f: ColorMetadataRaw, p: ColorResolutionPolicy)
    -> (ColorPrimaries, ColorProvenance, bool)
{
    field_spec(s.space.primaries, f.space.primaries, ColorPrimaries::Unspecified, ColorPrimaries::Bt709, p)
}

pub open spec fn transfer_field(s: ColorMetadataRaw, f: ColorMetadataRaw, p: ColorResolutionPolicy)
    -> (TransferCharacteristic, ColorProvenance, bool)
{
    field_spec(s.space.transfer, f.space.transfer, TransferCharacteristic::Unspecified,
        TransferCharacteristic::Bt709, p)
}

pub open spec fn matrix_field(s: ColorMetadataRaw, f: ColorMetadataRaw, p: ColorResolutionPolicy)
    -> (ColorMatrix, ColorProvenance, bool)
{
    field_spec(s.space.matrix, f.space.matrix, ColorMatrix::Unspecified, ColorMatrix::Bt709, p)
}

pub open spec fn range_field(s: ColorMetadataRaw, f: ColorMetadataRaw, p: ColorResolutionPolicy)
    -> (ColorRange, ColorProvenance, bool)
{
    field_spec(s.space.range, f.space.range, ColorRange::Unspecified, ColorRange::Limited, p)
}

pub open spec fn chroma_field(s: ColorMetadataRaw, f: ColorMetadataRaw, p: ColorResolutionPolicy)
    -> (ChromaLocation, ColorProvenance, bool)
{
    field_spec(s.space.chroma_location, f.space.chroma_location, ChromaLocation::Unspecified,
        ChromaLocation::Left, p)
}

/// The color space after resolving every field.
pub open spec fn effective_spec(s: ColorMetadataRaw, f: ColorMetadataRaw, p: ColorResolutionPolicy) -> ColorSpace {
    ColorSpace {
        primaries: primaries_field(s, f, p).0,
        transfer: transfer_field(s, f, p).0,
        matrix: matrix_field(s, f, p).0,
        range: range_field(s, f, p).0,
        chroma_location: chroma_field(s, f, p).0,
    }
}

pub open spec fn provenance_spec(s: ColorMetadataRaw, f: ColorMetadataRaw, p: ColorResolutionPolicy)
    -> ColorFieldProvenance
{
    ColorFieldProvenance {
        primaries: primaries_field(s, f, p).1,
        transfer: transfer_field(s, f, p).1,
        matrix: matrix_field(s, f, p).1,
        range: range_field(s, f, p).1,
    }
}

/// Stream and frame signal different values for some field or static metadata.
pub open spec fn source_conflict(s: ColorMetadataRaw, f: ColorMetadataRaw, p: ColorResolutionPolicy) -> bool {
    primaries_field(s, f, p).2 || transfer_field(s, f, p).2 || matrix_field(s, f, p).2
        || range_field(s, f, p).2 || chroma_field(s, f, p).2
        || (s.mastering_display is Some && f.mastering_display is Some
            && s.mastering_display != f.mastering_display)
        || (s.content_light is Some && f.content_light is Some && s.content_light != f.content_light)
}

pub open spec fn sdr_transfer(t: TransferCharacteristic) -> bool {
    t == TransferCharacteristic::Bt709 || t == TransferCharacteristic::Smpte170M
        || t == TransferCharacteristic::Srgb || t == TransferCharacteristic::Gamma22
        || t == TransferCharacteristic::Gamma28
}

/// Dynamic range follows the transfer function alone; SDR also needs
/// signaled primaries and matrix.
pub open spec fn dynamic_range_spec(s: ColorMetadataRaw, f: ColorMetadataRaw, p: ColorResolutionPolicy)
    -> DynamicRangeClass
{
    let e = effective_spec(s, f, p);
    if source_conflict(s, f, p) {
        DynamicRangeClass::Conflicting
    } else if e.transfer == TransferCharacteristic::Pq {
        DynamicRangeClass::HdrPq
    } else if e.transfer == TransferCharacteristic::Hlg {
        DynamicRangeClass::HdrHlg
    } else if sdr_transfer(e.transfer) && e.primaries != ColorPrimaries::Unspecified
        && e.matrix != ColorMatrix::Unspecified {
        DynamicRangeClass::Sdr
    } else {
        DynamicRangeClass::Unknown
    }
}

pub open spec fn signaled(p: ColorProvenance) -> bool {
    p == ColorProvenance::Frame || p == ColorProvenance::Stream
}

/// Whether the resolved color is inside the qualified contract.
pub open spec fn support_spec(s: ColorMetadataRaw, f: ColorMetadataRaw, p: ColorResolutionPolicy)
    -> Result<(), ColorSupportReason>
{
    let e = effective_spec(s, f, p);
    let prov = provenance_spec(s, f, p);
    let bt709_signaled = e.primaries == ColorPrimaries::Bt709 && e.matrix == ColorMatrix::Bt709
        && signaled(prov.primaries) && signaled(prov.matrix);
    match dynamic_range_spec(s, f, p) {
        DynamicRangeClass::HdrPq => if bt709_signaled {
            Err(ColorSupportReason::Conflicting)
        } else {
            Err(ColorSupportReason::UnsupportedHdrPq)
        },
        DynamicRangeClass::HdrHlg => if bt709_signaled {
            Err(ColorSupportReason::Conflicting)
        } else {
            Err(ColorSupportReason::UnsupportedHdrHlg)
        },
        DynamicRangeClass::Unknown => Err(ColorSupportReason::Unknown),
        DynamicRangeClass::Conflicting => Err(ColorSupportReason::Conflicting),
        DynamicRangeClass::Sdr => if e.range == ColorRange::Full {
            Err(ColorSupportReason::UnsupportedFullRange)
        } else if e.primaries == ColorPrimaries::Bt2020 || e.primaries == ColorPrimaries::DisplayP3
            || e.matrix == ColorMatrix::Bt2020 || e.matrix == ColorMatrix::Bt2020Constant {
            Err(ColorSupportReason::UnsupportedWideGamutSdr)
        } else if e.primaries == ColorPrimaries::Bt709 && e.matrix == ColorMatrix::Bt709
            && e.transfer == TransferCharacteristic::Bt709 {
            Ok(())
        } else if p == ColorResolutionPolicy::LegacyEightBit && e.matrix == ColorMatrix::Bt601
            && (e.primaries == ColorPrimaries::Smpte170M || e.primaries == ColorPrimaries::Bt470Bg
                || prov.primaries == ColorProvenance::LegacyDefault)
            && (e.transfer == TransferCharacteristic::Bt709 || e.transfer == TransferCharacteristic::Smpte170M
                || e.transfer == TransferCharacteristic::Gamma28) {
            Ok(())
        } else {
            Err(ColorSupportReason::UnsupportedSdrProfile)
        },
    }
}

/// The resolution of a stream and a frame under a policy.
pub open spec fn resolved_spec(s: ColorMetadataRaw, f: ColorMetadataRaw, p: ColorResolutionPolicy)
    -> ResolvedColorSemantics
{
    ResolvedColorSemantics {
        stream: s,
        frame: f,
        effective: effective_spec(s, f, p),
        provenance: provenance_spec(s, f, p),
        dynamic_range: dynamic_range_spec(s, f, p),
        support: support_spec(s, f, p),
    }
}

/// Frame static metadata where present, else the stream's.
pub open spec fn static_metadata_spec(r: ResolvedColorSemantics)
    -> (Option<MasteringDisplayMetadata>, Option<ContentLightLevelMetadata>)
{
    (
        if r.frame.mastering_display is Some { r.frame.mastering_display } else { r.stream.mastering_display },
        if r.frame.content_light is Some { r.frame.content_light } else { r.stream.content_light },
    )
}

/// Nothing a later frame may change has changed.
pub open spec fn stable_spec(a: ResolvedColorSemantics, b: ResolvedColorSemantics) -> bool {
    a.effective == b.effective && a.dynamic_range == b.dynamic_range
        && static_metadata_spec(a) == static_metadata_spec(b)
}


/// Supported color is SDR, free of conflicting sources and not full range.
pub proof fn lemma_supported_is_sdr(s: ColorMetadataRaw, f: ColorMetadataRaw, p: ColorResolutionPolicy)
    ensures
        support_spec(s, f, p) is Ok ==> {
            &&& dynamic_range_spec(s, f, p) == DynamicRangeClass::Sdr
            &&& !source_conflict(s, f, p)
            &&& effective_spec(s, f, p).range != ColorRange::Full
            &&& effective_spec(s, f, p).primaries != ColorPrimaries::Unspecified
            &&& effective_spec(s, f, p).matrix != ColorMatrix::Unspecified
        },
{
}

/// Under the strict policy, supported color is explicitly signaled BT.709:
/// primaries, matrix and transfer are BT.709 and each came from the stream
/// or the frame, never from a default.
pub proof fn lemma_strict_support_is_signaled_bt709(s: ColorMetadataRaw, f: ColorMetadataRaw)
    ensures
        support_spec(s, f, ColorResolutionPolicy::StrictTenBit) is Ok ==> {
            let e = effective_spec(s, f, ColorResolutionPolicy::StrictTenBit);
            let prov = provenance_spec(s, f, ColorResolutionPolicy::StrictTenBit);
            &&& e.primaries == ColorPrimaries::Bt709
            &&& e.matrix == ColorMatrix::Bt709
            &&& e.transfer == TransferCharacteristic::Bt709
            &&& signaled(prov.primaries) && signaled(prov.matrix) && signaled(prov.transfer)
        },
{
}

/// A signaled PQ or HLG transfer is classified as HDR under either policy,
/// and is never supported, unless the sources conflict.
pub proof fn lemma_hdr_transfer_is_not_overridden(s: ColorMetadataRaw, f: ColorMetadataRaw, p: ColorResolutionPolicy)
    requires
        !source_conflict(s, f, p),
    ensures
        (f.space.transfer == TransferCharacteristic::Pq || (f.space.transfer == TransferCharacteristic::Unspecified
            && s.space.transfer == TransferCharacteristic::Pq)) ==> {
            &&& dynamic_range_spec(s, f, p) == DynamicRangeClass::HdrPq
            &&& support_spec(s, f, p) is Err
        },
        (f.space.transfer == TransferCharacteristic::Hlg || (f.space.transfer == TransferCharacteristic::Unspecified
            && s.space.transfer == TransferCharacteristic::Hlg)) ==> {
            &&& dynamic_range_spec(s, f, p) == DynamicRangeClass::HdrHlg
            &&& support_spec(s, f, p) is Err
        },
{
}

/// Two sources that signal different values for one field are conflicting,
/// and conflicting color is never supported.
pub proof fn lemma_conflict_is_unsupported(s: ColorMetadataRaw, f: ColorMetadataRaw, p: ColorResolutionPolicy)
    ensures
        source_conflict(s, f, p) ==> dynamic_range_spec(s, f, p) == DynamicRangeClass::Conflicting
            && support_spec(s, f, p) == Err::<(), ColorSupportReason>(ColorSupportReason::Conflicting),
        (s.space.transfer != TransferCharacteristic::Unspecified && f.space.transfer != TransferCharacteristic::Unspecified
            && s.space.transfer != f.space.transfer) ==> source_conflict(s, f, p),
{
}

/// Resolution keeps both raw sources; a resolution is stable against itself.
pub proof fn lemma_resolution_keeps_sources(s: ColorMetadataRaw, f: ColorMetadataRaw, p: ColorResolutionPolicy)
    ensures
        resolved_spec(s, f, p).stream == s,
        resolved_spec(s, f, p).frame == f,
        stable_spec(resolved_spec(s, f, p), resolved_spec(s, f, p)),
{
}

/// Under the 8-bit policy, ordinary SD and HD SDR video is accepted: a
/// stream signaling BT.601 matrix with SMPTE 170M or BT.470BG primaries (or
/// BT.709 matrix with BT.709 primaries), a BT.709, SMPTE 170M or gamma 2.8
/// transfer for BT.601 (BT.709 for BT.709), and limited range, whose frames
/// repeat or leave unsignaled each field and its static metadata, resolves
/// as supported SDR.
pub proof fn lemma_legacy_accepts_sd_and_hd_sdr(s: ColorMetadataRaw, f: ColorMetadataRaw)
    requires
        (s.space.matrix == ColorMatrix::Bt601
            && (s.space.primaries == ColorPrimaries::Smpte170M || s.space.primaries == ColorPrimaries::Bt470Bg)
            && (s.space.transfer == TransferCharacteristic::Bt709 || s.space.transfer == TransferCharacteristic::Smpte170M
                || s.space.transfer == TransferCharacteristic::Gamma28))
        || (s.space.matrix == ColorMatrix::Bt709 && s.space.primaries == ColorPrimaries::Bt709
            && s.space.transfer == TransferCharacteristic::Bt709),
        s.space.range == ColorRange::Limited,
        f.space.matrix == ColorMatrix::Unspecified || f.space.matrix == s.space.matrix,
        f.space.primaries == ColorPrimaries::Unspecified || f.space.primaries == s.space.primaries,
        f.space.transfer == TransferCharacteristic::Unspecified || f.space.transfer == s.space.transfer,
        f.space.range == ColorRange::Unspecified || f.space.range == s.space.range,
        f.space.chroma_location == ChromaLocation::Unspecified || f.space.chroma_location == s.space.chroma_location,
        f.mastering_display is None || f.mastering_display == s.mastering_display,
        f.content_light is None || f.content_light == s.content_light,
    ensures
        resolved_spec(s, f, ColorResolutionPolicy::LegacyEightBit).dynamic_range == DynamicRangeClass::Sdr,
        resolved_spec(s, f, ColorResolutionPolicy::LegacyEightBit).support == Ok::<(), ColorSupportReason>(()),
{
}

/// Under either policy, a stream that signals BT.709 primaries, matrix and
/// transfer with limited range, whose frames repeat or leave unsignaled each
/// field and its static metadata, resolves as supported SDR with every
/// field taken from the signal.
pub proof fn lemma_signaled_bt709_is_supported(s: ColorMetadataRaw, f: ColorMetadataRaw, p: ColorResolutionPolicy)
    requires
        s.space.matrix == ColorMatrix::Bt709,
        s.space.primaries == ColorPrimaries::Bt709,
        s.space.transfer == TransferCharacteristic::Bt709,
        s.space.range == ColorRange::Limited,
        f.space.matrix == ColorMatrix::Unspecified || f.space.matrix == s.space.matrix,
        f.space.primaries == ColorPrimaries::Unspecified || f.space.primaries == s.space.primaries,
        f.space.transfer == TransferCharacteristic::Unspecified || f.space.transfer == s.space.transfer,
        f.space.range == ColorRange::Unspecified || f.space.range == s.space.range,
        f.space.chroma_location == ChromaLocation::Unspecified || f.space.chroma_location == s.space.chroma_location,
        f.mastering_display is None || f.mastering_display == s.mastering_display,
        f.content_light is None || f.content_light == s.content_light,
    ensures
        resolved_spec(s, f, p).dynamic_range == DynamicRangeClass::Sdr,
        resolved_spec(s, f, p).support == Ok::<(), ColorSupportReason>(()),
        resolved_spec(s, f, p).effective.primaries == ColorPrimaries::Bt709,
        resolved_spec(s, f, p).effective.matrix == ColorMatrix::Bt709,
        resolved_spec(s, f, p).effective.transfer == TransferCharacteristic::Bt709,
        resolved_spec(s, f, p).effective.range == ColorRange::Limited,
{
}

fn same_light_opt(a: Option<ContentLightLevelMetadata>, b: Option<ContentLightLevelMetadata>) -> (r: bool)
    ensures
        r == (a == b),
{
    match (a, b) {
        (Some(x), Some(y)) => x == y,
        (None, None) => true,
        _ => false,
    }
}

impl ResolvedColorSemantics {
    /// Frame static metadata where present, else the stream's.
    pub fn effective_static_metadata(self) -> (r: (Option<MasteringDisplayMetadata>, Option<ContentLightLevelMetadata>))
        ensures
            r == static_metadata_spec(self),
    {
        (
            if self.frame.mastering_display.is_some() { self.frame.mastering_display } else { self.stream.mastering_display },
            if self.frame.content_light.is_some() { self.frame.content_light } else { self.stream.content_light },
        )
    }

    /// Refuses a later frame whose effective color, dynamic range or static
    /// metadata differs from this one's.
    pub fn ensure_stable(self, next: Self) -> (r: Result<(), ColorError>)
        ensures
            stable_spec(self, next) ==> r is Ok,
            !stable_spec(self, next) ==> r == Err::<(), ColorError>(ColorError::MidStreamColorMetadataChange),
    {
        let (am, al) = self.effective_static_metadata();
        let (bm, bl) = next.effective_static_metadata();
        if self.effective != next.effective || self.dynamic_range != next.dynamic_range
            || !same_mastering_opt(am, bm) || !same_light_opt(al, bl) {
            Err(ColorError::MidStreamColorMetadataChange)
        } else {
            Ok(())
        }
    }

    /// Resolves stream and frame facts under a policy. Never fails.
    #[verifier::rlimit(40)]
    pub fn resolve(stream: ColorMetadataRaw, frame: ColorMetadataRaw, policy: ColorResolutionPolicy)
        -> (r: Result<Self, ColorError>)
        ensures
            r == Ok::<Self, ColorError>(resolved_spec(stream, frame, policy)),
    {
        let ss = stream.space;
        let fs = frame.space;
        let (primaries, primaries_source, primaries_conflict) = field(
            ss.primaries, fs.primaries, ColorPrimaries::Unspecified, ColorPrimaries::Bt709, policy,
            ss.primaries != ColorPrimaries::Unspecified, fs.primaries != ColorPrimaries::Unspecified,
            ss.primaries != fs.primaries,
        );
        let (transfer, transfer_source, transfer_conflict) = field(
            ss.transfer, fs.transfer, TransferCharacteristic::Unspecified, TransferCharacteristic::Bt709, policy,
            ss.transfer != TransferCharacteristic::Unspecified, fs.transfer != TransferCharacteristic::Unspecified,
            ss.transfer != fs.transfer,
        );
        let (matrix, matrix_source, matrix_conflict) = field(
            ss.matrix, fs.matrix, ColorMatrix::Unspecified, ColorMatrix::Bt709, policy,
            ss.matrix != ColorMatrix::Unspecified, fs.matrix != ColorMatrix::Unspecified,
            ss.matrix != fs.matrix,
        );
        let (range, range_source, range_conflict) = field(
            ss.range, fs.range, ColorRange::Unspecified, ColorRange::Limited, policy,
            ss.range != ColorRange::Unspecified, fs.range != ColorRange::Unspecified,
            ss.range != fs.range,
        );
        let (chroma_location, _, chroma_conflict) = field(
            ss.chroma_location, fs.chroma_location, ChromaLocation::Unspecified, ChromaLocation::Left, policy,
            ss.chroma_location != ChromaLocation::Unspecified, fs.chroma_location != ChromaLocation::Unspecified,
            ss.chroma_location != fs.chroma_location,
        );
        let effective = ColorSpace { primaries, transfer, matrix, range, chroma_location };
        let provenance = ColorFieldProvenance {
            primaries: primaries_source,
            transfer: transfer_source,
            matrix: matrix_source,
            range: range_source,
        };
        let conflict = primaries_conflict || transfer_conflict || matrix_conflict || range_conflict
            || chroma_conflict
            || (stream.mastering_display.is_some() && frame.mastering_display.is_some()
                && !same_mastering_opt(stream.mastering_display, frame.mastering_display))
            || (stream.content_light.is_some() && frame.content_light.is_some()
                && !same_light_opt(stream.content_light, frame.content_light));
        let sdr_like = transfer == TransferCharacteristic::Bt709 || transfer == TransferCharacteristic::Smpte170M
            || transfer == TransferCharacteristic::Srgb || transfer == TransferCharacteristic::Gamma22
            || transfer == TransferCharacteristic::Gamma28;
        let dynamic_range = if conflict {
            DynamicRangeClass::Conflicting
        } else if transfer == TransferCharacteristic::Pq {
            DynamicRangeClass::HdrPq
        } else if transfer == TransferCharacteristic::Hlg {
            DynamicRangeClass::HdrHlg
        } else if sdr_like && primaries != ColorPrimaries::Unspecified && matrix != ColorMatrix::Unspecified {
            DynamicRangeClass::Sdr
        } else {
            DynamicRangeClass::Unknown
        };
        let is_signaled = |p: ColorProvenance| -> (b: bool)
            ensures
                b == signaled(p),
        { p == ColorProvenance::Frame || p == ColorProvenance::Stream };
        let bt709_signaled = primaries == ColorPrimaries::Bt709 && matrix == ColorMatrix::Bt709
            && is_signaled(primaries_source) && is_signaled(matrix_source);
        let support = match dynamic_range {
            DynamicRangeClass::HdrPq => if bt709_signaled {
                Err(ColorSupportReason::Conflicting)
            } else {
                Err(ColorSupportReason::UnsupportedHdrPq)
            },
            DynamicRangeClass::HdrHlg => if bt709_signaled {
                Err(ColorSupportReason::Conflicting)
            } else {
                Err(ColorSupportReason::UnsupportedHdrHlg)
            },
            DynamicRangeClass::Unknown => Err(ColorSupportReason::Unknown),
            DynamicRangeClass::Conflicting => Err(ColorSupportReason::Conflicting),
            DynamicRangeClass::Sdr => if range == ColorRange::Full {
                Err(ColorSupportReason::UnsupportedFullRange)
            } else if primaries == ColorPrimaries::Bt2020 || primaries == ColorPrimaries::DisplayP3
                || matrix == ColorMatrix::Bt2020 || matrix == ColorMatrix::Bt2020Constant {
                Err(ColorSupportReason::UnsupportedWideGamutSdr)
            } else if primaries == ColorPrimaries::Bt709 && matrix == ColorMatrix::Bt709
                && transfer == TransferCharacteristic::Bt709 {
                Ok(())
            } else if policy == ColorResolutionPolicy::LegacyEightBit && matrix == ColorMatrix::Bt601
                && (primaries == ColorPrimaries::Smpte170M || primaries == ColorPrimaries::Bt470Bg
                    || primaries_source == ColorProvenance::LegacyDefault)
                && (transfer == TransferCharacteristic::Bt709 || transfer == TransferCharacteristic::Smpte170M
                    || transfer == TransferCharacteristic::Gamma28) {
                Ok(())
            } else {
                Err(ColorSupportReason::UnsupportedSdrProfile)
            },
        };
        Ok(ResolvedColorSemantics { stream, frame, effective, provenance, dynamic_range, support })
    }
}

} // verus!
