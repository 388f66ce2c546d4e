//! Input and output video requirements and the processing contract.

use vstd::prelude::*;
use crate::error::{Error, Result, unsupported_with, invalid_with};
use crate::frame::{
    ChromaLocation, ColorMatrix, ColorPrimaries, ColorRange, ColorSpace, PixelFormat, Rational,
    TransferCharacteristic, default_color_space,
};
use crate::planner::caps::{
    CapabilitySupport, Fact, InteropCapabilities, MediaCapabilities, VideoCodec, VideoProfile,
    codec_text, decode_for_spec, encode_for_spec, input_for_spec, output_for_spec,
};
use crate::debug::{
    codec_debug, codec_debug_text, color_space_debug, color_space_debug_text, depth_string,
    depth_text, option_profile_debug, option_profile_debug_text,
};
use crate::text::{cat, decimal, decimal_text};
use crate::color::ResolvedColorSemantics;

verus! {

#[derive(Clone, Copy, Debug, PartialEq, Eq, Structural)]
pub enum ChromaSubsampling {
    Yuv420,
    Other,
    Unknown,
}

pub open spec fn chroma_debug_text(c: ChromaSubsampling) -> Seq<char> {
    match c {
        ChromaSubsampling::Yuv420 => "Yuv420"@,
        ChromaSubsampling::Other => "Other"@,
        ChromaSubsampling::Unknown => "Unknown"@,
    }
}

pub fn chroma_debug(c: ChromaSubsampling) -> (s: &'static str)
    ensures
        s@ == chroma_debug_text(c),
{
    proof {
        reveal_strlit("Yuv420");
        reveal_strlit("Other");
        reveal_strlit("Unknown");
    }
    match c {
        ChromaSubsampling::Yuv420 => "Yuv420",
        ChromaSubsampling::Other => "Other",
        ChromaSubsampling::Unknown => "Unknown",
    }
}

/// What the probed input stream is.
#[derive(Clone, Debug, PartialEq, Eq)]
pub struct InputRequirements {
    pub codec: VideoCodec,
    pub profile: Option<VideoProfile>,
    pub pixel_format: Option<String>,
    pub bit_depth: Option<u8>,
    pub chroma_subsampling: ChromaSubsampling,
    pub width: u32,
    pub height: u32,
    pub frame_rate: Rational,
    pub color_space: ColorSpace,
    /// Resolved stream and frame color facts, when they were probed.
    pub color_semantics: Option<ResolvedColorSemantics>,
}

/// What the encoder must produce.
#[derive(Clone, Debug, PartialEq, Eq)]
pub struct OutputVideoRequirements {
    pub codec: VideoCodec,
    pub profile: Option<VideoProfile>,
    pub bit_depth: u8,
    pub pixel_format: PixelFormat,
    pub color_space: ColorSpace,
    pub chroma_subsampling: ChromaSubsampling,
    pub width: u32,
    pub height: u32,
    pub frame_rate: Rational,
}

impl OutputVideoRequirements {
    pub fn copied(&self) -> (c: Self)
        ensures
            c == *self,
    {
        let profile = match &self.profile {
            Some(p) => Some(p.copied()),
            None => None,
        };
        OutputVideoRequirements {
            codec: self.codec.copied(),
            profile,
            bit_depth: self.bit_depth,
            pixel_format: self.pixel_format,
            color_space: self.color_space,
            chroma_subsampling: self.chroma_subsampling,
            width: self.width,
            height: self.height,
            frame_rate: self.frame_rate,
        }
    }
}

/// 8-bit 4:2:0 NV12 output of `codec` at the input's size and rate.
pub open spec fn nv12_output_spec(codec: VideoCodec, input: InputRequirements) -> OutputVideoRequirements {
    OutputVideoRequirements {
        codec,
        profile: match codec {
            VideoCodec::Hevc => Some(VideoProfile::HevcMain),
            VideoCodec::Av1 => Some(VideoProfile::Av1Main),
            _ => None,
        },
        bit_depth: 8,
        pixel_format: PixelFormat::Nv12,
        color_space: default_color_space(),
        chroma_subsampling: ChromaSubsampling::Yuv420,
        width: input.width,
        height: input.height,
        frame_rate: input.frame_rate,
    }
}

/// 10-bit 4:2:0 P010 output of `codec`, keeping the input's range.
pub open spec fn p010_output_spec(codec: VideoCodec, input: InputRequirements) -> OutputVideoRequirements {
    OutputVideoRequirements {
        codec,
        profile: match codec {
            VideoCodec::Hevc => Some(VideoProfile::HevcMain10),
            _ => Some(VideoProfile::Av1Main),
        },
        bit_depth: 10,
        pixel_format: PixelFormat::P010Le,
        color_space: ColorSpace { range: input.color_space.range, ..default_color_space() },
        chroma_subsampling: ChromaSubsampling::Yuv420,
        width: input.width,
        height: input.height,
        frame_rate: input.frame_rate,
    }
}

/// Outcome of choosing output requirements: the requirements, or an
/// error that is `InvalidConfig` (`true`) or `UnsupportedFrame` (`false`).
pub open spec fn selected_output_spec(codec: VideoCodec, bit_depth: u8, input: InputRequirements)
    -> core::result::Result<OutputVideoRequirements, (bool, Seq<char>)>
{
    if bit_depth == 8 {
        match codec {
            VideoCodec::Other(name) => Err((true, "output codec "@ + name@ + " is not implemented"@)),
            _ => Ok(nv12_output_spec(codec, input)),
        }
    } else if !(codec is Hevc || codec is Av1) || bit_depth != 10 {
        Err((true, codec_text(codec) + " "@ + decimal_text(bit_depth as nat) + "-bit output is not implemented"@))
    } else if input.color_space.chroma_location != ChromaLocation::Left {
        Err((false, "10-bit output currently requires left-sited 4:2:0 chroma"@))
    } else {
        Ok(p010_output_spec(codec, input))
    }
}

/// `r` is the outcome that `spec` describes.
pub open spec fn matches_outcome<T>(r: Result<T>, spec: core::result::Result<T, (bool, Seq<char>)>) -> bool {
    match spec {
        Ok(v) => r == Ok::<T, Error>(v),
        Err((true, m)) => invalid_with(r, m),
        Err((false, m)) => unsupported_with(r, m),
    }
}

impl OutputVideoRequirements {
    pub fn current_nv12(codec: VideoCodec, input: &InputRequirements) -> (r: Result<Self>)
        ensures
            matches_outcome(r, selected_output_spec(codec, 8, *input)),
    {
        let profile = match &codec {
            VideoCodec::H264 => None,
            VideoCodec::Hevc => Some(VideoProfile::HevcMain),
            VideoCodec::Av1 => Some(VideoProfile::Av1Main),
            VideoCodec::Other(name) => {
                let mut m = cat("output codec ", name.as_str());
                m.append(" is not implemented");
                proof {
                    reveal_strlit("output codec ");
                    reveal_strlit(" is not implemented");
                }
                return Err(Error::InvalidConfig(m));
            },
        };
        Ok(OutputVideoRequirements {
            codec,
            profile,
            bit_depth: 8,
            pixel_format: PixelFormat::Nv12,
            color_space: ColorSpace::default(),
            chroma_subsampling: ChromaSubsampling::Yuv420,
            width: input.width,
            height: input.height,
            frame_rate: input.frame_rate,
        })
    }

    pub fn selected(codec: VideoCodec, bit_depth: u8, input: &InputRequirements) -> (r: Result<Self>)
        ensures
            matches_outcome(r, selected_output_spec(codec, bit_depth, *input)),
    {
        if bit_depth == 8 {
            return Self::current_nv12(codec, input);
        }
        let ok_codec = match &codec {
            VideoCodec::Hevc => true,
            VideoCodec::Av1 => true,
            _ => false,
        };
        if !ok_codec || bit_depth != 10 {
            let name = codec.to_string();
            let mut m = cat(name.as_str(), " ");
            let depth = decimal(bit_depth as u64);
            m.append(depth.as_str());
            m.append("-bit output is not implemented");
            proof {
                reveal_strlit(" ");
                reveal_strlit("-bit output is not implemented");
            }
            return Err(Error::InvalidConfig(m));
        }
        if input.color_space.chroma_location != ChromaLocation::Left {
            proof { reveal_strlit("10-bit output currently requires left-sited 4:2:0 chroma"); }
            return Err(Error::UnsupportedFrame(String::from_str(
                "10-bit output currently requires left-sited 4:2:0 chroma",
            )));
        }
        let profile = match &codec {
            VideoCodec::Hevc => VideoProfile::HevcMain10,
            _ => VideoProfile::Av1Main,
        };
        let mut color_space = ColorSpace::default();
        color_space.range = input.color_space.range;
        Ok(OutputVideoRequirements {
            codec,
            profile: Some(profile),
            bit_depth: 10,
            pixel_format: PixelFormat::P010Le,
            color_space,
            chroma_subsampling: ChromaSubsampling::Yuv420,
            width: input.width,
            height: input.height,
            frame_rate: input.frame_rate,
        })
    }
}

/// Even, non-zero dimensions that fit in `i32`.
pub open spec fn dims_ok(w: u32, h: u32) -> bool {
    w != 0 && h != 0 && w % 2 == 0 && h % 2 == 0 && w <= i32::MAX && h <= i32::MAX
}

pub open spec fn dims_message(prefix: Seq<char>, w: u32, h: u32) -> Seq<char> {
    prefix + " requires even dimensions in 2..=2147483647, got "@ + decimal_text(w as nat) + "x"@
        + decimal_text(h as nat)
}

pub open spec fn eight_bit_error(r: InputRequirements) -> Option<Seq<char>> {
    if r.chroma_subsampling != ChromaSubsampling::Yuv420 {
        Some("the current NV12 pipeline requires 4:2:0 chroma, got "@ + chroma_debug_text(r.chroma_subsampling))
    } else if (r.codec is Hevc && r.profile != Some(VideoProfile::HevcMain))
        || (r.codec is Av1 && r.profile != Some(VideoProfile::Av1Main)) {
        Some(codec_debug_text(r.codec) + " profile "@ + option_profile_debug_text(r.profile)
            + " is outside the Main 8-bit 4:2:0 input contract"@)
    } else if !dims_ok(r.width, r.height) {
        Some(dims_message("NV12"@, r.width, r.height))
    } else {
        None
    }
}

/// An explicitly tagged BT.709 SDR color space with a known range.
pub open spec fn bt709_sdr(c: ColorSpace) -> bool {
    c.primaries == ColorPrimaries::Bt709 && c.transfer == TransferCharacteristic::Bt709
        && c.matrix == ColorMatrix::Bt709 && (c.range == ColorRange::Limited || c.range == ColorRange::Full)
}

/// HEVC Main10 or AV1 Main.
pub open spec fn ten_bit_profile(r: InputRequirements) -> bool {
    (r.codec is Hevc && r.profile == Some(VideoProfile::HevcMain10))
        || (r.codec is Av1 && r.profile == Some(VideoProfile::Av1Main))
}

pub open spec fn ten_bit_error(r: InputRequirements) -> Option<Seq<char>> {
    if r.chroma_subsampling != ChromaSubsampling::Yuv420 {
        Some("10-bit processing requires 4:2:0 chroma"@)
    } else if !ten_bit_profile(r) {
        Some("10-bit "@ + codec_debug_text(r.codec) + " profile "@ + option_profile_debug_text(r.profile)
            + " is outside the HEVC Main10 / AV1 Main input contract"@)
    } else if !bt709_sdr(r.color_space) {
        Some("10-bit input requires explicitly tagged BT.709 SDR primaries, transfer, matrix and range; got "@
            + color_space_debug_text(r.color_space))
    } else if !dims_ok(r.width, r.height) {
        Some(dims_message("P010LE"@, r.width, r.height))
    } else {
        None
    }
}

/// Error of the 8-bit NV12 validation contract, if any.
pub open spec fn current_pipeline_error(r: InputRequirements) -> Option<Seq<char>> {
    if r.bit_depth != Some(8u8) {
        if r.bit_depth == Some(10u8) && ten_bit_error(r) is None {
            Some("10-bit P010 input is outside the 8-bit NV12 validation contract; select explicit HEVC Main10 output for production"@)
        } else {
            Some(depth_text(r.bit_depth) + "-bit video is not supported by the current 8-bit NV12 pipeline"@)
        }
    } else {
        eight_bit_error(r)
    }
}

/// The host format processing uses for this input, or why it cannot.
pub open spec fn processing_input_spec(r: InputRequirements) -> core::result::Result<PixelFormat, Seq<char>> {
    if r.bit_depth == Some(8u8) {
        match current_pipeline_error(r) {
            None => Ok(PixelFormat::Nv12),
            Some(m) => Err(m),
        }
    } else if r.bit_depth == Some(10u8) {
        match ten_bit_error(r) {
            None => Ok(PixelFormat::P010Le),
            Some(m) => Err(m),
        }
    } else {
        Err(depth_text(r.bit_depth) + "-bit video is outside the 8-bit NV12 / 10-bit P010LE processing contract"@)
    }
}

/// 8-bit 4:2:0 H.264, HEVC or AV1.
pub open spec fn current_hardware_path(r: InputRequirements) -> bool {
    !(r.codec is Other) && r.bit_depth == Some(8u8) && r.chroma_subsampling == ChromaSubsampling::Yuv420
}

fn dims_error(prefix: &str, w: u32, h: u32) -> (m: String)
    ensures
        m@ == dims_message(prefix@, w, h),
{
    proof {
        reveal_strlit(" requires even dimensions in 2..=2147483647, got ");
        reveal_strlit("x");
    }
    let mut m = cat(prefix, " requires even dimensions in 2..=2147483647, got ");
    let ws = decimal(w as u64);
    m.append(ws.as_str());
    m.append("x");
    let hs = decimal(h as u64);
    m.append(hs.as_str());
    m
}

fn dims_valid(w: u32, h: u32) -> (b: bool)
    ensures
        b == dims_ok(w, h),
{
    !(w == 0 || h == 0 || w % 2 != 0 || h % 2 != 0 || w > 2147483647u32 || h > 2147483647u32)
}

impl InputRequirements {
    pub(crate) fn supports_current_hardware_path(&self) -> (b: bool)
        ensures
            b == current_hardware_path(*self),
    {
        let codec_ok = match &self.codec {
            VideoCodec::Other(_) => false,
            _ => true,
        };
        codec_ok && self.bit_depth == Some(8u8) && self.chroma_subsampling == ChromaSubsampling::Yuv420
    }

    fn ten_bit_check(&self) -> (r: Result<()>)
        ensures
            match ten_bit_error(*self) {
                None => r is Ok,
                Some(m) => unsupported_with(r, m),
            },
    {
        if self.chroma_subsampling != ChromaSubsampling::Yuv420 {
            proof { reveal_strlit("10-bit processing requires 4:2:0 chroma"); }
            return Err(Error::UnsupportedFrame(String::from_str("10-bit processing requires 4:2:0 chroma")));
        }
        let profile_ok = match (&self.codec, &self.profile) {
            (VideoCodec::Hevc, Some(VideoProfile::HevcMain10)) => true,
            (VideoCodec::Av1, Some(VideoProfile::Av1Main)) => true,
            _ => false,
        };
        if !profile_ok {
            proof {
                reveal_strlit("10-bit ");
                reveal_strlit(" profile ");
                reveal_strlit(" is outside the HEVC Main10 / AV1 Main input contract");
            }
            let c = codec_debug(&self.codec);
            let mut m = cat("10-bit ", c.as_str());
            m.append(" profile ");
            let p = option_profile_debug(&self.profile);
            m.append(p.as_str());
            m.append(" is outside the HEVC Main10 / AV1 Main input contract");
            return Err(Error::UnsupportedFrame(m));
        }
        let cs = self.color_space;
        if cs.primaries != ColorPrimaries::Bt709 || cs.transfer != TransferCharacteristic::Bt709
            || cs.matrix != ColorMatrix::Bt709
            || !(cs.range == ColorRange::Limited || cs.range == ColorRange::Full) {
            proof {
                reveal_strlit("10-bit input requires explicitly tagged BT.709 SDR primaries, transfer, matrix and range; got ");
            }
            let d = color_space_debug(cs);
            let m = cat(
                "10-bit input requires explicitly tagged BT.709 SDR primaries, transfer, matrix and range; got ",
                d.as_str(),
            );
            return Err(Error::UnsupportedFrame(m));
        }
        if !dims_valid(self.width, self.height) {
            proof { reveal_strlit("P010LE"); }
            return Err(Error::UnsupportedFrame(dims_error("P010LE", self.width, self.height)));
        }
        Ok(())
    }

    fn eight_bit_check(&self) -> (r: Result<()>)
        ensures
            match eight_bit_error(*self) {
                None => r is Ok,
                Some(m) => unsupported_with(r, m),
            },
    {
        if self.chroma_subsampling != ChromaSubsampling::Yuv420 {
            proof { reveal_strlit("the current NV12 pipeline requires 4:2:0 chroma, got "); }
            let m = cat("the current NV12 pipeline requires 4:2:0 chroma, got ", chroma_debug(self.chroma_subsampling));
            return Err(Error::UnsupportedFrame(m));
        }
        let bad_profile = match (&self.codec, &self.profile) {
            (VideoCodec::Hevc, Some(VideoProfile::HevcMain)) => false,
            (VideoCodec::Hevc, _) => true,
            (VideoCodec::Av1, Some(VideoProfile::Av1Main)) => false,
            (VideoCodec::Av1, _) => true,
            _ => false,
        };
        if bad_profile {
            proof {
                reveal_strlit(" profile ");
                reveal_strlit(" is outside the Main 8-bit 4:2:0 input contract");
            }
            let c = codec_debug(&self.codec);
            let mut m = cat(c.as_str(), " profile ");
            let p = option_profile_debug(&self.profile);
            m.append(p.as_str());
            m.append(" is outside the Main 8-bit 4:2:0 input contract");
            return Err(Error::UnsupportedFrame(m));
        }
        if !dims_valid(self.width, self.height) {
            proof { reveal_strlit("NV12"); }
            return Err(Error::UnsupportedFrame(dims_error("NV12", self.width, self.height)));
        }
        Ok(())
    }

    /// The 8-bit NV12 validation contract.
    pub fn validate_current_pipeline(&self) -> (r: Result<()>)
        ensures
            match current_pipeline_error(*self) {
                None => r is Ok,
                Some(m) => unsupported_with(r, m),
            },
    {
        if self.bit_depth != Some(8u8) {
            if self.bit_depth == Some(10u8) && self.ten_bit_check().is_ok() {
                proof {
                    reveal_strlit("10-bit P010 input is outside the 8-bit NV12 validation contract; select explicit HEVC Main10 output for production");
                }
                return Err(Error::UnsupportedFrame(String::from_str(
                    "10-bit P010 input is outside the 8-bit NV12 validation contract; select explicit HEVC Main10 output for production",
                )));
            }
            proof { reveal_strlit("-bit video is not supported by the current 8-bit NV12 pipeline"); }
            let d = depth_string(self.bit_depth);
            let m = cat(d.as_str(), "-bit video is not supported by the current 8-bit NV12 pipeline");
            return Err(Error::UnsupportedFrame(m));
        }
        self.eight_bit_check()
    }

    /// The processing contract, independent of output encoding.
    pub fn validate_processing_input(&self) -> (r: Result<PixelFormat>)
        ensures
            match processing_input_spec(*self) {
                Ok(f) => r == Ok::<PixelFormat, Error>(f),
                Err(m) => unsupported_with(r, m),
            },
    {
        if self.bit_depth == Some(8u8) {
            self.validate_current_pipeline()?;
            Ok(PixelFormat::Nv12)
        } else if self.bit_depth == Some(10u8) {
            self.ten_bit_check()?;
            Ok(PixelFormat::P010Le)
        } else {
            proof { reveal_strlit("-bit video is outside the 8-bit NV12 / 10-bit P010LE processing contract"); }
            let d = depth_string(self.bit_depth);
            let m = cat(d.as_str(), "-bit video is outside the 8-bit NV12 / 10-bit P010LE processing contract");
            Err(Error::UnsupportedFrame(m))
        }
    }
}

/// VAAPI decode fact for this input (10-bit HEVC/AV1 have their own facts).
pub open spec fn decode_for_input_spec(m: MediaCapabilities, input: InputRequirements) -> Fact {
    if input.codec is Hevc && input.bit_depth == Some(10u8) {
        m.hevc_main10_vaapi_decode@
    } else if input.codec is Av1 && input.bit_depth == Some(10u8) {
        m.av1_10bit_vaapi_decode@
    } else {
        decode_for_spec(m, input.codec)
    }
}

/// VAAPI encode fact for this output (10-bit HEVC/AV1 have their own facts).
pub open spec fn encode_for_output_spec(m: MediaCapabilities, output: OutputVideoRequirements) -> Fact {
    if output.codec is Hevc && output.bit_depth == 10 {
        m.hevc_main10_vaapi_encode@
    } else if output.codec is Av1 && output.bit_depth == 10 {
        m.av1_10bit_vaapi_encode@
    } else {
        encode_for_spec(m, output.codec)
    }
}

/// Input interop fact for this input (10-bit shares the P010 fact).
pub open spec fn input_for_requirements_spec(i: InteropCapabilities, input: InputRequirements) -> Fact {
    if input.bit_depth == Some(10u8) {
        i.p010_input@
    } else {
        input_for_spec(i, input.codec)
    }
}

/// Output interop fact for this output (P010 by codec family).
pub open spec fn output_for_requirements_spec(i: InteropCapabilities, output: OutputVideoRequirements) -> Fact {
    if output.pixel_format == PixelFormat::P010Le {
        if output.codec is Av1 {
            i.av1_p010_output@
        } else {
            i.p010_output@
        }
    } else {
        output_for_spec(i, output.codec)
    }
}

impl MediaCapabilities {
    pub fn decode_for_input(&self, input: &InputRequirements) -> (s: CapabilitySupport)
        ensures
            s@ == decode_for_input_spec(*self, *input),
    {
        match (&input.codec, input.bit_depth) {
            (VideoCodec::Hevc, Some(10u8)) => self.hevc_main10_vaapi_decode.copied(),
            (VideoCodec::Av1, Some(10u8)) => self.av1_10bit_vaapi_decode.copied(),
            _ => self.decode_for(&input.codec),
        }
    }

    pub fn encode_for_output(&self, output: &OutputVideoRequirements) -> (s: CapabilitySupport)
        ensures
            s@ == encode_for_output_spec(*self, *output),
    {
        match (&output.codec, output.bit_depth) {
            (VideoCodec::Hevc, 10u8) => self.hevc_main10_vaapi_encode.copied(),
            (VideoCodec::Av1, 10u8) => self.av1_10bit_vaapi_encode.copied(),
            _ => self.encode_for(&output.codec),
        }
    }

    /// Marks only the encoder this output uses unsupported.
    pub fn disable_encode_output(&mut self, output: &OutputVideoRequirements, reason: &str)
        ensures
            output.codec is Hevc && output.bit_depth == 10 ==> *final(self) == (MediaCapabilities {
                hevc_main10_vaapi_encode: final(self).hevc_main10_vaapi_encode, ..*old(self) }),
            output.codec is Av1 && output.bit_depth == 10 ==> *final(self) == (MediaCapabilities {
                av1_10bit_vaapi_encode: final(self).av1_10bit_vaapi_encode, ..*old(self) }),
            !((output.codec is Hevc || output.codec is Av1) && output.bit_depth == 10) ==> *final(self) == (match output.codec {
                VideoCodec::H264 => (MediaCapabilities { h264_vaapi_encode: final(self).h264_vaapi_encode, ..*old(self) }),
                VideoCodec::Hevc => (MediaCapabilities { hevc_vaapi_encode: final(self).hevc_vaapi_encode, ..*old(self) }),
                VideoCodec::Av1 => (MediaCapabilities { av1_vaapi_encode: final(self).av1_vaapi_encode, ..*old(self) }),
                VideoCodec::Other(_) => *old(self),
            }),
            !(output.codec is Other) ==> encode_for_output_spec(*final(self), *output) == Fact::Unsupported(reason@),
    {
        match (&output.codec, output.bit_depth) {
            (VideoCodec::Hevc, 10u8) => self.hevc_main10_vaapi_encode = CapabilitySupport::unsupported(reason),
            (VideoCodec::Av1, 10u8) => self.av1_10bit_vaapi_encode = CapabilitySupport::unsupported(reason),
            _ => self.disable_encode(&output.codec, reason),
        }
    }
}

impl InteropCapabilities {
    pub fn input_for_requirements(&self, input: &InputRequirements) -> (s: CapabilitySupport)
        ensures
            s@ == input_for_requirements_spec(*self, *input),
    {
        if input.bit_depth == Some(10u8) {
            self.p010_input.copied()
        } else {
            self.input_for(&input.codec)
        }
    }

    pub fn output_for_requirements(&self, output: &OutputVideoRequirements) -> (s: CapabilitySupport)
        ensures
            s@ == output_for_requirements_spec(*self, *output),
    {
        if output.pixel_format == PixelFormat::P010Le {
            if matches!(output.codec, VideoCodec::Av1) {
                self.av1_p010_output.copied()
            } else {
                self.p010_output.copied()
            }
        } else {
            self.output_for(&output.codec)
        }
    }

    /// Replaces only the output interop fact this output uses.
    pub fn set_output_for_requirements(&mut self, output: &OutputVideoRequirements, fact: CapabilitySupport)
        ensures
            *final(self) == (if output.pixel_format == PixelFormat::P010Le {
                if output.codec is Av1 {
                    (InteropCapabilities { av1_p010_output: fact, ..*old(self) })
                } else {
                    (InteropCapabilities { p010_output: fact, ..*old(self) })
                }
            } else {
                match output.codec {
                    VideoCodec::H264 => (InteropCapabilities { output: fact, ..*old(self) }),
                    VideoCodec::Hevc => (InteropCapabilities { hevc_output: fact, ..*old(self) }),
                    VideoCodec::Av1 => (InteropCapabilities { av1_output: fact, ..*old(self) }),
                    VideoCodec::Other(_) => *old(self),
                }
            }),
    {
        if output.pixel_format == PixelFormat::P010Le {
            if matches!(output.codec, VideoCodec::Av1) {
                self.av1_p010_output = fact;
            } else {
                self.p010_output = fact;
            }
        } else {
            self.set_output(&output.codec, fact);
        }
    }
}

} // verus!
