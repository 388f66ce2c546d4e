//! Probed capability facts: media, processing and interop support.

use vstd::prelude::*;
use crate::frame::PixelFormat;
use crate::text::cat;

verus! {

/// Whether a capability can be used, and why not.
#[derive(Clone, Debug, PartialEq, Eq)]
pub enum CapabilitySupport {
    Supported,
    Unsupported(String),
    NotProbed(String),
}

/// A capability fact with its reason as characters.
pub enum Fact {
    Supported,
    Unsupported(Seq<char>),
    NotProbed(Seq<char>),
}

impl View for CapabilitySupport {
    type V = Fact;

    open spec fn view(&self) -> Fact {
        match self {
            CapabilitySupport::Supported => Fact::Supported,
            CapabilitySupport::Unsupported(r) => Fact::Unsupported(r@),
            CapabilitySupport::NotProbed(r) => Fact::NotProbed(r@),
        }
    }
}

/// The reason a capability is unavailable.
pub open spec fn reason_of(s: CapabilitySupport) -> Option<Seq<char>> {
    match s {
        CapabilitySupport::Supported => None,
        CapabilitySupport::Unsupported(r) => Some(r@),
        CapabilitySupport::NotProbed(r) => Some(r@),
    }
}

impl CapabilitySupport {
    pub fn supported() -> (s: Self)
        ensures
            s == CapabilitySupport::Supported,
    {
        CapabilitySupport::Supported
    }

    pub fn unsupported(reason: &str) -> (s: Self)
        ensures
            s@ == Fact::Unsupported(reason@),
    {
        CapabilitySupport::Unsupported(String::from_str(reason))
    }

    pub fn not_probed(reason: &str) -> (s: Self)
        ensures
            s@ == Fact::NotProbed(reason@),
    {
        CapabilitySupport::NotProbed(String::from_str(reason))
    }

    pub fn is_supported(&self) -> (b: bool)
        ensures
            b == (*self is Supported),
    {
        matches!(self, CapabilitySupport::Supported)
    }

    pub fn unavailable_reason(&self) -> (r: Option<&str>)
        ensures
            r is Some <==> !(*self is Supported),
            r matches Some(t) ==> Some(t@) == reason_of(*self),
    {
        match self {
            CapabilitySupport::Supported => None,
            CapabilitySupport::Unsupported(reason) => Some(reason.as_str()),
            CapabilitySupport::NotProbed(reason) => Some(reason.as_str()),
        }
    }

    /// An identical copy.
    pub fn copied(&self) -> (c: Self)
        ensures
            c == *self,
    {
        match self {
            CapabilitySupport::Supported => CapabilitySupport::Supported,
            CapabilitySupport::Unsupported(r) => CapabilitySupport::Unsupported(r.clone()),
            CapabilitySupport::NotProbed(r) => CapabilitySupport::NotProbed(r.clone()),
        }
    }
}

/// Reported for codecs outside the qualified hardware set.
pub open spec fn unsupported_codec_text() -> Seq<char> {
    "codec is outside the qualified hardware input set"@
}

fn unsupported_codec() -> (s: CapabilitySupport)
    ensures
        s@ == Fact::NotProbed(unsupported_codec_text()),
{
    proof { reveal_strlit("codec is outside the qualified hardware input set"); }
    CapabilitySupport::not_probed("codec is outside the qualified hardware input set")
}

/// Video codecs the planner distinguishes.
#[derive(Clone, Debug, PartialEq, Eq)]
pub enum VideoCodec {
    H264,
    Hevc,
    Av1,
    Other(String),
}

/// Printed codec name.
pub open spec fn codec_text(c: VideoCodec) -> Seq<char> {
    match c {
        VideoCodec::H264 => "H.264"@,
        VideoCodec::Hevc => "HEVC"@,
        VideoCodec::Av1 => "AV1"@,
        VideoCodec::Other(name) => name@,
    }
}

/// Codec identity by value, with names compared by characters.
pub open spec fn same_codec(a: VideoCodec, b: VideoCodec) -> bool {
    match (a, b) {
        (VideoCodec::H264, VideoCodec::H264) => true,
        (VideoCodec::Hevc, VideoCodec::Hevc) => true,
        (VideoCodec::Av1, VideoCodec::Av1) => true,
        (VideoCodec::Other(x), VideoCodec::Other(y)) => x@ == y@,
        _ => false,
    }
}

impl VideoCodec {
    pub fn copied(&self) -> (c: Self)
        ensures
            c == *self,
    {
        match self {
            VideoCodec::H264 => VideoCodec::H264,
            VideoCodec::Hevc => VideoCodec::Hevc,
            VideoCodec::Av1 => VideoCodec::Av1,
            VideoCodec::Other(n) => VideoCodec::Other(n.clone()),
        }
    }

    /// The printed name.
    pub fn to_string(&self) -> (s: String)
        ensures
            s@ == codec_text(*self),
    {
        proof {
            reveal_strlit("H.264");
            reveal_strlit("HEVC");
            reveal_strlit("AV1");
        }
        match self {
            VideoCodec::H264 => String::from_str("H.264"),
            VideoCodec::Hevc => String::from_str("HEVC"),
            VideoCodec::Av1 => String::from_str("AV1"),
            VideoCodec::Other(n) => n.clone(),
        }
    }

    pub fn same(&self, other: &VideoCodec) -> (b: bool)
        ensures
            b == same_codec(*self, *other),
    {
        match (self, other) {
            (VideoCodec::H264, VideoCodec::H264) => true,
            (VideoCodec::Hevc, VideoCodec::Hevc) => true,
            (VideoCodec::Av1, VideoCodec::Av1) => true,
            (VideoCodec::Other(x), VideoCodec::Other(y)) => crate::text::str_eq(x.as_str(), y.as_str()),
            _ => false,
        }
    }
}

/// Codec profiles named by the planner.
#[derive(Clone, Debug, PartialEq, Eq)]
pub enum VideoProfile {
    H264Baseline,
    H264Main,
    H264High,
    HevcMain,
    HevcMain10,
    Av1Main,
    Other(String),
}

impl VideoProfile {
    pub fn copied(&self) -> (c: Self)
        ensures
            c == *self,
    {
        match self {
            VideoProfile::H264Baseline => VideoProfile::H264Baseline,
            VideoProfile::H264Main => VideoProfile::H264Main,
            VideoProfile::H264High => VideoProfile::H264High,
            VideoProfile::HevcMain => VideoProfile::HevcMain,
            VideoProfile::HevcMain10 => VideoProfile::HevcMain10,
            VideoProfile::Av1Main => VideoProfile::Av1Main,
            VideoProfile::Other(n) => VideoProfile::Other(n.clone()),
        }
    }

    /// Profile for an FFmpeg profile name.
    pub fn from_name(name: &str) -> (p: Self)
        ensures
            profile_named(p, name@),
    {
        proof {
            reveal_strlit("High");
            reveal_strlit("Baseline");
            reveal_strlit("Constrained Baseline");
        }
        if crate::text::str_eq(name, "High") {
            VideoProfile::H264High
        } else if crate::text::str_eq(name, "Baseline") || crate::text::str_eq(name, "Constrained Baseline") {
            VideoProfile::H264Baseline
        } else {
            VideoProfile::Other(String::from_str(name))
        }
    }
}

/// `p` is the profile named `name`; unknown names keep their text.
pub open spec fn profile_named(p: VideoProfile, name: Seq<char>) -> bool {
    if name == "High"@ {
        p == VideoProfile::H264High
    } else if name == "Baseline"@ || name == "Constrained Baseline"@ {
        p == VideoProfile::H264Baseline
    } else {
        match p {
            VideoProfile::Other(n) => n@ == name,
            _ => false,
        }
    }
}

/// Media (decode/encode) capability facts.
#[derive(Clone, Debug, PartialEq, Eq)]
pub struct MediaCapabilities {
    pub software_decode: CapabilitySupport,
    pub software_encode: CapabilitySupport,
    pub vaapi_device: CapabilitySupport,
    pub h264_vaapi_decode: CapabilitySupport,
    pub hevc_vaapi_decode: CapabilitySupport,
    pub av1_vaapi_decode: CapabilitySupport,
    pub h264_vaapi_encode: CapabilitySupport,
    pub hevc_vaapi_encode: CapabilitySupport,
    pub hevc_main10_vaapi_decode: CapabilitySupport,
    pub av1_10bit_vaapi_decode: CapabilitySupport,
    pub hevc_main10_vaapi_encode: CapabilitySupport,
    pub av1_vaapi_encode: CapabilitySupport,
    pub av1_10bit_vaapi_encode: CapabilitySupport,
    pub nv12_hardware_frames: CapabilitySupport,
    pub nv12_hardware_upload: CapabilitySupport,
    pub p010_hardware_frames: CapabilitySupport,
    pub p010_hardware_upload: CapabilitySupport,
}

#[derive(Clone, Copy, Debug, PartialEq, Eq, Structural)]
pub enum VulkanDeviceKind {
    DiscreteGpu,
    IntegratedGpu,
    VirtualGpu,
    Cpu,
    Other,
}

/// Processing (CPU / Vulkan) capability facts.
#[derive(Clone, Debug, PartialEq, Eq)]
pub struct ProcessingCapabilities {
    pub cpu: CapabilitySupport,
    pub vulkan: CapabilitySupport,
    pub vulkan_auto_eligible: bool,
    pub vulkan_device_name: Option<String>,
    pub vulkan_device_kind: Option<VulkanDeviceKind>,
    pub compute_queue: CapabilitySupport,
    pub storage_buffer_8bit: CapabilitySupport,
    pub shader_int64: CapabilitySupport,
    pub synchronization2: CapabilitySupport,
}

/// VAAPI/Vulkan interop qualification, per codec and format.
#[derive(Clone, Debug, PartialEq, Eq)]
pub struct InteropCapabilities {
    pub input: CapabilitySupport,
    pub hevc_input: CapabilitySupport,
    pub av1_input: CapabilitySupport,
    pub output: CapabilitySupport,
    pub hevc_output: CapabilitySupport,
    pub av1_output: CapabilitySupport,
    pub p010_input: CapabilitySupport,
    pub p010_output: CapabilitySupport,
    pub av1_p010_output: CapabilitySupport,
}

/// Output interop qualification by pixel format.
#[derive(Clone, Debug, PartialEq, Eq)]
pub struct FormatOutputInteropCapabilities {
    pub nv12: CapabilitySupport,
    pub p010: CapabilitySupport,
}

impl FormatOutputInteropCapabilities {
    pub fn for_format(&self, format: PixelFormat) -> (s: &CapabilitySupport)
        ensures
            *s == (match format { PixelFormat::Nv12 => self.nv12, PixelFormat::P010Le => self.p010 }),
    {
        match format {
            PixelFormat::Nv12 => &self.nv12,
            PixelFormat::P010Le => &self.p010,
        }
    }
}

/// Everything the planner knows about the machine.
#[derive(Clone, Debug, PartialEq, Eq)]
pub struct CapabilitySnapshot {
    pub media: MediaCapabilities,
    pub processing: ProcessingCapabilities,
    pub interop: InteropCapabilities,
}

/// The 8-bit VAAPI decode fact for a codec.
pub open spec fn decode_for_spec(m: MediaCapabilities, codec: VideoCodec) -> Fact {
    match codec {
        VideoCodec::H264 => m.h264_vaapi_decode@,
        VideoCodec::Hevc => m.hevc_vaapi_decode@,
        VideoCodec::Av1 => m.av1_vaapi_decode@,
        VideoCodec::Other(_) => Fact::NotProbed(unsupported_codec_text()),
    }
}

/// The 8-bit VAAPI encode fact for a codec.
pub open spec fn encode_for_spec(m: MediaCapabilities, codec: VideoCodec) -> Fact {
    match codec {
        VideoCodec::H264 => m.h264_vaapi_encode@,
        VideoCodec::Hevc => m.hevc_vaapi_encode@,
        VideoCodec::Av1 => m.av1_vaapi_encode@,
        VideoCodec::Other(_) => Fact::NotProbed(unsupported_codec_text()),
    }
}

/// The input interop fact for a codec.
pub open spec fn input_for_spec(i: InteropCapabilities, codec: VideoCodec) -> Fact {
    match codec {
        VideoCodec::H264 => i.input@,
        VideoCodec::Hevc => i.hevc_input@,
        VideoCodec::Av1 => i.av1_input@,
        VideoCodec::Other(_) => Fact::NotProbed(unsupported_codec_text()),
    }
}

/// The 8-bit output interop fact for a codec.
pub open spec fn output_for_spec(i: InteropCapabilities, codec: VideoCodec) -> Fact {
    match codec {
        VideoCodec::H264 => i.output@,
        VideoCodec::Hevc => i.hevc_output@,
        VideoCodec::Av1 => i.av1_output@,
        VideoCodec::Other(_) => Fact::NotProbed(unsupported_codec_text()),
    }
}

impl MediaCapabilities {
    pub fn decode_for(&self, codec: &VideoCodec) -> (s: CapabilitySupport)
        ensures
            s@ == decode_for_spec(*self, *codec),
    {
        match codec {
            VideoCodec::H264 => self.h264_vaapi_decode.copied(),
            VideoCodec::Hevc => self.hevc_vaapi_decode.copied(),
            VideoCodec::Av1 => self.av1_vaapi_decode.copied(),
            VideoCodec::Other(_) => unsupported_codec(),
        }
    }

    pub fn encode_for(&self, codec: &VideoCodec) -> (s: CapabilitySupport)
        ensures
            s@ == encode_for_spec(*self, *codec),
    {
        match codec {
            VideoCodec::H264 => self.h264_vaapi_encode.copied(),
            VideoCodec::Hevc => self.hevc_vaapi_encode.copied(),
            VideoCodec::Av1 => self.av1_vaapi_encode.copied(),
            VideoCodec::Other(_) => unsupported_codec(),
        }
    }

    /// Marks the 8-bit VAAPI decoder of `codec` unsupported; other facts are kept.
    pub fn disable_decode(&mut self, codec: &VideoCodec, reason: &str)
        ensures
            *final(self) == (match *codec {
                VideoCodec::H264 => (MediaCapabilities { h264_vaapi_decode: final(self).h264_vaapi_decode, ..*old(self) }),
                VideoCodec::Hevc => (MediaCapabilities { hevc_vaapi_decode: final(self).hevc_vaapi_decode, ..*old(self) }),
                VideoCodec::Av1 => (MediaCapabilities { av1_vaapi_decode: final(self).av1_vaapi_decode, ..*old(self) }),
                VideoCodec::Other(_) => *old(self),
            }),
            !(*codec is Other) ==> decode_for_spec(*final(self), *codec) == Fact::Unsupported(reason@),
    {
        match codec {
            VideoCodec::H264 => self.h264_vaapi_decode = CapabilitySupport::unsupported(reason),
            VideoCodec::Hevc => self.hevc_vaapi_decode = CapabilitySupport::unsupported(reason),
            VideoCodec::Av1 => self.av1_vaapi_decode = CapabilitySupport::unsupported(reason),
            VideoCodec::Other(_) => {},
        }
    }

    /// Marks the 8-bit VAAPI encoder of `codec` unsupported; other facts are kept.
    pub fn disable_encode(&mut self, codec: &VideoCodec, reason: &str)
        ensures
            *final(self) == (match *codec {
                VideoCodec::H264 => (MediaCapabilities { h264_vaapi_encode: final(self).h264_vaapi_encode, ..*old(self) }),
                VideoCodec::Hevc => (MediaCapabilities { hevc_vaapi_encode: final(self).hevc_vaapi_encode, ..*old(self) }),
                VideoCodec::Av1 => (MediaCapabilities { av1_vaapi_encode: final(self).av1_vaapi_encode, ..*old(self) }),
                VideoCodec::Other(_) => *old(self),
            }),
            !(*codec is Other) ==> encode_for_spec(*final(self), *codec) == Fact::Unsupported(reason@),
    {
        match codec {
            VideoCodec::H264 => self.h264_vaapi_encode = CapabilitySupport::unsupported(reason),
            VideoCodec::Hevc => self.hevc_vaapi_encode = CapabilitySupport::unsupported(reason),
            VideoCodec::Av1 => self.av1_vaapi_encode = CapabilitySupport::unsupported(reason),
            VideoCodec::Other(_) => {},
        }
    }
}

impl InteropCapabilities {
    pub fn input_for(&self, codec: &VideoCodec) -> (s: CapabilitySupport)
        ensures
            s@ == input_for_spec(*self, *codec),
    {
        match codec {
            VideoCodec::H264 => self.input.copied(),
            VideoCodec::Hevc => self.hevc_input.copied(),
            VideoCodec::Av1 => self.av1_input.copied(),
            VideoCodec::Other(_) => unsupported_codec(),
        }
    }

    pub fn output_for(&self, codec: &VideoCodec) -> (s: CapabilitySupport)
        ensures
            s@ == output_for_spec(*self, *codec),
    {
        match codec {
            VideoCodec::H264 => self.output.copied(),
            VideoCodec::Hevc => self.hevc_output.copied(),
            VideoCodec::Av1 => self.av1_output.copied(),
            VideoCodec::Other(_) => unsupported_codec(),
        }
    }

    /// Replaces the input interop fact of `codec`; other facts are kept.
    pub fn set_input(&mut self, codec: &VideoCodec, fact: CapabilitySupport)
        ensures
            *final(self) == (match *codec {
                VideoCodec::H264 => (InteropCapabilities { input: fact, ..*old(self) }),
                VideoCodec::Hevc => (InteropCapabilities { hevc_input: fact, ..*old(self) }),
                VideoCodec::Av1 => (InteropCapabilities { av1_input: fact, ..*old(self) }),
                VideoCodec::Other(_) => *old(self),
            }),
    {
        match codec {
            VideoCodec::H264 => self.input = fact,
            VideoCodec::Hevc => self.hevc_input = fact,
            VideoCodec::Av1 => self.av1_input = fact,
            VideoCodec::Other(_) => {},
        }
    }

    /// Replaces the 8-bit output interop fact of `codec`; other facts are kept.
    pub fn set_output(&mut self, codec: &VideoCodec, fact: CapabilitySupport)
        ensures
            *final(self) == (match *codec {
                VideoCodec::H264 => (InteropCapabilities { output: fact, ..*old(self) }),
                VideoCodec::Hevc => (InteropCapabilities { hevc_output: fact, ..*old(self) }),
                VideoCodec::Av1 => (InteropCapabilities { av1_output: fact, ..*old(self) }),
                VideoCodec::Other(_) => *old(self),
            }),
    {
        match codec {
            VideoCodec::H264 => self.output = fact,
            VideoCodec::Hevc => self.hevc_output = fact,
            VideoCodec::Av1 => self.av1_output = fact,
            VideoCodec::Other(_) => {},
        }
    }
}

} // verus!
