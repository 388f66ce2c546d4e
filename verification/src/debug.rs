//! Debug-style text of the planner's enums, as printed in diagnostics.

use vstd::prelude::*;
use crate::frame::{ColorMatrix, ColorRange, ColorPrimaries, TransferCharacteristic, ChromaLocation, ColorSpace};
use crate::planner::caps::{VideoCodec, VideoProfile};
use crate::text::{decimal, decimal_text, cat};

verus! {

/// Rust `Debug` text of a string: quoted, with escapes.
pub uninterp spec fn str_debug_text(s: Seq<char>) -> Seq<char>;

/// `Debug` formatting of a string (quotes and escapes).
#[verifier::external_body]
pub(crate) fn str_debug(s: &str) -> (r: String)
    ensures
        r@ == str_debug_text(s@),
{
    format!("{:?}", s)
}

pub open spec fn codec_debug_text(c: VideoCodec) -> Seq<char> {
    match c {
        VideoCodec::H264 => "H264"@,
        VideoCodec::Hevc => "Hevc"@,
        VideoCodec::Av1 => "Av1"@,
        VideoCodec::Other(n) => "Other("@ + str_debug_text(n@) + ")"@,
    }
}

pub fn codec_debug(c: &VideoCodec) -> (s: String)
    ensures
        s@ == codec_debug_text(*c),
{
    proof {
        reveal_strlit("H264");
        reveal_strlit("Hevc");
        reveal_strlit("Av1");
        reveal_strlit("Other(");
        reveal_strlit(")");
    }
    match c {
        VideoCodec::H264 => String::from_str("H264"),
        VideoCodec::Hevc => String::from_str("Hevc"),
        VideoCodec::Av1 => String::from_str("Av1"),
        VideoCodec::Other(n) => {
            let inner = str_debug(n.as_str());
            let mut s = cat("Other(", inner.as_str());
            s.append(")");
            s
        },
    }
}

pub open spec fn profile_debug_text(p: VideoProfile) -> Seq<char> {
    match p {
        VideoProfile::H264Baseline => "H264Baseline"@,
        VideoProfile::H264Main => "H264Main"@,
        VideoProfile::H264High => "H264High"@,
        VideoProfile::HevcMain => "HevcMain"@,
        VideoProfile::HevcMain10 => "HevcMain10"@,
        VideoProfile::Av1Main => "Av1Main"@,
        VideoProfile::Other(n) => "Other("@ + str_debug_text(n@) + ")"@,
    }
}

pub open spec fn option_profile_debug_text(p: Option<VideoProfile>) -> Seq<char> {
    match p {
        Some(x) => "Some("@ + profile_debug_text(x) + ")"@,
        None => "None"@,
    }
}

pub fn option_profile_debug(p: &Option<VideoProfile>) -> (s: String)
    ensures
        s@ == option_profile_debug_text(*p),
{
    proof {
        reveal_strlit("H264Baseline");
        reveal_strlit("H264Main");
        reveal_strlit("H264High");
        reveal_strlit("HevcMain");
        reveal_strlit("HevcMain10");
        reveal_strlit("Av1Main");
        reveal_strlit("Other(");
        reveal_strlit(")");
        reveal_strlit("Some(");
        reveal_strlit("None");
    }
    match p {
        None => String::from_str("None"),
        Some(x) => {
            let inner = match x {
                VideoProfile::H264Baseline => String::from_str("H264Baseline"),
                VideoProfile::H264Main => String::from_str("H264Main"),
                VideoProfile::H264High => String::from_str("H264High"),
                VideoProfile::HevcMain => String::from_str("HevcMain"),
                VideoProfile::HevcMain10 => String::from_str("HevcMain10"),
                VideoProfile::Av1Main => String::from_str("Av1Main"),
                VideoProfile::Other(n) => {
                    let d = str_debug(n.as_str());
                    let mut s = cat("Other(", d.as_str());
                    s.append(")");
                    s
                },
            };
            let mut s = cat("Some(", inner.as_str());
            s.append(")");
            s
        },
    }
}

/// Bit depth as printed in messages: the number, or `unknown`.
pub open spec fn depth_text(d: Option<u8>) -> Seq<char> {
    match d {
        Some(v) => decimal_text(v as nat),
        None => "unknown"@,
    }
}

pub fn depth_string(d: Option<u8>) -> (s: String)
    ensures
        s@ == depth_text(d),
{
    proof { reveal_strlit("unknown"); }
    match d {
        Some(v) => decimal(v as u64),
        None => String::from_str("unknown"),
    }
}

pub open spec fn option_u8_debug_text(d: Option<u8>) -> Seq<char> {
    match d {
        Some(v) => "Some("@ + decimal_text(v as nat) + ")"@,
        None => "None"@,
    }
}

pub fn option_u8_debug(d: Option<u8>) -> (s: String)
    ensures
        s@ == option_u8_debug_text(d),
{
    proof {
        reveal_strlit("Some(");
        reveal_strlit(")");
        reveal_strlit("None");
    }
    match d {
        Some(v) => {
            let n = decimal(v as u64);
            let mut s = cat("Some(", n.as_str());
            s.append(")");
            s
        },
        None => String::from_str("None"),
    }
}

pub open spec fn matrix_debug_text(m: ColorMatrix) -> Seq<char> {
    match m {
        ColorMatrix::Bt601 => "Bt601"@,
        ColorMatrix::Bt709 => "Bt709"@,
        ColorMatrix::Bt2020 => "Bt2020"@,
        ColorMatrix::Bt2020Constant => "Bt2020Constant"@,
        ColorMatrix::Unspecified => "Unspecified"@,
    }
}

pub open spec fn range_debug_text(r: ColorRange) -> Seq<char> {
    match r {
        ColorRange::Limited => "Limited"@,
        ColorRange::Full => "Full"@,
        ColorRange::Unspecified => "Unspecified"@,
    }
}

pub open spec fn primaries_debug_text(p: ColorPrimaries) -> Seq<char> {
    match p {
        ColorPrimaries::Bt709 => "Bt709"@,
        ColorPrimaries::Bt2020 => "Bt2020"@,
        ColorPrimaries::DisplayP3 => "DisplayP3"@,
        ColorPrimaries::Smpte170M => "Smpte170M"@,
        ColorPrimaries::Bt470Bg => "Bt470Bg"@,
        ColorPrimaries::Unspecified => "Unspecified"@,
    }
}

pub open spec fn transfer_debug_text(t: TransferCharacteristic) -> Seq<char> {
    match t {
        TransferCharacteristic::Bt709 => "Bt709"@,
        TransferCharacteristic::Smpte170M => "Smpte170M"@,
        TransferCharacteristic::Srgb => "Srgb"@,
        TransferCharacteristic::Gamma22 => "Gamma22"@,
        TransferCharacteristic::Gamma28 => "Gamma28"@,
        TransferCharacteristic::Pq => "Pq"@,
        TransferCharacteristic::Hlg => "Hlg"@,
        TransferCharacteristic::Unspecified => "Unspecified"@,
    }
}

pub open spec fn chroma_location_debug_text(c: ChromaLocation) -> Seq<char> {
    match c {
        ChromaLocation::Left => "Left"@,
        ChromaLocation::Center => "Center"@,
        ChromaLocation::Unspecified => "Unspecified"@,
    }
}

pub open spec fn color_space_debug_text(c: ColorSpace) -> Seq<char> {
    "ColorSpace { matrix: "@ + matrix_debug_text(c.matrix)
        + ", range: "@ + range_debug_text(c.range)
        + ", primaries: "@ + primaries_debug_text(c.primaries)
        + ", transfer: "@ + transfer_debug_text(c.transfer)
        + ", chroma_location: "@ + chroma_location_debug_text(c.chroma_location) + " }"@
}

fn matrix_debug(m: ColorMatrix) -> (s: &'static str)
    ensures
        s@ == matrix_debug_text(m),
{
    proof {
        reveal_strlit("Bt601");
        reveal_strlit("Bt709");
        reveal_strlit("Bt2020");
        reveal_strlit("Bt2020Constant");
        reveal_strlit("Unspecified");
    }
    match m {
        ColorMatrix::Bt601 => "Bt601",
        ColorMatrix::Bt709 => "Bt709",
        ColorMatrix::Bt2020 => "Bt2020",
        ColorMatrix::Bt2020Constant => "Bt2020Constant",
        ColorMatrix::Unspecified => "Unspecified",
    }
}

fn range_debug(r: ColorRange) -> (s: &'static str)
    ensures
        s@ == range_debug_text(r),
{
    proof {
        reveal_strlit("Limited");
        reveal_strlit("Full");
        reveal_strlit("Unspecified");
    }
    match r {
        ColorRange::Limited => "Limited",
        ColorRange::Full => "Full",
        ColorRange::Unspecified => "Unspecified",
    }
}

fn primaries_debug(p: ColorPrimaries) -> (s: &'static str)
    ensures
        s@ == primaries_debug_text(p),
{
    proof {
        reveal_strlit("Bt709");
        reveal_strlit("Bt2020");
        reveal_strlit("DisplayP3");
        reveal_strlit("Smpte170M");
        reveal_strlit("Bt470Bg");
        reveal_strlit("Unspecified");
    }
    match p {
        ColorPrimaries::Bt709 => "Bt709",
        ColorPrimaries::Bt2020 => "Bt2020",
        ColorPrimaries::DisplayP3 => "DisplayP3",
        ColorPrimaries::Smpte170M => "Smpte170M",
        ColorPrimaries::Bt470Bg => "Bt470Bg",
        ColorPrimaries::Unspecified => "Unspecified",
    }
}

fn transfer_debug(t: TransferCharacteristic) -> (s: &'static str)
    ensures
        s@ == transfer_debug_text(t),
{
    proof {
        reveal_strlit("Bt709");
        reveal_strlit("Smpte170M");
        reveal_strlit("Srgb");
        reveal_strlit("Gamma22");
        reveal_strlit("Gamma28");
        reveal_strlit("Pq");
        reveal_strlit("Hlg");
        reveal_strlit("Unspecified");
    }
    match t {
        TransferCharacteristic::Bt709 => "Bt709",
        TransferCharacteristic::Smpte170M => "Smpte170M",
        TransferCharacteristic::Srgb => "Srgb",
        TransferCharacteristic::Gamma22 => "Gamma22",
        TransferCharacteristic::Gamma28 => "Gamma28",
        TransferCharacteristic::Pq => "Pq",
        TransferCharacteristic::Hlg => "Hlg",
        TransferCharacteristic::Unspecified => "Unspecified",
    }
}

fn chroma_location_debug(c: ChromaLocation) -> (s: &'static str)
    ensures
        s@ == chroma_location_debug_text(c),
{
    proof {
        reveal_strlit("Left");
        reveal_strlit("Center");
        reveal_strlit("Unspecified");
    }
    match c {
        ChromaLocation::Left => "Left",
        ChromaLocation::Center => "Center",
        ChromaLocation::Unspecified => "Unspecified",
    }
}

pub fn color_space_debug(c: ColorSpace) -> (s: String)
    ensures
        s@ == color_space_debug_text(c),
{
    proof {
        reveal_strlit("ColorSpace { matrix: ");
        reveal_strlit(", range: ");
        reveal_strlit(", primaries: ");
        reveal_strlit(", transfer: ");
        reveal_strlit(", chroma_location: ");
        reveal_strlit(" }");
    }
    let mut s = cat("ColorSpace { matrix: ", matrix_debug(c.matrix));
    s.append(", range: ");
    s.append(range_debug(c.range));
    s.append(", primaries: ");
    s.append(primaries_debug(c.primaries));
    s.append(", transfer: ");
    s.append(transfer_debug(c.transfer));
    s.append(", chroma_location: ");
    s.append(chroma_location_debug(c.chroma_location));
    s.append(" }");
    s
}

} // verus!
