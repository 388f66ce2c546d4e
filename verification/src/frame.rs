//! Host frame descriptors, byte layout of NV12 / P010LE, and frame storage.

use vstd::prelude::*;
use crate::error::{Error, Result, unsupported_with, invalid_with};
use crate::text::{cat, decimal, decimal_text};

verus! {

/// Planar 4:2:0 host formats: 8-bit NV12 and 10-bit-in-16 P010LE.
#[derive(Clone, Copy, Debug, PartialEq, Eq, Structural)]
pub enum PixelFormat {
    Nv12,
    P010Le,
}

pub open spec fn bytes_per_sample_spec(format: PixelFormat) -> nat {
    match format {
        PixelFormat::Nv12 => 1,
        PixelFormat::P010Le => 2,
    }
}

/// Bytes of the luma plane.
pub open spec fn y_plane_bytes(format: PixelFormat, width: nat, height: nat) -> nat {
    width * height * bytes_per_sample_spec(format)
}

/// Bytes of the whole frame: luma plus half as many interleaved chroma bytes.
pub open spec fn frame_bytes(format: PixelFormat, width: nat, height: nat) -> nat {
    y_plane_bytes(format, width, height) + y_plane_bytes(format, width, height) / 2
}

/// Debug name of a pixel format.
pub open spec fn format_name(format: PixelFormat) -> Seq<char> {
    match format {
        PixelFormat::Nv12 => "Nv12"@,
        PixelFormat::P010Le => "P010Le"@,
    }
}

impl PixelFormat {
    pub fn bytes_per_sample(self) -> (n: usize)
        ensures
            n == bytes_per_sample_spec(self),
    {
        match self {
            PixelFormat::Nv12 => 1,
            PixelFormat::P010Le => 2,
        }
    }

    /// Code value of neutral chroma.
    pub fn neutral_chroma(self) -> (v: u16)
        ensures
            v == (match self { PixelFormat::Nv12 => 128u16, PixelFormat::P010Le => 512u16 }),
    {
        match self {
            PixelFormat::Nv12 => 128,
            PixelFormat::P010Le => 512,
        }
    }

    /// Debug name.
    pub fn name(self) -> (s: &'static str)
        ensures
            s@ == format_name(self),
    {
        proof {
            reveal_strlit("Nv12");
            reveal_strlit("P010Le");
        }
        match self {
            PixelFormat::Nv12 => "Nv12",
            PixelFormat::P010Le => "P010Le",
        }
    }

    pub fn y_plane_len(self, width: u32, height: u32) -> (r: Result<usize>)
        ensures
            y_plane_bytes(self, width as nat, height as nat) <= usize::MAX
                ==> r == Ok::<usize, Error>(y_plane_bytes(self, width as nat, height as nat) as usize),
            y_plane_bytes(self, width as nat, height as nat) > usize::MAX
                ==> unsupported_with(r, "luma plane size overflows usize"@),
    {
        let bps = self.bytes_per_sample();
        let w = width as usize;
        let h = height as usize;
        proof {
            assert(y_plane_bytes(self, width as nat, height as nat) == (w as nat * h as nat) * bps as nat);
        }
        match w.checked_mul(h) {
            Some(pixels) => match pixels.checked_mul(bps) {
                Some(n) => Ok(n),
                None => {
                    proof { reveal_strlit("luma plane size overflows usize"); }
                    Err(Error::UnsupportedFrame(String::from_str("luma plane size overflows usize")))
                },
            },
            None => {
                proof {
                    reveal_strlit("luma plane size overflows usize");
                    assert((w as nat * h as nat) * bps as nat >= w as nat * h as nat) by (nonlinear_arith)
                        requires bps >= 1;
                }
                Err(Error::UnsupportedFrame(String::from_str("luma plane size overflows usize")))
            },
        }
    }

    pub fn uv_plane_len(self, width: u32, height: u32) -> (r: Result<usize>)
        ensures
            y_plane_bytes(self, width as nat, height as nat) <= usize::MAX
                ==> r == Ok::<usize, Error>((y_plane_bytes(self, width as nat, height as nat) / 2) as usize),
            y_plane_bytes(self, width as nat, height as nat) > usize::MAX
                ==> unsupported_with(r, "luma plane size overflows usize"@),
    {
        let y = self.y_plane_len(width, height)?;
        Ok(y / 2)
    }

    pub fn frame_byte_len(self, width: u32, height: u32) -> (r: Result<usize>)
        ensures
            frame_bytes(self, width as nat, height as nat) <= usize::MAX
                ==> r == Ok::<usize, Error>(frame_bytes(self, width as nat, height as nat) as usize),
            y_plane_bytes(self, width as nat, height as nat) > usize::MAX
                ==> unsupported_with(r, "luma plane size overflows usize"@),
            y_plane_bytes(self, width as nat, height as nat) <= usize::MAX
                && frame_bytes(self, width as nat, height as nat) > usize::MAX
                ==> unsupported_with(r, "frame size overflows usize"@),
    {
        let y = self.y_plane_len(width, height)?;
        let uv = self.uv_plane_len(width, height)?;
        match y.checked_add(uv) {
            Some(n) => Ok(n),
            None => {
                proof { reveal_strlit("frame size overflows usize"); }
                Err(Error::UnsupportedFrame(String::from_str("frame size overflows usize")))
            },
        }
    }
}

#[derive(Clone, Copy, Debug, PartialEq, Eq, Structural)]
pub enum MemoryDomain {
    Host,
}

#[derive(Clone, Copy, Debug, PartialEq, Eq, Structural)]
pub enum ColorMatrix {
    Bt601,
    Bt709,
    Bt2020,
    Bt2020Constant,
    Unspecified,
}

#[derive(Clone, Copy, Debug, PartialEq, Eq, Structural)]
pub enum ColorRange {
    Limited,
    Full,
    Unspecified,
}

#[derive(Clone, Copy, Debug, PartialEq, Eq, Structural)]
pub enum ColorPrimaries {
    Bt709,
    Bt2020,
    DisplayP3,
    Smpte170M,
    Bt470Bg,
    Unspecified,
}

#[derive(Clone, Copy, Debug, PartialEq, Eq, Structural)]
pub enum TransferCharacteristic {
    Bt709,
    Smpte170M,
    Srgb,
    Gamma22,
    Gamma28,
    Pq,
    Hlg,
    Unspecified,
}

#[derive(Clone, Copy, Debug, PartialEq, Eq, Structural)]
pub enum ChromaLocation {
    Left,
    Center,
    Unspecified,
}

/// Signaled color semantics of a frame.
#[derive(Clone, Copy, Debug, PartialEq, Eq, Structural)]
pub struct ColorSpace {
    pub matrix: ColorMatrix,
    pub range: ColorRange,
    pub primaries: ColorPrimaries,
    pub transfer: TransferCharacteristic,
    pub chroma_location: ChromaLocation,
}

/// BT.709, limited range, left-sited chroma.
pub open spec fn default_color_space() -> ColorSpace {
    ColorSpace {
        matrix: ColorMatrix::Bt709,
        range: ColorRange::Limited,
        primaries: ColorPrimaries::Bt709,
        transfer: TransferCharacteristic::Bt709,
        chroma_location: ChromaLocation::Left,
    }
}

impl Default for ColorSpace {
    fn default() -> (c: Self)
        ensures
            c == default_color_space(),
    {
        ColorSpace {
            matrix: ColorMatrix::Bt709,
            range: ColorRange::Limited,
            primaries: ColorPrimaries::Bt709,
            transfer: TransferCharacteristic::Bt709,
            chroma_location: ChromaLocation::Left,
        }
    }
}

/// A positive frame rate.
#[derive(Clone, Copy, Debug, PartialEq, Eq, Structural)]
pub struct Rational {
    pub numerator: i32,
    pub denominator: i32,
}

impl Rational {
    pub fn new(numerator: i32, denominator: i32) -> (r: Result<Self>)
        ensures
            numerator > 0 && denominator > 0
                ==> r == Ok::<Rational, Error>(Rational { numerator, denominator }),
            !(numerator > 0 && denominator > 0)
                ==> invalid_with(r, "frame rate must be positive"@),
    {
        if numerator <= 0 || denominator <= 0 {
            proof { reveal_strlit("frame rate must be positive"); }
            return Err(Error::InvalidConfig(String::from_str("frame rate must be positive")));
        }
        Ok(Rational { numerator, denominator })
    }
}

/// Geometry, format and byte size of a host frame.
#[derive(Clone, Debug, PartialEq, Eq)]
pub struct FrameDesc {
    pub width: u32,
    pub height: u32,
    pub format: PixelFormat,
    pub color_space: ColorSpace,
    pub memory: MemoryDomain,
    pub byte_len: usize,
}

/// Non-zero even dimensions.
pub open spec fn even_nonzero(width: u32, height: u32) -> bool {
    width != 0 && height != 0 && width % 2 == 0 && height % 2 == 0
}

/// What `FrameDesc::host` accepts.
pub open spec fn host_desc_ok(width: u32, height: u32, format: PixelFormat) -> bool {
    even_nonzero(width, height) && frame_bytes(format, width as nat, height as nat) <= usize::MAX
}

/// The descriptor `FrameDesc::host` builds.
pub open spec fn host_desc(width: u32, height: u32, format: PixelFormat, color_space: ColorSpace) -> FrameDesc {
    FrameDesc {
        width,
        height,
        format,
        color_space,
        memory: MemoryDomain::Host,
        byte_len: frame_bytes(format, width as nat, height as nat) as usize,
    }
}

/// Message of the dimension check.
pub open spec fn dimension_message(format: PixelFormat, width: u32, height: u32) -> Seq<char> {
    format_name(format) + " requires non-zero even dimensions, got "@
        + decimal_text(width as nat) + "x"@ + decimal_text(height as nat)
}

/// Message of a geometry `FrameDesc::host` refuses: odd or zero dimensions,
/// or a luma plane or frame size that does not fit in `usize`.
pub open spec fn layout_error_text(format: PixelFormat, width: u32, height: u32) -> Seq<char> {
    if !even_nonzero(width, height) {
        dimension_message(format, width, height)
    } else if y_plane_bytes(format, width as nat, height as nat) > usize::MAX {
        "luma plane size overflows usize"@
    } else {
        "frame size overflows usize"@
    }
}

impl FrameDesc {
    /// A descriptor whose byte size matches its format and even geometry.
    pub open spec fn wf(self) -> bool {
        &&& host_desc_ok(self.width, self.height, self.format)
        &&& self.memory == MemoryDomain::Host
        &&& self.byte_len == frame_bytes(self.format, self.width as nat, self.height as nat)
    }

    pub open spec fn y_len_spec(self) -> nat {
        (self.byte_len - self.byte_len / 3) as nat
    }

    pub fn host_nv12(width: u32, height: u32, color_space: ColorSpace) -> (r: Result<Self>)
        ensures
            host_desc_ok(width, height, PixelFormat::Nv12)
                ==> r == Ok::<FrameDesc, Error>(host_desc(width, height, PixelFormat::Nv12, color_space)),
            !host_desc_ok(width, height, PixelFormat::Nv12) ==> unsupported_with(r, layout_error_text(PixelFormat::Nv12, width, height)),
            !even_nonzero(width, height) ==> unsupported_with(r, dimension_message(PixelFormat::Nv12, width, height)),
    {
        Self::host(width, height, PixelFormat::Nv12, color_space)
    }

    pub fn host_p010_le(width: u32, height: u32, color_space: ColorSpace) -> (r: Result<Self>)
        ensures
            host_desc_ok(width, height, PixelFormat::P010Le)
                ==> r == Ok::<FrameDesc, Error>(host_desc(width, height, PixelFormat::P010Le, color_space)),
            !host_desc_ok(width, height, PixelFormat::P010Le) ==> unsupported_with(r, layout_error_text(PixelFormat::P010Le, width, height)),
            !even_nonzero(width, height) ==> unsupported_with(r, dimension_message(PixelFormat::P010Le, width, height)),
    {
        Self::host(width, height, PixelFormat::P010Le, color_space)
    }

    pub fn host(width: u32, height: u32, format: PixelFormat, color_space: ColorSpace) -> (r: Result<Self>)
        ensures
            host_desc_ok(width, height, format)
                ==> r == Ok::<FrameDesc, Error>(host_desc(width, height, format, color_space)),
            !host_desc_ok(width, height, format) ==> unsupported_with(r, layout_error_text(format, width, height)),
            !even_nonzero(width, height) ==> unsupported_with(r, dimension_message(format, width, height)),
            r matches Ok(d) ==> d.wf(),
    {
        if width == 0 || height == 0 || width % 2 != 0 || height % 2 != 0 {
            let mut m = cat(format.name(), " requires non-zero even dimensions, got ");
            let w = decimal(width as u64);
            m.append(w.as_str());
            m.append("x");
            let h = decimal(height as u64);
            m.append(h.as_str());
            proof {
                reveal_strlit(" requires non-zero even dimensions, got ");
                reveal_strlit("x");
            }
            return Err(Error::UnsupportedFrame(m));
        }
        let byte_len = format.frame_byte_len(width, height)?;
        Ok(FrameDesc { width, height, format, color_space, memory: MemoryDomain::Host, byte_len })
    }

    /// A field-by-field copy.
    pub fn copied(&self) -> (d: Self)
        ensures
            d == *self,
    {
        FrameDesc {
            width: self.width,
            height: self.height,
            format: self.format,
            color_space: self.color_space,
            memory: self.memory,
            byte_len: self.byte_len,
        }
    }

    pub fn byte_len(&self) -> (n: usize)
        ensures
            n == self.byte_len,
    {
        self.byte_len
    }

    /// Both formats have a 2:1 luma/chroma byte ratio.
    pub fn y_plane_len(&self) -> (n: usize)
        ensures
            n == self.y_len_spec(),
    {
        self.byte_len - self.byte_len / 3
    }

    pub fn uv_plane_len(&self) -> (n: usize)
        ensures
            n == self.byte_len - self.y_len_spec(),
    {
        self.byte_len - self.y_plane_len()
    }

    /// Bytes per luma row.
    pub fn y_stride(&self) -> (n: usize)
        requires
            self.width * bytes_per_sample_spec(self.format) <= usize::MAX,
        ensures
            n == self.width * bytes_per_sample_spec(self.format),
    {
        self.width as usize * self.format.bytes_per_sample()
    }

    /// Bytes per interleaved chroma row (equal to the luma stride).
    pub fn uv_stride(&self) -> (n: usize)
        requires
            self.width * bytes_per_sample_spec(self.format) <= usize::MAX,
        ensures
            n == self.width * bytes_per_sample_spec(self.format),
    {
        self.y_stride()
    }

    /// Checks that the descriptor is one `host` could have produced.
    pub fn validate_layout(&self) -> (r: Result<()>)
        ensures
            r is Ok <==> self.wf(),
            r is Err ==> r->Err_0 is UnsupportedFrame,
            !host_desc_ok(self.width, self.height, self.format)
                ==> unsupported_with(r, layout_error_text(self.format, self.width, self.height)),
            !even_nonzero(self.width, self.height) ==> unsupported_with(r, dimension_message(self.format, self.width, self.height)),
            host_desc_ok(self.width, self.height, self.format) && !self.wf()
                ==> unsupported_with(r, "frame descriptor layout is inconsistent"@),
    {
        let expected = Self::host(self.width, self.height, self.format, self.color_space)?;
        if self.memory != MemoryDomain::Host || self.byte_len != expected.byte_len {
            proof { reveal_strlit("frame descriptor layout is inconsistent"); }
            return Err(Error::UnsupportedFrame(String::from_str("frame descriptor layout is inconsistent")));
        }
        Ok(())
    }
}

/// Owned frame bytes: the luma plane followed by the chroma plane.
#[derive(Clone, Debug, PartialEq, Eq)]
pub struct HostFrame {
    data: Vec<u8>,
}

impl View for HostFrame {
    type V = Seq<u8>;

    closed spec fn view(&self) -> Seq<u8> {
        self.data@
    }
}

/// `n` zero bytes.
pub open spec fn zeros(n: nat) -> Seq<u8> {
    Seq::new(n, |i: int| 0u8)
}

/// Reserves exactly `additional` more bytes, reporting allocation failure.
#[verifier::external_body]
pub(crate) fn try_reserve_exact_bytes(data: &mut Vec<u8>, additional: usize) -> (r: core::result::Result<(), String>)
    ensures
        final(data)@ == old(data)@,
{
    data.try_reserve_exact(additional).map_err(|error| error.to_string())
}

impl HostFrame {
    /// A copy of the bytes.
    pub fn duplicate(&self) -> (f: Self)
        ensures
            f@ == self@,
    {
        let data = self.data.clone();
        assert(data@ =~= self.data@);
        HostFrame { data }
    }

    pub fn new_zeroed(desc: &FrameDesc) -> (f: Self)
        ensures
            f@ == zeros(desc.byte_len as nat),
    {
        HostFrame { data: vec![0u8; desc.byte_len()] }
    }

    /// Like `new_zeroed`, but validates the descriptor and reports allocation failure.
    pub fn try_new_zeroed(desc: &FrameDesc) -> (r: Result<Self>)
        ensures
            r matches Ok(f) ==> desc.wf() && f@ == zeros(desc.byte_len as nat),
            !desc.wf() ==> r is Err,
            desc.wf() && r is Err ==> r->Err_0 is UnsupportedFrame,
    {
        desc.validate_layout()?;
        let mut data: Vec<u8> = Vec::new();
        match try_reserve_exact_bytes(&mut data, desc.byte_len()) {
            Ok(()) => {},
            Err(message) => {
                let m = cat("cannot allocate frame: ", message.as_str());
                return Err(Error::UnsupportedFrame(m));
            },
        }
        data.resize(desc.byte_len(), 0u8);
        proof {
            assert(data@ =~= zeros(desc.byte_len as nat));
        }
        Ok(HostFrame { data })
    }

    pub fn from_bytes(desc: &FrameDesc, data: Vec<u8>) -> (r: Result<Self>)
        ensures
            r is Ok <==> desc.wf() && data@.len() == desc.byte_len,
            r matches Ok(f) ==> f@ == data@,
            desc.wf() && data@.len() != desc.byte_len ==> r matches Err(Error::UnsupportedFrame(_)),
    {
        desc.validate_layout()?;
        if data.len() != desc.byte_len() {
            let mut m = cat(desc.format.name(), " buffer is ");
            let got = decimal(data.len() as u64);
            m.append(got.as_str());
            m.append(" bytes; expected ");
            let want = decimal(desc.byte_len() as u64);
            m.append(want.as_str());
            return Err(Error::UnsupportedFrame(m));
        }
        Ok(HostFrame { data })
    }

    pub fn from_nv12(desc: &FrameDesc, data: Vec<u8>) -> (r: Result<Self>)
        ensures
            r is Ok <==> desc.format == PixelFormat::Nv12 && desc.wf() && data@.len() == desc.byte_len,
            r matches Ok(f) ==> f@ == data@,
            desc.format != PixelFormat::Nv12 ==> unsupported_with(r, "expected NV12 descriptor"@),
    {
        if desc.format != PixelFormat::Nv12 {
            proof { reveal_strlit("expected NV12 descriptor"); }
            return Err(Error::UnsupportedFrame(String::from_str("expected NV12 descriptor")));
        }
        Self::from_bytes(desc, data)
    }

    pub fn from_p010_le(desc: &FrameDesc, data: Vec<u8>) -> (r: Result<Self>)
        ensures
            r is Ok <==> desc.format == PixelFormat::P010Le && desc.wf() && data@.len() == desc.byte_len,
            r matches Ok(f) ==> f@ == data@,
            desc.format != PixelFormat::P010Le ==> unsupported_with(r, "expected P010LE descriptor"@),
    {
        if desc.format != PixelFormat::P010Le {
            proof { reveal_strlit("expected P010LE descriptor"); }
            return Err(Error::UnsupportedFrame(String::from_str("expected P010LE descriptor")));
        }
        Self::from_bytes(desc, data)
    }

    /// Sets byte `index` to `value`.
    pub fn set(&mut self, index: usize, value: u8)
        requires
            index < old(self)@.len(),
        ensures
            final(self)@ == old(self)@.update(index as int, value),
    {
        self.data.set(index, value);
    }

    pub fn as_slice(&self) -> (s: &[u8])
        ensures
            s@ == self@,
    {
        self.data.as_slice()
    }

    pub fn as_mut_slice(&mut self) -> (s: &mut [u8])
        ensures
            s@ == old(self)@,
            final(self)@ == final(s)@,
    {
        self.data.as_mut_slice()
    }

    /// Splits the bytes into the luma and chroma planes of `desc`.
    pub fn planes(&self, desc: &FrameDesc) -> (p: (&[u8], &[u8]))
        requires
            desc.y_len_spec() <= self@.len(),
        ensures
            p.0@ == self@.subrange(0, desc.y_len_spec() as int),
            p.1@ == self@.subrange(desc.y_len_spec() as int, self@.len() as int),
    {
        self.data.as_slice().split_at(desc.y_plane_len())
    }

    /// Mutable luma and chroma planes of `desc`.
    pub fn planes_mut(&mut self, desc: &FrameDesc) -> (p: (&mut [u8], &mut [u8]))
        requires
            desc.y_len_spec() <= old(self)@.len(),
        ensures
            p.0@ == old(self)@.subrange(0, desc.y_len_spec() as int),
            p.1@ == old(self)@.subrange(desc.y_len_spec() as int, old(self)@.len() as int),
            final(self)@ == final(p.0)@ + final(p.1)@,
    {
        let mid = desc.y_plane_len();
        self.data.as_mut_slice().split_at_mut(mid)
    }
}

/// A decoded frame: descriptor, timestamp, and matching host storage.
#[derive(Debug, PartialEq, Eq)]
pub struct VideoFrame {
    desc: FrameDesc,
    pts: Option<i64>,
    storage: HostFrame,
}

impl VideoFrame {
    pub closed spec fn desc_spec(self) -> FrameDesc {
        self.desc
    }

    pub closed spec fn pts_spec(self) -> Option<i64> {
        self.pts
    }

    pub closed spec fn bytes(self) -> Seq<u8> {
        self.storage@
    }

    /// A well-formed descriptor and storage of exactly its size.
    pub open spec fn wf(self) -> bool {
        self.desc_spec().wf() && self.bytes().len() == self.desc_spec().byte_len
    }

    /// Storage always matches the descriptor.
    #[verifier::type_invariant]
    spec fn storage_matches(self) -> bool {
        self.desc.wf() && self.storage@.len() == self.desc.byte_len
    }

    pub fn new_host(desc: FrameDesc, pts: Option<i64>, storage: HostFrame) -> (r: Result<Self>)
        ensures
            r is Ok <==> desc.wf() && storage@.len() == desc.byte_len,
            r matches Ok(f) ==> f.desc_spec() == desc && f.pts_spec() == pts && f.bytes() == storage@,
            desc.wf() && storage@.len() != desc.byte_len ==> unsupported_with(r, "storage does not match descriptor"@),
            r is Err ==> r->Err_0 is UnsupportedFrame,
            !host_desc_ok(desc.width, desc.height, desc.format)
                ==> unsupported_with(r, layout_error_text(desc.format, desc.width, desc.height)),
    {
        desc.validate_layout()?;
        if storage.as_slice().len() != desc.byte_len() {
            proof { reveal_strlit("storage does not match descriptor"); }
            return Err(Error::UnsupportedFrame(String::from_str("storage does not match descriptor")));
        }
        Ok(VideoFrame { desc, pts, storage })
    }

    /// The frame's descriptor, timestamp and bytes as one value.
    pub open spec fn parts(self) -> (FrameDesc, Option<i64>, Seq<u8>) {
        (self.desc_spec(), self.pts_spec(), self.bytes())
    }

    /// The descriptor (every frame is well formed).
    pub fn desc(&self) -> (d: &FrameDesc)
        ensures
            *d == self.desc_spec(),
            self.wf(),
    {
        proof { use_type_invariant(self); }
        &self.desc
    }

    pub fn pts(&self) -> (p: Option<i64>)
        ensures
            p == self.pts_spec(),
    {
        self.pts
    }

    pub fn host(&self) -> (h: &HostFrame)
        ensures
            h@ == self.bytes(),
    {
        &self.storage
    }

    pub fn into_host(self) -> (h: HostFrame)
        ensures
            h@ == self.bytes(),
    {
        self.storage
    }
}

impl Clone for VideoFrame {
    fn clone(&self) -> (f: Self)
        ensures
            f.parts() == self.parts(),
    {
        proof { use_type_invariant(self); }
        VideoFrame { desc: self.desc.copied(), pts: self.pts, storage: self.storage.duplicate() }
    }
}

} // verus!
