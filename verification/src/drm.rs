//! DRM PRIME frame descriptors: the checked, plain-value snapshot of what a
//! VAAPI surface export reports, and the plane layout Vulkan imports from it.

use vstd::prelude::*;
use crate::debug::{str_debug, str_debug_text};
use crate::error::{media_with, unsupported_with, Error, Result};
use crate::frame::{bytes_per_sample_spec, PixelFormat};
use crate::text::{cat, decimal, decimal_text, push_char, signed_decimal, signed_text};

verus! {

/// `R8  `: one 8-bit channel.
pub const DRM_FORMAT_R8: u32 = 0x2020_3852u32;
/// `GR88`: two 8-bit channels.
pub const DRM_FORMAT_GR88: u32 = 0x3838_5247u32;
/// `R16 `: one 16-bit channel.
pub const DRM_FORMAT_R16: u32 = 0x2036_3152u32;
/// `GR32`: two 16-bit channels.
pub const DRM_FORMAT_GR32: u32 = 0x3233_5247u32;

/// A DMA-BUF object of an exported frame.
#[derive(Clone, Copy, Debug, PartialEq, Eq, Structural)]
pub struct DrmObject {
    pub fd: i32,
    pub size: u64,
    pub format_modifier: u64,
}

/// A plane: where in which object its rows start, and the row pitch.
#[derive(Clone, Copy, Debug, PartialEq, Eq, Structural)]
pub struct DrmPlane {
    pub object_index: usize,
    pub offset: u64,
    pub pitch: u64,
}

/// A layer with its DRM fourcc format and planes.
#[derive(Clone, Debug, PartialEq, Eq)]
pub struct DrmLayer {
    pub format: u32,
    pub planes: Vec<DrmPlane>,
}

/// The validated descriptor of an exported frame.
#[derive(Clone, Debug, PartialEq, Eq)]
pub struct DrmPrimeFrameDesc {
    pub width: u32,
    pub height: u32,
    pub objects: Vec<DrmObject>,
    pub layers: Vec<DrmLayer>,
}

/// Byte `i` (little-endian) of `v`.
pub open spec fn le_byte(v: u32, i: nat) -> nat {
    ((v as nat) / pow256(i)) % 256
}

pub open spec fn pow256(i: nat) -> nat
    decreases i,
{
    if i == 0 { 1 } else { 256 * pow256((i - 1) as nat) }
}

/// A printable ASCII byte stands for itself, any other byte for `.`.
pub open spec fn fourcc_char(b: nat) -> char {
    if 0x21 <= b <= 0x7e { (b as u8) as char } else { '.' }
}

/// The four bytes of a fourcc, least significant first, as text.
pub open spec fn fourcc_text(v: u32) -> Seq<char> {
    seq![fourcc_char(le_byte(v, 0)), fourcc_char(le_byte(v, 1)), fourcc_char(le_byte(v, 2)), fourcc_char(le_byte(v, 3))]
}

fn fourcc_byte_char(b: u32) -> (c: char)
    requires
        b < 256,
    ensures
        c == fourcc_char(b as nat),
{
    if 0x21 <= b && b <= 0x7e {
        (b as u8) as char
    } else {
        '.'
    }
}

/// The printable name of a DRM fourcc code.
pub fn fourcc_name(value: u32) -> (s: String)
    ensures
        s@ == fourcc_text(value),
{
    proof {
        assert(pow256(0) == 1);
        assert(pow256(1) == 256);
        assert(pow256(2) == 65536);
        assert(pow256(3) == 16777216);
    }
    let mut s = String::new();
    push_char(&mut s, fourcc_byte_char(value % 256));
    push_char(&mut s, fourcc_byte_char((value / 256) % 256));
    push_char(&mut s, fourcc_byte_char((value / 65536) % 256));
    push_char(&mut s, fourcc_byte_char((value / 16777216) % 256));
    proof {
        assert(s@ =~= fourcc_text(value));
    }
    s
}

/// What `bounded_count` reports: the count, or the message of its error.
pub open spec fn bounded_count_spec(kind: Seq<char>, value: i32, capacity: usize) -> core::result::Result<usize, Seq<char>> {
    if value < 0 {
        Err("DRM PRIME "@ + kind + " count is negative: "@ + signed_text(value as int))
    } else if value == 0 || value > capacity {
        Err("DRM PRIME "@ + kind + " count "@ + decimal_text(value as nat) + " is outside 1..="@
            + decimal_text(capacity as nat))
    } else {
        Ok(value as usize)
    }
}

/// A count reported by the export, accepted only within `1..=capacity`.
pub fn bounded_count(kind: &str, value: i32, capacity: usize) -> (r: Result<usize>)
    ensures
        match bounded_count_spec(kind@, value, capacity) {
            Ok(n) => r == Ok::<usize, Error>(n),
            Err(m) => media_with(r, m),
        },
{
    proof {
        reveal_strlit("DRM PRIME ");
        reveal_strlit(" count is negative: ");
        reveal_strlit(" count ");
        reveal_strlit(" is outside 1..=");
    }
    if value < 0 {
        let mut m = cat("DRM PRIME ", kind);
        m.append(" count is negative: ");
        let v = signed_decimal(value as i64);
        m.append(v.as_str());
        return Err(Error::Media(m));
    }
    let count = value as usize;
    if count == 0 || count > capacity {
        let mut m = cat("DRM PRIME ", kind);
        m.append(" count ");
        let c = decimal(count as u64);
        m.append(c.as_str());
        m.append(" is outside 1..=");
        let cap = decimal(capacity as u64);
        m.append(cap.as_str());
        Err(Error::Media(m))
    } else {
        Ok(count)
    }
}

/// One past the last byte a plane of `rows` rows of `row_bytes` bytes uses.
pub open spec fn plane_end(plane: DrmPlane, rows: u32, row_bytes: u64) -> int {
    (if rows == 0 { 0int } else { rows - 1 }) * plane.pitch + plane.offset + row_bytes
}

/// What `require_plane_in_object` reports: nothing, or the message of its error.
pub open spec fn plane_in_object_error(name: Seq<char>, plane: DrmPlane, rows: u32, row_bytes: u64, object_size: u64) -> Option<Seq<char>> {
    let end = plane_end(plane, rows, row_bytes);
    if end > u64::MAX {
        Some("DRM PRIME "@ + name + " plane range overflow"@)
    } else if end > object_size {
        Some("DRM PRIME "@ + name + " plane ends at "@ + decimal_text(end as nat) + ", beyond object size "@
            + decimal_text(object_size as nat))
    } else {
        None
    }
}

/// Rejects a plane whose rows would run past the end of its object.
pub fn require_plane_in_object(name: &str, plane: &DrmPlane, rows: u32, row_bytes: u64, object_size: u64) -> (r: Result<()>)
    ensures
        match plane_in_object_error(name@, *plane, rows, row_bytes, object_size) {
            None => r is Ok,
            Some(m) => media_with(r, m),
        },
{
    proof {
        reveal_strlit("DRM PRIME ");
        reveal_strlit(" plane range overflow");
        reveal_strlit(" plane ends at ");
        reveal_strlit(", beyond object size ");
    }
    let last_rows: u64 = if rows == 0 { 0 } else { (rows - 1) as u64 };
    let total = match last_rows.checked_mul(plane.pitch) {
        Some(last_row) => match plane.offset.checked_add(last_row) {
            Some(start) => start.checked_add(row_bytes),
            None => None,
        },
        None => None,
    };
    proof {
        assert(last_rows * plane.pitch >= 0) by (nonlinear_arith);
    }
    match total {
        None => {
            let m = cat3_media(name, " plane range overflow");
            Err(Error::Media(m))
        },
        Some(end) => {
            if end > object_size {
                let mut m = cat("DRM PRIME ", name);
                m.append(" plane ends at ");
                let e = decimal(end);
                m.append(e.as_str());
                m.append(", beyond object size ");
                let o = decimal(object_size);
                m.append(o.as_str());
                Err(Error::Media(m))
            } else {
                Ok(())
            }
        },
    }
}

fn cat3_media(name: &str, tail: &str) -> (s: String)
    ensures
        s@ == "DRM PRIME "@ + name@ + tail@,
{
    proof { reveal_strlit("DRM PRIME "); }
    let mut s = cat("DRM PRIME ", name);
    s.append(tail);
    s
}

/// One object as the export reports it (`AVDRMObjectDescriptor`).
#[derive(Clone, Copy, Debug, PartialEq, Eq, Structural)]
pub struct RawDrmObject {
    pub fd: i32,
    pub size: usize,
    pub format_modifier: u64,
}

/// One plane as the export reports it (`AVDRMPlaneDescriptor`).
#[derive(Clone, Copy, Debug, PartialEq, Eq, Structural)]
pub struct RawDrmPlane {
    pub object_index: i32,
    pub offset: isize,
    pub pitch: isize,
}

/// One layer as the export reports it (`AVDRMLayerDescriptor`): a plane
/// count and the fixed plane slots it indexes.
#[derive(Clone, Debug, PartialEq, Eq)]
pub struct RawDrmLayer {
    pub format: u32,
    pub nb_planes: i32,
    pub planes: Vec<RawDrmPlane>,
}

/// A frame as the export reports it (`AVDRMFrameDescriptor`): counts and
/// the fixed slots they index.
#[derive(Clone, Debug, PartialEq, Eq)]
pub struct RawDrmFrame {
    pub nb_objects: i32,
    pub objects: Vec<RawDrmObject>,
    pub nb_layers: i32,
    pub layers: Vec<RawDrmLayer>,
}

pub open spec fn object_error(o: RawDrmObject) -> Option<Seq<char>> {
    if o.fd < 0 || o.size == 0 {
        Some("DRM PRIME object has invalid fd "@ + signed_text(o.fd as int) + " or size "@ + decimal_text(o.size as nat))
    } else {
        None
    }
}

/// The error of the first of the first `n` objects that has one.
pub open spec fn first_object_error(objects: Seq<RawDrmObject>, n: int) -> Option<Seq<char>>
    decreases n,
{
    if n <= 0 {
        None
    } else {
        match first_object_error(objects, n - 1) {
            Some(m) => Some(m),
            None => object_error(objects[n - 1]),
        }
    }
}

pub open spec fn plane_error(p: RawDrmPlane, n_objects: nat) -> Option<Seq<char>> {
    if p.object_index < 0 {
        Some("DRM PRIME plane has negative object index "@ + signed_text(p.object_index as int))
    } else if p.object_index >= n_objects || p.pitch == 0 {
        Some("DRM PRIME plane references object "@ + decimal_text(p.object_index as nat) + " of "@
            + decimal_text(n_objects) + " or has zero pitch"@)
    } else if p.offset < 0 {
        Some("DRM PRIME plane has negative offset "@ + signed_text(p.offset as int))
    } else if p.pitch < 0 {
        Some("DRM PRIME plane has negative pitch "@ + signed_text(p.pitch as int))
    } else {
        None
    }
}

pub open spec fn first_plane_error(planes: Seq<RawDrmPlane>, n: int, n_objects: nat) -> Option<Seq<char>>
    decreases n,
{
    if n <= 0 {
        None
    } else {
        match first_plane_error(planes, n - 1, n_objects) {
            Some(m) => Some(m),
            None => plane_error(planes[n - 1], n_objects),
        }
    }
}

pub open spec fn layer_error(l: RawDrmLayer, n_objects: nat) -> Option<Seq<char>> {
    match bounded_count_spec("plane"@, l.nb_planes, l.planes.len()) {
        Err(m) => Some(m),
        Ok(count) => first_plane_error(l.planes@, count as int, n_objects),
    }
}

pub open spec fn first_layer_error(layers: Seq<RawDrmLayer>, n: int, n_objects: nat) -> Option<Seq<char>>
    decreases n,
{
    if n <= 0 {
        None
    } else {
        match first_layer_error(layers, n - 1, n_objects) {
            Some(m) => Some(m),
            None => layer_error(layers[n - 1], n_objects),
        }
    }
}

/// The first problem `snapshot_descriptor` reports, in the order it checks:
/// presence, the object and layer counts, each object, then each layer.
pub open spec fn snapshot_error(d: Option<RawDrmFrame>) -> Option<Seq<char>> {
    match d {
        None => Some("DRM PRIME frame contains no descriptor"@),
        Some(f) => match bounded_count_spec("object"@, f.nb_objects, f.objects.len()) {
            Err(m) => Some(m),
            Ok(n_objects) => match bounded_count_spec("layer"@, f.nb_layers, f.layers.len()) {
                Err(m) => Some(m),
                Ok(n_layers) => match first_object_error(f.objects@, n_objects as int) {
                    Some(m) => Some(m),
                    None => first_layer_error(f.layers@, n_layers as int, n_objects as nat),
                },
            },
        },
    }
}

pub open spec fn object_of(o: RawDrmObject) -> DrmObject {
    DrmObject { fd: o.fd, size: o.size as u64, format_modifier: o.format_modifier }
}

pub open spec fn plane_of(p: RawDrmPlane) -> DrmPlane {
    DrmPlane { object_index: p.object_index as usize, offset: p.offset as u64, pitch: p.pitch as u64 }
}

/// `desc` holds the first `nb_objects` objects and `nb_layers` layers of
/// `f`, each layer with its first `nb_planes` planes, converted.
pub open spec fn snapshot_of(f: RawDrmFrame, width: u32, height: u32, desc: DrmPrimeFrameDesc) -> bool {
    &&& desc.width == width
    &&& desc.height == height
    &&& desc.objects@ == Seq::new(f.nb_objects as nat, |i: int| object_of(f.objects@[i]))
    &&& desc.layers@.len() == f.nb_layers
    &&& forall|i: int| 0 <= i < desc.layers@.len() ==> {
        &&& #[trigger] desc.layers@[i].format == f.layers@[i].format
        &&& desc.layers@[i].planes@ == Seq::new(f.layers@[i].nb_planes as nat, |j: int| plane_of(f.layers@[i].planes@[j]))
    }
}

proof fn lemma_first_object_error_step(objects: Seq<RawDrmObject>, n: int)
    requires
        0 <= n,
        first_object_error(objects, n) is None,
        object_error(objects[n]) is None,
    ensures
        first_object_error(objects, n + 1) is None,
{
}

fn convert_objects(f: &RawDrmFrame, count: usize) -> (r: Result<Vec<DrmObject>>)
    requires
        count <= f.objects@.len(),
    ensures
        match first_object_error(f.objects@, count as int) {
            Some(m) => media_with(r, m),
            None => r matches Ok(v) && v@ == Seq::new(count as nat, |i: int| object_of(f.objects@[i])),
        },
{
    proof {
        reveal_strlit("DRM PRIME object has invalid fd ");
        reveal_strlit(" or size ");
    }
    let mut objects: Vec<DrmObject> = Vec::new();
    let mut i: usize = 0;
    while i < count
        invariant
            i <= count <= f.objects@.len(),
            first_object_error(f.objects@, i as int) is None,
            objects@ == Seq::new(i as nat, |k: int| object_of(f.objects@[k])),
        decreases count - i,
    {
        let o = f.objects[i];
        if o.fd < 0 || o.size == 0 {
            let mut m = String::from_str("DRM PRIME object has invalid fd ");
            let fd = signed_decimal(o.fd as i64);
            m.append(fd.as_str());
            m.append(" or size ");
            let size = decimal(o.size as u64);
            m.append(size.as_str());
            proof {
                assert(first_object_error(f.objects@, i + 1) == object_error(o));
                lemma_error_persists_objects(f.objects@, i + 1, count as int);
            }
            return Err(Error::Media(m));
        }
        objects.push(DrmObject { fd: o.fd, size: o.size as u64, format_modifier: o.format_modifier });
        proof {
            lemma_first_object_error_step(f.objects@, i as int);
            assert(objects@ =~= Seq::new((i + 1) as nat, |k: int| object_of(f.objects@[k])));
        }
        i = i + 1;
    }
    Ok(objects)
}

proof fn lemma_error_persists_objects(objects: Seq<RawDrmObject>, i: int, n: int)
    requires
        0 <= i <= n,
        first_object_error(objects, i) is Some,
    ensures
        first_object_error(objects, n) == first_object_error(objects, i),
    decreases n - i,
{
    if i < n {
        lemma_error_persists_objects(objects, i, n - 1);
    }
}

proof fn lemma_error_persists_planes(planes: Seq<RawDrmPlane>, i: int, n: int, n_objects: nat)
    requires
        0 <= i <= n,
        first_plane_error(planes, i, n_objects) is Some,
    ensures
        first_plane_error(planes, n, n_objects) == first_plane_error(planes, i, n_objects),
    decreases n - i,
{
    if i < n {
        lemma_error_persists_planes(planes, i, n - 1, n_objects);
    }
}

proof fn lemma_error_persists_layers(layers: Seq<RawDrmLayer>, i: int, n: int, n_objects: nat)
    requires
        0 <= i <= n,
        first_layer_error(layers, i, n_objects) is Some,
    ensures
        first_layer_error(layers, n, n_objects) == first_layer_error(layers, i, n_objects),
    decreases n - i,
{
    if i < n {
        lemma_error_persists_layers(layers, i, n - 1, n_objects);
    }
}

fn convert_plane(p: RawDrmPlane, n_objects: usize) -> (r: Result<DrmPlane>)
    ensures
        match plane_error(p, n_objects as nat) {
            Some(m) => media_with(r, m),
            None => r == Ok::<DrmPlane, Error>(plane_of(p)),
        },
{
    proof {
        reveal_strlit("DRM PRIME plane has negative object index ");
        reveal_strlit("DRM PRIME plane references object ");
        reveal_strlit(" of ");
        reveal_strlit(" or has zero pitch");
        reveal_strlit("DRM PRIME plane has negative offset ");
        reveal_strlit("DRM PRIME plane has negative pitch ");
    }
    if p.object_index < 0 {
        let v = signed_decimal(p.object_index as i64);
        return Err(Error::Media(cat("DRM PRIME plane has negative object index ", v.as_str())));
    }
    let object_index = p.object_index as usize;
    if object_index >= n_objects || p.pitch == 0 {
        let mut m = String::from_str("DRM PRIME plane references object ");
        let oi = decimal(object_index as u64);
        m.append(oi.as_str());
        m.append(" of ");
        let n = decimal(n_objects as u64);
        m.append(n.as_str());
        m.append(" or has zero pitch");
        return Err(Error::Media(m));
    }
    if p.offset < 0 {
        let v = signed_decimal(p.offset as i64);
        return Err(Error::Media(cat("DRM PRIME plane has negative offset ", v.as_str())));
    }
    if p.pitch < 0 {
        let v = signed_decimal(p.pitch as i64);
        return Err(Error::Media(cat("DRM PRIME plane has negative pitch ", v.as_str())));
    }
    Ok(DrmPlane { object_index, offset: p.offset as u64, pitch: p.pitch as u64 })
}

fn convert_layer(l: &RawDrmLayer, n_objects: usize) -> (r: Result<DrmLayer>)
    ensures
        match layer_error(*l, n_objects as nat) {
            Some(m) => media_with(r, m),
            None => r matches Ok(layer) && layer.format == l.format
                && layer.planes@ == Seq::new(l.nb_planes as nat, |j: int| plane_of(l.planes@[j])),
        },
{
    proof { reveal_strlit("plane"); }
    let count = match bounded_count("plane", l.nb_planes, l.planes.len()) {
        Ok(c) => c,
        Err(e) => return Err(e),
    };
    let mut planes: Vec<DrmPlane> = Vec::new();
    let mut i: usize = 0;
    while i < count
        invariant
            i <= count <= l.planes@.len(),
            count as int == l.nb_planes,
            first_plane_error(l.planes@, i as int, n_objects as nat) is None,
            planes@ == Seq::new(i as nat, |k: int| plane_of(l.planes@[k])),
        decreases count - i,
    {
        let plane = match convert_plane(l.planes[i], n_objects) {
            Ok(p) => p,
            Err(e) => {
                proof {
                    assert(plane_error(l.planes@[i as int], n_objects as nat) is Some);
                    assert(first_plane_error(l.planes@, i + 1, n_objects as nat) == plane_error(l.planes@[i as int], n_objects as nat));
                    lemma_error_persists_planes(l.planes@, i + 1, count as int, n_objects as nat);
                    assert(bounded_count_spec("plane"@, l.nb_planes, l.planes.len()) == Ok::<usize, Seq<char>>(count));
                    assert(layer_error(*l, n_objects as nat) == first_plane_error(l.planes@, count as int, n_objects as nat));
                }
                return Err(e);
            },
        };
        planes.push(plane);
        proof {
            assert(first_plane_error(l.planes@, i + 1, n_objects as nat) is None);
            assert(planes@ =~= Seq::new((i + 1) as nat, |k: int| plane_of(l.planes@[k])));
        }
        i = i + 1;
    }
    Ok(DrmLayer { format: l.format, planes })
}

/// Copies the export's descriptor into checked plain values: counts within
/// their slots, objects with a descriptor and a size, planes inside a known
/// object with non-negative offset and positive pitch.
pub fn snapshot_descriptor(width: u32, height: u32, descriptor: Option<&RawDrmFrame>) -> (r: Result<DrmPrimeFrameDesc>)
    ensures
        match snapshot_error(match descriptor { Some(d) => Some(*d), None => None }) {
            Some(m) => media_with(r, m),
            None => r matches Ok(desc) && snapshot_of(*descriptor.unwrap(), width, height, desc),
        },
{
    proof {
        reveal_strlit("DRM PRIME frame contains no descriptor");
        reveal_strlit("object");
        reveal_strlit("layer");
    }
    let f = match descriptor {
        Some(f) => {
            assert(match descriptor { Some(d) => Some(*d), None => None::<RawDrmFrame> } == Some(*f));
            f
        },
        None => return Err(Error::Media(String::from_str("DRM PRIME frame contains no descriptor"))),
    };
    let object_count = match bounded_count("object", f.nb_objects, f.objects.len()) {
        Ok(c) => c,
        Err(e) => return Err(e),
    };
    let layer_count = match bounded_count("layer", f.nb_layers, f.layers.len()) {
        Ok(c) => c,
        Err(e) => return Err(e),
    };
    let objects = match convert_objects(f, object_count) {
        Ok(v) => v,
        Err(e) => return Err(e),
    };
    let mut layers: Vec<DrmLayer> = Vec::new();
    let mut i: usize = 0;
    while i < layer_count
        invariant
            i <= layer_count <= f.layers@.len(),
            layer_count as int == f.nb_layers,
            object_count as int == f.nb_objects,
            match descriptor { Some(d) => Some(*d), None => None::<RawDrmFrame> } == Some(*f),
            first_layer_error(f.layers@, i as int, object_count as nat) is None,
            bounded_count_spec("object"@, f.nb_objects, f.objects.len()) == Ok::<usize, Seq<char>>(object_count),
            bounded_count_spec("layer"@, f.nb_layers, f.layers.len()) == Ok::<usize, Seq<char>>(layer_count),
            first_object_error(f.objects@, object_count as int) is None,
            objects@ == Seq::new(f.nb_objects as nat, |k: int| object_of(f.objects@[k])),
            layers@.len() == i,
            forall|k: int| 0 <= k < i ==> {
                &&& #[trigger] layers@[k].format == f.layers@[k].format
                &&& layers@[k].planes@ == Seq::new(f.layers@[k].nb_planes as nat, |j: int| plane_of(f.layers@[k].planes@[j]))
            },
        decreases layer_count - i,
    {
        let layer = match convert_layer(&f.layers[i], object_count) {
            Ok(l) => l,
            Err(e) => {
                proof {
                    assert(layer_error(f.layers@[i as int], object_count as nat) is Some);
                    assert(first_layer_error(f.layers@, i + 1, object_count as nat) == layer_error(f.layers@[i as int], object_count as nat));
                    lemma_error_persists_layers(f.layers@, i + 1, layer_count as int, object_count as nat);
                    assert(snapshot_error(Some(*f)) == first_layer_error(f.layers@, layer_count as int, object_count as nat));
                    assert(snapshot_error(Some(*f)) == layer_error(f.layers@[i as int], object_count as nat));
                    assert(e matches Error::Media(x) && Some(x@) == snapshot_error(Some(*f)));
                }
                return Err(e);
            },
        };
        layers.push(layer);
        proof {
            assert(first_layer_error(f.layers@, i + 1, object_count as nat) is None);
        }
        i = i + 1;
    }
    Ok(DrmPrimeFrameDesc { width, height, objects, layers })
}

/// How Vulkan imports one plane of an exported frame; the caller
/// duplicates `fd` for each import.
#[derive(Clone, Copy, Debug, PartialEq, Eq, Structural)]
pub struct PlaneImport {
    pub fd: i32,
    pub object_size: u64,
    pub modifier: u64,
    pub offset: u64,
    pub row_pitch: u64,
    pub width: u32,
    pub height: u32,
}

/// The luma and chroma layer formats an import of `format` expects.
pub open spec fn layer_formats(format: PixelFormat) -> (u32, u32) {
    match format {
        PixelFormat::Nv12 => (DRM_FORMAT_R8, DRM_FORMAT_GR88),
        PixelFormat::P010Le => (DRM_FORMAT_R16, DRM_FORMAT_GR32),
    }
}

/// One object and two single-plane layers of the expected formats, both in that object.
pub open spec fn layout_matches(d: DrmPrimeFrameDesc, y_format: u32, uv_format: u32) -> bool {
    &&& d.objects@.len() == 1
    &&& d.layers@.len() == 2
    &&& d.layers@[0].format == y_format
    &&& d.layers@[1].format == uv_format
    &&& d.layers@[0].planes@.len() == 1
    &&& d.layers@[1].planes@.len() == 1
    &&& d.layers@[0].planes@[0].object_index == 0
    &&& d.layers@[1].planes@[0].object_index == 0
}

/// The `Debug` text of the layers' fourcc names, the first `n` of them.
pub open spec fn layer_names_debug(layers: Seq<DrmLayer>, n: int) -> Seq<char>
    decreases n,
{
    if n <= 0 {
        Seq::empty()
    } else if n == 1 {
        str_debug_text(fourcc_text(layers[0].format))
    } else {
        layer_names_debug(layers, n - 1) + ", "@ + str_debug_text(fourcc_text(layers[n - 1].format))
    }
}

pub open spec fn layout_message(d: DrmPrimeFrameDesc, y_format: u32, uv_format: u32) -> Seq<char> {
    "unsupported DRM PRIME layout: objects="@ + decimal_text(d.objects@.len()) + ", layers=["@
        + layer_names_debug(d.layers@, d.layers@.len() as int) + "]; expected one object with "@
        + fourcc_text(y_format) + " and "@ + fourcc_text(uv_format) + " single-plane layers"@
}

pub open spec fn row_bytes_of(d: DrmPrimeFrameDesc, format: PixelFormat) -> u64 {
    (d.width * bytes_per_sample_spec(format)) as u64
}

/// Why the frame cannot be imported as `format`, in the order the checks
/// run: `(true, m)` is a media error, `(false, m)` an unsupported frame.
pub open spec fn plane_import_error(d: DrmPrimeFrameDesc, format: PixelFormat) -> Option<(bool, Seq<char>)> {
    let (y_format, uv_format) = layer_formats(format);
    if d.width == 0 || d.height == 0 || d.width % 2 != 0 || d.height % 2 != 0 {
        Some((false, "VAAPI/Vulkan interop requires non-zero even-sized frames"@))
    } else if !layout_matches(d, y_format, uv_format) {
        Some((false, layout_message(d, y_format, uv_format)))
    } else if d.objects@[0].format_modifier == u64::MAX {
        Some((false, "DRM PRIME mapping did not provide a usable format modifier"@))
    } else {
        let y = d.layers@[0].planes@[0];
        let uv = d.layers@[1].planes@[0];
        let row_bytes = row_bytes_of(d, format);
        if y.pitch < row_bytes || uv.pitch < row_bytes {
            Some((false, "DRM PRIME pitch is too small: Y="@ + decimal_text(y.pitch as nat) + ", UV="@
                + decimal_text(uv.pitch as nat) + ", row bytes="@ + decimal_text(row_bytes as nat)))
        } else {
            match plane_in_object_error("Y"@, y, d.height, row_bytes, d.objects@[0].size) {
                Some(m) => Some((true, m)),
                None => match plane_in_object_error("UV"@, uv, (d.height / 2) as u32, row_bytes, d.objects@[0].size) {
                    Some(m) => Some((true, m)),
                    None => None,
                },
            }
        }
    }
}

/// The import of plane `p` of object `o` at `width` x `height`.
pub open spec fn import_of(o: DrmObject, p: DrmPlane, width: u32, height: u32) -> PlaneImport {
    PlaneImport { fd: o.fd, object_size: o.size, modifier: o.format_modifier, offset: p.offset,
        row_pitch: p.pitch, width, height }
}

fn layer_names(layers: &Vec<DrmLayer>) -> (s: String)
    ensures
        s@ == layer_names_debug(layers@, layers@.len() as int),
{
    proof { reveal_strlit(", "); }
    let mut s = String::new();
    let mut i: usize = 0;
    while i < layers.len()
        invariant
            i <= layers@.len(),
            s@ == layer_names_debug(layers@, i as int),
        decreases layers@.len() - i,
    {
        if i != 0 {
            s.append(", ");
        }
        let name = fourcc_name(layers[i].format);
        let quoted = str_debug(name.as_str());
        s.append(quoted.as_str());
        i = i + 1;
    }
    s
}

impl DrmPrimeFrameDesc {
    /// The luma and chroma plane imports for `format`: a non-zero even-sized
    /// frame with one object carrying a usable modifier and two single-plane
    /// layers of the expected fourccs, whose pitches hold a row and whose
    /// rows lie inside the object. Chroma is half size in each direction.
    pub fn plane_imports(&self, format: PixelFormat) -> (r: Result<(PlaneImport, PlaneImport)>)
        ensures
            match plane_import_error(*self, format) {
                Some((true, m)) => media_with(r, m),
                Some((false, m)) => unsupported_with(r, m),
                None => r == Ok::<(PlaneImport, PlaneImport), Error>((
                    import_of(self.objects@[0], self.layers@[0].planes@[0], self.width, self.height),
                    import_of(self.objects@[0], self.layers@[1].planes@[0], (self.width / 2) as u32, (self.height / 2) as u32),
                )),
            },
    {
        proof {
            reveal_strlit("VAAPI/Vulkan interop requires non-zero even-sized frames");
            reveal_strlit("unsupported DRM PRIME layout: objects=");
            reveal_strlit(", layers=[");
            reveal_strlit("]; expected one object with ");
            reveal_strlit(" and ");
            reveal_strlit(" single-plane layers");
            reveal_strlit("DRM PRIME mapping did not provide a usable format modifier");
            reveal_strlit("DRM PRIME pitch is too small: Y=");
            reveal_strlit(", UV=");
            reveal_strlit(", row bytes=");
            reveal_strlit("Y");
            reveal_strlit("UV");
        }
        let (y_format, uv_format) = match format {
            PixelFormat::Nv12 => (DRM_FORMAT_R8, DRM_FORMAT_GR88),
            PixelFormat::P010Le => (DRM_FORMAT_R16, DRM_FORMAT_GR32),
        };
        if self.width == 0 || self.height == 0 || self.width % 2 != 0 || self.height % 2 != 0 {
            return Err(Error::UnsupportedFrame(String::from_str("VAAPI/Vulkan interop requires non-zero even-sized frames")));
        }
        let layout_ok = self.objects.len() == 1 && self.layers.len() == 2
            && self.layers[0].format == y_format && self.layers[1].format == uv_format
            && self.layers[0].planes.len() == 1 && self.layers[1].planes.len() == 1
            && self.layers[0].planes[0].object_index == 0 && self.layers[1].planes[0].object_index == 0;
        if !layout_ok {
            let mut m = String::from_str("unsupported DRM PRIME layout: objects=");
            let n = decimal(self.objects.len() as u64);
            m.append(n.as_str());
            m.append(", layers=[");
            let names = layer_names(&self.layers);
            m.append(names.as_str());
            m.append("]; expected one object with ");
            let y_name = fourcc_name(y_format);
            m.append(y_name.as_str());
            m.append(" and ");
            let uv_name = fourcc_name(uv_format);
            m.append(uv_name.as_str());
            m.append(" single-plane layers");
            return Err(Error::UnsupportedFrame(m));
        }
        let object = self.objects[0];
        if object.format_modifier == u64::MAX {
            return Err(Error::UnsupportedFrame(String::from_str("DRM PRIME mapping did not provide a usable format modifier")));
        }
        let y = self.layers[0].planes[0];
        let uv = self.layers[1].planes[0];
        let row_bytes: u64 = self.width as u64 * format.bytes_per_sample() as u64;
        if y.pitch < row_bytes || uv.pitch < row_bytes {
            let mut m = String::from_str("DRM PRIME pitch is too small: Y=");
            let yp = decimal(y.pitch);
            m.append(yp.as_str());
            m.append(", UV=");
            let uvp = decimal(uv.pitch);
            m.append(uvp.as_str());
            m.append(", row bytes=");
            let rb = decimal(row_bytes);
            m.append(rb.as_str());
            return Err(Error::UnsupportedFrame(m));
        }
        if let Err(e) = require_plane_in_object("Y", &y, self.height, row_bytes, object.size) {
            return Err(e);
        }
        if let Err(e) = require_plane_in_object("UV", &uv, self.height / 2, row_bytes, object.size) {
            return Err(e);
        }
        Ok((
            PlaneImport { fd: object.fd, object_size: object.size, modifier: object.format_modifier,
                offset: y.offset, row_pitch: y.pitch, width: self.width, height: self.height },
            PlaneImport { fd: object.fd, object_size: object.size, modifier: object.format_modifier,
                offset: uv.offset, row_pitch: uv.pitch, width: self.width / 2, height: self.height / 2 },
        ))
    }
}

} // verus!
