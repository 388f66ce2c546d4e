use asciiflow::drm::{
    bounded_count, fourcc_name, require_plane_in_object, snapshot_descriptor, DrmLayer, DrmObject,
    DrmPlane, DrmPrimeFrameDesc, PlaneImport, RawDrmFrame, RawDrmLayer, RawDrmObject, RawDrmPlane,
    DRM_FORMAT_GR32, DRM_FORMAT_GR88, DRM_FORMAT_R16, DRM_FORMAT_R8,
};
use asciiflow::error::Error;
use asciiflow::frame::PixelFormat;

fn media_message<T: std::fmt::Debug>(r: Result<T, Error>) -> String {
    match r {
        Err(Error::Media(m)) => m,
        other => panic!("expected a media error, got {other:?}"),
    }
}

fn unsupported_message<T: std::fmt::Debug>(r: Result<T, Error>) -> String {
    match r {
        Err(Error::UnsupportedFrame(m)) => m,
        other => panic!("expected an unsupported frame error, got {other:?}"),
    }
}

#[test]
fn fourcc_constants_spell_their_names() {
    assert_eq!(DRM_FORMAT_R8, u32::from_le_bytes(*b"R8  "));
    assert_eq!(DRM_FORMAT_GR88, u32::from_le_bytes(*b"GR88"));
    assert_eq!(DRM_FORMAT_R16, u32::from_le_bytes(*b"R16 "));
    assert_eq!(DRM_FORMAT_GR32, u32::from_le_bytes(*b"GR32"));
    assert_eq!(fourcc_name(DRM_FORMAT_GR88), "GR88");
    assert_eq!(fourcc_name(DRM_FORMAT_R8), "R8..");
    assert_eq!(fourcc_name(u32::from_le_bytes([0, 0x7f, b'~', b'!'])), "..~!");
}

#[test]
fn counts_outside_their_slots_are_media_errors() {
    assert_eq!(bounded_count("object", 1, 4).unwrap(), 1);
    assert_eq!(bounded_count("layer", 4, 4).unwrap(), 4);
    assert_eq!(media_message(bounded_count("object", -3, 4)), "DRM PRIME object count is negative: -3");
    assert_eq!(media_message(bounded_count("layer", 0, 4)), "DRM PRIME layer count 0 is outside 1..=4");
    assert_eq!(media_message(bounded_count("plane", 5, 4)), "DRM PRIME plane count 5 is outside 1..=4");
}

#[test]
fn plane_rows_must_end_inside_the_object() {
    let plane = DrmPlane { object_index: 0, offset: 100, pitch: 64 };
    assert!(require_plane_in_object("Y", &plane, 4, 60, 100 + 3 * 64 + 60).is_ok());
    assert_eq!(
        media_message(require_plane_in_object("Y", &plane, 4, 60, 100 + 3 * 64 + 59)),
        "DRM PRIME Y plane ends at 352, beyond object size 351"
    );
    let huge = DrmPlane { object_index: 0, offset: 1, pitch: u64::MAX };
    assert_eq!(media_message(require_plane_in_object("UV", &huge, 2, 1, u64::MAX)), "DRM PRIME UV plane range overflow");
    assert!(require_plane_in_object("UV", &huge, 0, 1, 2).is_ok());
}

fn raw_nv12() -> RawDrmFrame {
    let empty_plane = RawDrmPlane { object_index: 0, offset: 0, pitch: 0 };
    let empty_layer = RawDrmLayer { format: 0, nb_planes: 0, planes: vec![empty_plane; 4] };
    let mut layers = vec![empty_layer; 4];
    layers[0] = RawDrmLayer {
        format: DRM_FORMAT_R8,
        nb_planes: 1,
        planes: vec![RawDrmPlane { object_index: 0, offset: 0, pitch: 64 }, empty_plane, empty_plane, empty_plane],
    };
    layers[1] = RawDrmLayer {
        format: DRM_FORMAT_GR88,
        nb_planes: 1,
        planes: vec![RawDrmPlane { object_index: 0, offset: 4096, pitch: 64 }, empty_plane, empty_plane, empty_plane],
    };
    let empty_object = RawDrmObject { fd: -1, size: 0, format_modifier: 0 };
    RawDrmFrame {
        nb_objects: 1,
        objects: vec![RawDrmObject { fd: 7, size: 8192, format_modifier: 0 }, empty_object, empty_object, empty_object],
        nb_layers: 2,
        layers,
    }
}

#[test]
fn snapshot_copies_only_counted_slots() {
    let desc = snapshot_descriptor(64, 64, Some(&raw_nv12())).unwrap();
    assert_eq!(
        desc,
        DrmPrimeFrameDesc {
            width: 64,
            height: 64,
            objects: vec![DrmObject { fd: 7, size: 8192, format_modifier: 0 }],
            layers: vec![
                DrmLayer { format: DRM_FORMAT_R8, planes: vec![DrmPlane { object_index: 0, offset: 0, pitch: 64 }] },
                DrmLayer { format: DRM_FORMAT_GR88, planes: vec![DrmPlane { object_index: 0, offset: 4096, pitch: 64 }] },
            ],
        }
    );
}

#[test]
fn snapshot_reports_the_first_invalid_field() {
    assert_eq!(media_message(snapshot_descriptor(2, 2, None)), "DRM PRIME frame contains no descriptor");
    let mut raw = raw_nv12();
    raw.nb_objects = 5;
    assert_eq!(media_message(snapshot_descriptor(2, 2, Some(&raw))), "DRM PRIME object count 5 is outside 1..=4");
    let mut raw = raw_nv12();
    raw.objects[0].fd = -2;
    assert_eq!(media_message(snapshot_descriptor(2, 2, Some(&raw))), "DRM PRIME object has invalid fd -2 or size 8192");
    let mut raw = raw_nv12();
    raw.layers[1].planes[0].object_index = 1;
    assert_eq!(
        media_message(snapshot_descriptor(2, 2, Some(&raw))),
        "DRM PRIME plane references object 1 of 1 or has zero pitch"
    );
    let mut raw = raw_nv12();
    raw.layers[0].planes[0].offset = -8;
    assert_eq!(media_message(snapshot_descriptor(2, 2, Some(&raw))), "DRM PRIME plane has negative offset -8");
    let mut raw = raw_nv12();
    raw.layers[0].planes[0].object_index = -1;
    assert_eq!(media_message(snapshot_descriptor(2, 2, Some(&raw))), "DRM PRIME plane has negative object index -1");
    let mut raw = raw_nv12();
    raw.layers[0].planes[0].pitch = -64;
    assert_eq!(media_message(snapshot_descriptor(2, 2, Some(&raw))), "DRM PRIME plane has negative pitch -64");
    let mut raw = raw_nv12();
    raw.layers[1].nb_planes = 0;
    assert_eq!(media_message(snapshot_descriptor(2, 2, Some(&raw))), "DRM PRIME plane count 0 is outside 1..=4");
}

#[test]
fn nv12_imports_share_the_object_and_halve_chroma() {
    let desc = snapshot_descriptor(64, 64, Some(&raw_nv12())).unwrap();
    let (y, uv) = desc.plane_imports(PixelFormat::Nv12).unwrap();
    assert_eq!(y, PlaneImport { fd: 7, object_size: 8192, modifier: 0, offset: 0, row_pitch: 64, width: 64, height: 64 });
    assert_eq!(uv, PlaneImport { fd: 7, object_size: 8192, modifier: 0, offset: 4096, row_pitch: 64, width: 32, height: 32 });
}

#[test]
fn imports_reject_bad_layouts_in_check_order() {
    let desc = snapshot_descriptor(64, 64, Some(&raw_nv12())).unwrap();
    let mut odd = desc.clone();
    odd.width = 63;
    assert_eq!(
        unsupported_message(odd.plane_imports(PixelFormat::Nv12)),
        "VAAPI/Vulkan interop requires non-zero even-sized frames"
    );
    assert_eq!(
        unsupported_message(desc.plane_imports(PixelFormat::P010Le)),
        "unsupported DRM PRIME layout: objects=1, layers=[\"R8..\", \"GR88\"]; expected one object with R16. and GR32 single-plane layers"
    );
    let mut no_modifier = desc.clone();
    no_modifier.objects[0].format_modifier = u64::MAX;
    assert_eq!(
        unsupported_message(no_modifier.plane_imports(PixelFormat::Nv12)),
        "DRM PRIME mapping did not provide a usable format modifier"
    );
    let mut narrow = desc.clone();
    narrow.layers[1].planes[0].pitch = 32;
    assert_eq!(
        unsupported_message(narrow.plane_imports(PixelFormat::Nv12)),
        "DRM PRIME pitch is too small: Y=64, UV=32, row bytes=64"
    );
    let mut short = desc.clone();
    short.objects[0].size = 4096 + 31 * 64 + 63;
    assert_eq!(
        media_message(short.plane_imports(PixelFormat::Nv12)),
        "DRM PRIME UV plane ends at 6144, beyond object size 6143"
    );
}
