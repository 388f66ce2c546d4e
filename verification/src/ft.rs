//! The FreeType calls a scalable-font atlas needs. FreeType keeps the
//! loaded glyph in the face, so what these return depends on the calls made
//! before them. A face is held in a `LoadedFace`, which records what was
//! handed to FreeType for it; the values FreeType computes are not stated.

use vstd::prelude::*;
use freetype::{Face, Library};

verus! {

/// `freetype::Library`, carried through opaquely.
#[verifier::external_type_specification]
#[verifier::external_body]
pub struct ExLibrary(freetype::Library);

/// `freetype::Face`, carried through opaquely.
#[verifier::external_type_specification]
#[verifier::external_body]
#[verifier::reject_recursive_types(BYTES)]
pub struct ExFace<BYTES>(freetype::Face<BYTES>);

/// How a rendered glyph stores its pixels.
#[derive(Clone, Debug, PartialEq, Eq)]
pub enum BitmapMode {
    Mono,
    Gray,
    /// Any other mode, by its `Debug` name.
    Other(String),
}

/// A face FreeType opened from font bytes in memory, with what was handed
/// to FreeType for it: the face index it was opened with, the
/// pixel size last selected on it, the glyph outline last loaded into its
/// slot (with the pixel size it was loaded at), and whether that outline was
/// rendered. Only the calls below change these records, each as it makes
/// its call.
pub struct LoadedFace {
    face: Face,
    index: isize,
    size: u32,
    slot: Option<(u32, u32)>,
    rendered: bool,
}

impl LoadedFace {
    /// The face index it was opened with.
    pub closed spec fn index(&self) -> isize {
        self.index
    }

    /// The pixel size last selected on it (zero before any).
    pub closed spec fn pixel_size(&self) -> u32 {
        self.size
    }

    /// The glyph index and pixel size of the outline in the slot.
    pub closed spec fn slot(&self) -> Option<(u32, u32)> {
        self.slot
    }

    /// The glyph index and pixel size of the glyph rendered in the slot.
    pub closed spec fn rendered(&self) -> Option<(u32, u32)> {
        if self.rendered { self.slot } else { None }
    }

    /// The face index it was opened with.
    pub fn face_index(&self) -> (r: isize)
        ensures
            r == self.index(),
    {
        self.index
    }

    /// The glyph index and pixel size of the glyph rendered in the slot.
    pub fn rendered_glyph(&self) -> (r: Option<(u32, u32)>)
        ensures
            r == self.rendered(),
    {
        if self.rendered { self.slot } else { None }
    }
}

/// `Library::init()`: a library instance, or FreeType's error text.
#[verifier::external_body]
pub(crate) fn init_library() -> (r: core::result::Result<Library, String>) {
    match Library::init() {
        Ok(library) => Ok(library),
        Err(error) => Err(error.to_string()),
    }
}

/// `Library::new_memory_face(bytes, face_index)`: face `face_index` of the
/// font in `bytes`, or FreeType's error text. The face records the index it
/// was opened with; no size is selected and the slot is empty.
#[verifier::external_body]
pub(crate) fn memory_face(library: &Library, bytes: Vec<u8>, face_index: isize) -> (r: core::result::Result<LoadedFace, String>)
    ensures
        r matches Ok(f) ==> f.index() == face_index && f.pixel_size() == 0
            && f.slot() is None && f.rendered() is None,
{
    match library.new_memory_face(bytes, face_index) {
        Ok(face) => Ok(LoadedFace { face, index: face_index, size: 0, slot: None, rendered: false }),
        Err(error) => Err(error.to_string()),
    }
}

/// `Face::is_scalable()`.
#[verifier::external_body]
pub(crate) fn is_scalable(face: &LoadedFace) -> bool {
    face.face.is_scalable()
}

/// `Face::is_fixed_width()`.
#[verifier::external_body]
pub(crate) fn is_fixed_width(face: &LoadedFace) -> bool {
    face.face.is_fixed_width()
}

/// `Face::get_char_index(c)`: the face's glyph for `c`, if it has one.
#[verifier::external_body]
pub(crate) fn char_index(face: &LoadedFace, c: char) -> Option<u32> {
    face.face.get_char_index(c as usize)
}

/// `Face::set_pixel_sizes(0, size)`: selects a `size`-pixel em, which the
/// face then records; the slot is left as it was.
#[verifier::external_body]
pub(crate) fn set_pixel_size(face: &mut LoadedFace, size: u32) -> (r: core::result::Result<(), String>)
    ensures
        final(face).index() == old(face).index(),
        final(face).slot() == old(face).slot(),
        final(face).rendered() == old(face).rendered(),
        final(face).pixel_size() == (if r is Ok { size } else { old(face).pixel_size() }),
{
    match face.face.set_pixel_sizes(0, size) {
        Ok(()) => {
            face.size = size;
            Ok(())
        },
        Err(error) => Err(error.to_string()),
    }
}

/// `Face::size_metrics()`: the selected size's maximal advance, ascender
/// and descender in 26.6 fixed point.
#[verifier::external_body]
pub(crate) fn size_metrics(face: &LoadedFace) -> Option<(i64, i64, i64)> {
    match face.face.size_metrics() {
        Some(metrics) => Some((metrics.max_advance as i64, metrics.ascender as i64, metrics.descender as i64)),
        None => None,
    }
}

/// `Face::load_glyph(index, LoadFlag::NO_BITMAP)`: loads glyph `index`'s
/// outline, at the selected size, into the face's slot, which then holds no
/// rendering; after a failure the slot is recorded as empty.
#[verifier::external_body]
pub(crate) fn load_outline(face: &mut LoadedFace, index: u32) -> (r: core::result::Result<(), String>)
    ensures
        final(face).index() == old(face).index(),
        final(face).pixel_size() == old(face).pixel_size(),
        final(face).slot() == (if r is Ok { Some((index, old(face).pixel_size())) } else { None }),
        final(face).rendered() is None,
{
    face.rendered = false;
    match face.face.load_glyph(index, freetype::face::LoadFlag::NO_BITMAP) {
        Ok(()) => {
            face.slot = Some((index, face.size));
            Ok(())
        },
        Err(error) => {
            face.slot = None;
            Err(error.to_string())
        },
    }
}

/// `GlyphSlot::render_glyph(RenderMode::Normal)` on the face's slot: the
/// outline there is rendered to a bitmap.
#[verifier::external_body]
pub(crate) fn render_loaded(face: &mut LoadedFace) -> (r: core::result::Result<(), String>)
    ensures
        final(face).index() == old(face).index(),
        final(face).pixel_size() == old(face).pixel_size(),
        final(face).slot() == old(face).slot(),
        final(face).rendered() == (if r is Ok { old(face).slot() } else { None }),
{
    match face.face.glyph().render_glyph(freetype::RenderMode::Normal) {
        Ok(()) => {
            face.rendered = true;
            Ok(())
        },
        Err(error) => {
            face.rendered = false;
            Err(error.to_string())
        },
    }
}

/// `GlyphSlot::bitmap_left()`: the rendered glyph's left bearing in pixels.
#[verifier::external_body]
pub(crate) fn bitmap_left(face: &LoadedFace) -> i32 {
    face.face.glyph().bitmap_left()
}

/// `GlyphSlot::bitmap_top()`: rows from the baseline up to the glyph's top.
#[verifier::external_body]
pub(crate) fn bitmap_top(face: &LoadedFace) -> i32 {
    face.face.glyph().bitmap_top()
}

/// `Bitmap::width()` of the slot's bitmap, in pixels.
#[verifier::external_body]
pub(crate) fn bitmap_width(face: &LoadedFace) -> i32 {
    face.face.glyph().bitmap().width()
}

/// `Bitmap::rows()` of the slot's bitmap.
#[verifier::external_body]
pub(crate) fn bitmap_rows(face: &LoadedFace) -> i32 {
    face.face.glyph().bitmap().rows()
}

/// `Bitmap::pixel_mode()` of the slot's bitmap, or FreeType's error text.
#[verifier::external_body]
pub(crate) fn bitmap_mode(face: &LoadedFace) -> core::result::Result<BitmapMode, String> {
    match face.face.glyph().bitmap().pixel_mode() {
        Ok(freetype::bitmap::PixelMode::Mono) => Ok(BitmapMode::Mono),
        Ok(freetype::bitmap::PixelMode::Gray) => Ok(BitmapMode::Gray),
        Ok(other) => Ok(BitmapMode::Other(format!("{other:?}"))),
        Err(error) => Err(error.to_string()),
    }
}

/// `Bitmap::pitch()` of the slot's bitmap.
#[verifier::external_body]
pub(crate) fn bitmap_pitch(face: &LoadedFace) -> i32 {
    face.face.glyph().bitmap().pitch()
}

/// A copy of `Bitmap::buffer()` of the slot's bitmap.
#[verifier::external_body]
pub(crate) fn bitmap_bytes(face: &LoadedFace) -> Vec<u8> {
    face.face.glyph().bitmap().buffer().to_vec()
}

/// `Face::family_name()`.
#[verifier::external_body]
pub(crate) fn family_name(face: &LoadedFace) -> Option<String> {
    face.face.family_name()
}

/// `Face::style_name()`.
#[verifier::external_body]
pub(crate) fn style_name(face: &LoadedFace) -> Option<String> {
    face.face.style_name()
}

} // verus!
