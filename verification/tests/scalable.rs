use asciiflow::ft::BitmapMode;
use asciiflow::scalable::draw_tile;
use asciiflow::scalable::{bitmap_row_offset, tile_offset};

#[test]
fn negative_pitch_and_bearings_do_not_escape_the_tile() {
    assert_eq!((0..3).map(|y| bitmap_row_offset(y, 3, -4)).collect::<Vec<_>>(), vec![8, 4, 0]);
    assert_eq!((0..3).map(|y| bitmap_row_offset(y, 3, 4)).collect::<Vec<_>>(), vec![0, 4, 8]);
    assert_eq!(tile_offset(-1, 0, 24, 24), None);
    assert_eq!(tile_offset(0, -1, 24, 24), None);
    assert_eq!(tile_offset(24, 24, 24, 24), None);
    assert_eq!(tile_offset(2 - 3 + 2, 18 - 20 + 3, 24, 24), Some(25));
}

#[test]
fn widths_beyond_i32_compare_as_negative_bounds() {
    assert_eq!(tile_offset(0, 0, u32::MAX, 24), None);
    assert_eq!(tile_offset(3, 2, 10, 5), Some(23));
}

use asciiflow::font::FontError;
use asciiflow::scalable::{
    blit_glyph, build_font_atlas, fit_cell, metrics_box, GlyphBitmap, GlyphBox, MAX_FONT_BYTES,
};

#[test]
fn geometry_is_bounded_before_the_font_is_read() {
    for (w, h) in [(0, 24), (24, 0), (u32::MAX, u32::MAX), (8192, 8192)] {
        assert!(matches!(
            build_font_atlas("font.ttf", Err("not read".into()), 0, "A", w, h),
            Err(FontError::AtlasTooLarge)
        ));
    }
}

#[test]
fn unreadable_and_oversized_fonts_are_read_failures() {
    let error = build_font_atlas("/nonexistent/font.ttf", Err("No such file or directory".into()), 0, "A", 24, 24).err().unwrap();
    assert_eq!(error.to_string(), "read font file failed for font /nonexistent/font.ttf: No such file or directory");
    let error = build_font_atlas("big.ttf", Ok(vec![0; MAX_FONT_BYTES + 1]), 0, "A", 24, 24).err().unwrap();
    assert_eq!(error.to_string(), "read font file failed for font big.ttf: font exceeds 32 MiB limit");
    let error = build_font_atlas("junk.ttf", Ok(b"not a font".to_vec()), 0, "A", 24, 24).err().unwrap();
    assert!(error.to_string().contains("load face"));
}

#[test]
fn metrics_round_like_freetype_pixels() {
    let b = metrics_box(10 * 64 + 1, 12 * 64, -(3 * 64) - 1);
    assert_eq!(b, GlyphBox { left: 0, right: 11, top: 12, bottom: -4 });
    let negative = metrics_box(-65, -65, 64);
    assert_eq!(negative, GlyphBox { left: 0, right: 0, top: 0, bottom: 1 });
}

#[test]
fn boxes_are_centered_in_the_cell() {
    let b = GlyphBox { left: -1, right: 9, top: 12, bottom: -4 };
    assert_eq!(fit_cell(b, 24, 24), Some((8, 16)));
    assert_eq!(fit_cell(b, 9, 24), None);
    assert_eq!(fit_cell(GlyphBox { left: 0, right: 0, top: 1, bottom: 0 }, 24, 24), None);
}

#[test]
fn glyph_pixels_land_in_their_tile_only() {
    let glyph = GlyphBitmap { left: 1, top: 2, width: 2, rows: 2, pitch: -2, mono: false, buffer: vec![10, 20, 30, 40] };
    let mut pixels = vec![7u8; 2 * 16];
    blit_glyph(&mut pixels, 16, 4, 4, &glyph, 0, 2);
    let mut expected = vec![7u8; 32];
    expected[16 + 1] = 30;
    expected[16 + 2] = 40;
    expected[16 + 4 + 1] = 10;
    expected[16 + 4 + 2] = 20;
    assert_eq!(pixels, expected);
    let mono = GlyphBitmap { left: -1, top: 1, width: 3, rows: 1, pitch: 1, mono: true, buffer: vec![0b1010_0000] };
    let mut pixels = vec![0u8; 4];
    blit_glyph(&mut pixels, 0, 2, 2, &mono, 0, 1);
    assert_eq!(pixels, vec![0, 255, 0, 0]);
}

fn rendered(mode: Result<asciiflow::ft::BitmapMode, String>, pitch: i32, buffer: Vec<u8>) -> asciiflow::scalable::RenderedGlyph {
    asciiflow::scalable::RenderedGlyph { face_index: 0, glyph_index: 3, pixel_size: 12, left: 1, top: 2, width: 2, rows: 2, pitch, mode, buffer }
}

fn failure_of(result: Result<(), asciiflow::font::FontError>) -> (String, String, String) {
    match result {
        Err(asciiflow::font::FontError::Font { path, operation, detail }) => (path, operation, detail),
        other => panic!("expected a font failure, got {other:?}"),
    }
}

#[test]
fn drawn_tile_lands_at_its_index() {
    let glyph = rendered(Ok(BitmapMode::Gray), -2, vec![10, 20, 30, 40]);
    let mut pixels = vec![0u8; 3 * 16];
    draw_tile(&mut pixels, 1, 4, 4, 'A', &glyph, 0, 2, "f.ttf").unwrap();
    let mut expected = vec![0u8; 48];
    expected[16 + 1] = 30;
    expected[16 + 2] = 40;
    expected[16 + 4 + 1] = 10;
    expected[16 + 4 + 2] = 20;
    assert_eq!(pixels, expected);
    let mut blank = vec![0u8; 48];
    draw_tile(&mut blank, 2, 4, 4, ' ', &glyph, 0, 2, "f.ttf").unwrap();
    assert_eq!(blank, vec![0u8; 48]);
}

#[test]
fn undrawable_glyphs_fail_with_their_reason() {
    let mut pixels = vec![0u8; 16];
    let unreadable = rendered(Err("bad mode".to_string()), 2, vec![0; 4]);
    assert_eq!(
        failure_of(draw_tile(&mut pixels, 0, 4, 4, 'A', &unreadable, 0, 2, "f.ttf")),
        ("f.ttf".to_string(), "read bitmap mode".to_string(), "bad mode".to_string())
    );
    let lcd = rendered(Ok(BitmapMode::Other("Lcd".to_string())), 2, vec![0; 4]);
    assert_eq!(
        failure_of(draw_tile(&mut pixels, 0, 4, 4, 'A', &lcd, 0, 2, "f.ttf")).2,
        "unsupported pixel mode Lcd"
    );
    let short = rendered(Ok(BitmapMode::Gray), 2, vec![0; 3]);
    assert_eq!(
        failure_of(draw_tile(&mut pixels, 0, 4, 4, 'A', &short, 0, 2, "f.ttf")).1,
        "validate bitmap storage"
    );
    assert_eq!(pixels, vec![0u8; 16]);
}


fn be16(out: &mut Vec<u8>, v: u16) {
    out.extend_from_slice(&v.to_be_bytes());
}

fn be32(out: &mut Vec<u8>, v: u32) {
    out.extend_from_slice(&v.to_be_bytes());
}

/// One rectangle per glyph (`None` for an empty glyph), in font units of a
/// 1000-unit em.
fn rectangle_glyph(rect: Option<(i16, i16, i16, i16)>) -> Vec<u8> {
    let mut g = Vec::new();
    if let Some((x0, y0, x1, y1)) = rect {
        be16(&mut g, 1);
        for v in [x0, y0, x1, y1] {
            be16(&mut g, v as u16);
        }
        be16(&mut g, 3);
        be16(&mut g, 0);
        g.extend_from_slice(&[1, 1, 1, 1]);
        let points = [(x0, y0), (x0, y1), (x1, y1), (x1, y0)];
        let mut previous = (0i16, 0i16);
        for (x, _) in points {
            be16(&mut g, (x - previous.0) as u16);
            previous.0 = x;
        }
        for (_, y) in points {
            be16(&mut g, (y - previous.1) as u16);
            previous.1 = y;
        }
    }
    g
}

/// A TrueType font with outlines for ' ', '#', '.', 'A', '_' and 'g'; `g`
/// descends below the baseline. Monospaced unless `widths` differ.
fn test_font(fixed_pitch: bool) -> Vec<u8> {
    let glyphs: [(Option<char>, Option<(i16, i16, i16, i16)>, u16); 7] = [
        (None, Some((60, 0, 540, 700)), 600),
        (Some(' '), None, 600),
        (Some('#'), Some((100, 100, 500, 600)), if fixed_pitch { 600 } else { 700 }),
        (Some('.'), Some((250, 0, 350, 100)), if fixed_pitch { 600 } else { 300 }),
        (Some('A'), Some((50, 0, 550, 700)), 600),
        (Some('_'), Some((0, -100, 600, -50)), 600),
        (Some('g'), Some((100, -200, 500, 450)), if fixed_pitch { 600 } else { 550 }),
    ];
    let mut glyf = Vec::new();
    let mut loca = Vec::new();
    let mut hmtx = Vec::new();
    for (_, rect, advance) in glyphs {
        be16(&mut loca, (glyf.len() / 2) as u16);
        glyf.extend(rectangle_glyph(rect));
        be16(&mut hmtx, advance);
        be16(&mut hmtx, rect.map_or(0, |r| r.0) as u16);
    }
    be16(&mut loca, (glyf.len() / 2) as u16);
    let mapped: Vec<(u16, u16)> = glyphs
        .iter()
        .enumerate()
        .filter_map(|(id, (c, _, _))| c.map(|c| (c as u16, id as u16)))
        .collect();
    let segments = mapped.len() as u16 + 1;
    let mut search = 1u16;
    let mut selector = 0u16;
    while search * 2 <= segments {
        search *= 2;
        selector += 1;
    }
    let mut sub = Vec::new();
    be16(&mut sub, 4);
    be16(&mut sub, 16 + 8 * segments);
    be16(&mut sub, 0);
    be16(&mut sub, 2 * segments);
    be16(&mut sub, 2 * search);
    be16(&mut sub, selector);
    be16(&mut sub, 2 * segments - 2 * search);
    for (c, _) in &mapped {
        be16(&mut sub, *c);
    }
    be16(&mut sub, 0xFFFF);
    be16(&mut sub, 0);
    for (c, _) in &mapped {
        be16(&mut sub, *c);
    }
    be16(&mut sub, 0xFFFF);
    for (c, id) in &mapped {
        be16(&mut sub, id.wrapping_sub(*c));
    }
    be16(&mut sub, 1);
    for _ in 0..segments {
        be16(&mut sub, 0);
    }
    let mut cmap = Vec::new();
    be16(&mut cmap, 0);
    be16(&mut cmap, 1);
    be16(&mut cmap, 3);
    be16(&mut cmap, 1);
    be32(&mut cmap, 12);
    cmap.extend(sub);
    let mut head = Vec::new();
    be32(&mut head, 0x0001_0000);
    be32(&mut head, 0x0001_0000);
    be32(&mut head, 0);
    be32(&mut head, 0x5F0F_3CF5);
    be16(&mut head, 0);
    be16(&mut head, 1000);
    head.extend_from_slice(&[0; 16]);
    for v in [0i16, -200, 600, 800] {
        be16(&mut head, v as u16);
    }
    be16(&mut head, 0);
    be16(&mut head, 8);
    be16(&mut head, 2);
    be16(&mut head, 0);
    be16(&mut head, 0);
    let mut hhea = Vec::new();
    be32(&mut hhea, 0x0001_0000);
    for v in [800i16, -200, 0] {
        be16(&mut hhea, v as u16);
    }
    be16(&mut hhea, 700);
    for v in [0i16, 0, 600, 1, 0, 0, 0, 0, 0, 0, 0] {
        be16(&mut hhea, v as u16);
    }
    be16(&mut hhea, glyphs.len() as u16);
    let mut maxp = Vec::new();
    be32(&mut maxp, 0x0001_0000);
    be16(&mut maxp, glyphs.len() as u16);
    for v in [4u16, 1, 0, 0, 2, 0, 0, 0, 0, 0, 0, 0, 0] {
        be16(&mut maxp, v);
    }
    let family: Vec<u8> = "Fixture Mono".encode_utf16().flat_map(|u| u.to_be_bytes()).collect();
    let mut name = Vec::new();
    for v in [0u16, 1, 18, 3, 1, 0x409, 1, family.len() as u16, 0] {
        be16(&mut name, v);
    }
    name.extend(family);
    let mut post = Vec::new();
    be32(&mut post, 0x0003_0000);
    be32(&mut post, 0);
    be16(&mut post, (-100i16) as u16);
    be16(&mut post, 50);
    be32(&mut post, u32::from(fixed_pitch));
    post.extend_from_slice(&[0; 16]);
    let tables: [(&[u8; 4], Vec<u8>); 9] = [
        (b"cmap", cmap),
        (b"glyf", glyf),
        (b"head", head),
        (b"hhea", hhea),
        (b"hmtx", hmtx),
        (b"loca", loca),
        (b"maxp", maxp),
        (b"name", name),
        (b"post", post),
    ];
    let mut font = Vec::new();
    be32(&mut font, 0x0001_0000);
    be16(&mut font, tables.len() as u16);
    be16(&mut font, 128);
    be16(&mut font, 3);
    be16(&mut font, 16 * tables.len() as u16 - 128);
    let mut offset = 12 + 16 * tables.len();
    let mut body = Vec::new();
    for (tag, data) in &tables {
        font.extend_from_slice(*tag);
        be32(&mut font, 0);
        be32(&mut font, offset as u32);
        be32(&mut font, data.len() as u32);
        let mut padded = data.clone();
        while padded.len() % 4 != 0 {
            padded.push(0);
        }
        offset += padded.len();
        body.extend(padded);
    }
    font.extend(body);
    font
}

#[test]
fn scalable_monospaced_atlas_has_uniform_baseline_grayscale_and_duplicate_identity() {
    let (atlas, metrics) = build_font_atlas("fixture-mono.ttf", Ok(test_font(true)), 0, "Ag#._  A", 24, 24).unwrap();
    assert_eq!(atlas.glyph_count(), 8);
    assert!(atlas.glyph(5).iter().all(|&v| v == 0));
    assert_eq!(atlas.glyph(0), atlas.glyph(7));
    assert!(atlas.as_r8_slice().iter().any(|&v| v > 0 && v < 255));
    let lower_ink = atlas
        .glyph(1)
        .chunks(24)
        .enumerate()
        .filter(|(_, row)| row.iter().any(|&v| v > 0))
        .map(|(y, _)| y)
        .max()
        .unwrap();
    assert!(lower_ink >= metrics.baseline as usize, "descender must survive");
    let (again, _) = build_font_atlas("fixture-mono.ttf", Ok(test_font(true)), 0, "Ag#._  A", 24, 24).unwrap();
    assert_eq!(atlas.as_r8_slice(), again.as_r8_slice());
    assert_eq!(metrics.family, "Fixture Mono");
}

#[test]
fn explicit_invalid_missing_and_missing_glyph_are_errors() {
    assert!(build_font_atlas(
        "/nonexistent/asciiflow-font.ttf",
        Err("No such file or directory (os error 2)".to_string()),
        0,
        "A",
        24,
        24
    )
    .is_err());
    assert!(build_font_atlas("Cargo.toml", Ok(b"[package]\nname = \"asciiflow\"\n".to_vec()), 0, "A", 24, 24)
        .err()
        .unwrap()
        .to_string()
        .contains("load face"));
    let message = build_font_atlas("fixture-mono.ttf", Ok(test_font(true)), 0, "\u{10ffff}", 24, 24)
        .err()
        .unwrap()
        .to_string();
    assert!(message.contains("U+10FFFF") && message.contains("fixture-mono"));
    assert!(build_font_atlas("fixture-mono.ttf", Ok(test_font(true)), 9000, "A", 24, 24).is_err());
}

#[test]
fn proportional_font_is_explicitly_rejected() {
    assert!(build_font_atlas("fixture-proportional.ttf", Ok(test_font(false)), 0, "A", 24, 24)
        .err()
        .unwrap()
        .to_string()
        .contains("monospaced"));
}

#[test]
fn each_tile_holds_the_glyph_of_its_character() {
    let (atlas, metrics) = build_font_atlas("fixture-mono.ttf", Ok(test_font(true)), 0, "A.", 16, 20).unwrap();
    assert_eq!(atlas.glyph_count(), 2);
    assert!(metrics.pixel_size >= 1 && metrics.pixel_size <= 20);
    let ink = |t: usize| atlas.glyph(t).iter().filter(|&&v| v > 0).count();
    assert!(ink(0) > ink(1) && ink(1) > 0);
}
