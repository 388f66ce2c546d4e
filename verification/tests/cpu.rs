use asciiflow::cpu::mapper::{AsciiCell, CellGrid, Nv12Mapper};
use asciiflow::cpu::renderer::Nv12Renderer;
use asciiflow::font::GlyphAtlas;
use asciiflow::frame::{ColorSpace, FrameDesc, HostFrame, VideoFrame};

#[test]
fn fixed_nv12_maps_to_expected_glyphs() {
    let desc = FrameDesc::host_nv12(4, 2, ColorSpace::default()).unwrap();
    let data = vec![16, 16, 235, 235, 16, 16, 235, 235, 128, 128, 128, 128];
    let frame = VideoFrame::new_host(desc.clone(), Some(7), HostFrame::from_nv12(&desc, data).unwrap()).unwrap();
    let grid = Nv12Mapper::new("@ ").unwrap().map(&frame, 2, 1).unwrap();
    assert_eq!(grid.cells.iter().map(|c| c.glyph).collect::<Vec<_>>(), vec![0, 1]);
}

#[test]
fn exact_nv12_expansion_preserves_glyphs_and_ten_bit_codes() {
    let color_space = ColorSpace::default();
    let nv12_desc = FrameDesc::host_nv12(16, 16, color_space).unwrap();
    let nv12_data: Vec<u8> = (0..nv12_desc.byte_len()).map(|index| (index.wrapping_mul(37) % 256) as u8).collect();
    let nv12 = VideoFrame::new_host(nv12_desc.clone(), Some(9), HostFrame::from_nv12(&nv12_desc, nv12_data.clone()).unwrap()).unwrap();
    let p010_desc = FrameDesc::host_p010_le(16, 16, color_space).unwrap();
    let p010_data: Vec<u8> = nv12_data.iter().flat_map(|&sample| ((sample as u16) << 8).to_le_bytes()).collect();
    let p010 = VideoFrame::new_host(p010_desc.clone(), Some(9), HostFrame::from_p010_le(&p010_desc, p010_data).unwrap()).unwrap();
    let mapper = Nv12Mapper::new("@%#*+=-:. ").unwrap();
    let mapped_8 = mapper.map(&nv12, 5, 3).unwrap();
    let mapped_10 = mapper.map(&p010, 5, 3).unwrap();
    for (cell8, cell10) in mapped_8.cells.iter().zip(&mapped_10.cells) {
        assert_eq!(cell8.glyph, cell10.glyph);
        assert_eq!(cell10.y >> 2, cell8.y);
        assert_eq!(cell10.u >> 2, cell8.u);
        assert_eq!(cell10.v >> 2, cell8.v);
    }
}

#[test]
fn p010_mapping_retains_low_active_luma_and_chroma_bits() {
    let desc = FrameDesc::host_p010_le(2, 2, ColorSpace::default()).unwrap();
    let samples = [512u16, 513, 514, 515, 513, 514];
    let bytes = samples.into_iter().flat_map(|sample| (sample << 6).to_le_bytes()).collect();
    let frame = VideoFrame::new_host(desc.clone(), None, HostFrame::from_p010_le(&desc, bytes).unwrap()).unwrap();
    let cell = Nv12Mapper::new("@ ").unwrap().map(&frame, 1, 1).unwrap().cells[0];
    assert_eq!((cell.y, cell.u, cell.v), (513, 513, 514));
}

#[test]
fn rendering_is_deterministic_nv12() {
    let atlas = GlyphAtlas::builtin("builtin-8x8", "@ ").unwrap();
    let renderer = Nv12Renderer::new(&atlas);
    let grid = CellGrid { width: 1, height: 1, cells: vec![AsciiCell { glyph: 0, y: 180, u: 90, v: 170 }] };
    let desc = FrameDesc::host_nv12(8, 8, ColorSpace::default()).unwrap();
    let a = renderer.render(&grid, desc.clone(), Some(1), true).unwrap();
    let b = renderer.render(&grid, desc, Some(1), true).unwrap();
    assert_eq!(a, b);
    assert!(a.host().as_slice().iter().any(|&v| v != 16 && v != 128));
}

#[test]
fn p010_render_retains_luma_and_chroma_precision_with_zero_padding() {
    let atlas = GlyphAtlas::from_r8(2, 2, 1, vec![255; 4]).unwrap();
    let renderer = Nv12Renderer::new(&atlas);
    let desc = FrameDesc::host_p010_le(2, 2, ColorSpace::default()).unwrap();
    for (y, u, v) in [(512, 512, 512), (513, 513, 514), (514, 514, 515)] {
        let grid = CellGrid { width: 1, height: 1, cells: vec![AsciiCell { glyph: 0, y, u, v }] };
        let frame = renderer.render(&grid, desc.clone(), Some(7), true).unwrap();
        assert_eq!(frame.desc().color_space, ColorSpace::default());
        assert_eq!(frame.pts(), Some(7));
        let (y_plane, uv_plane) = frame.host().planes(&desc);
        for bytes in y_plane.chunks_exact(2) {
            let word = u16::from_le_bytes([bytes[0], bytes[1]]);
            assert_eq!(word >> 6, y);
            assert_eq!(word & 0x3f, 0);
        }
        assert_eq!(u16::from_le_bytes([uv_plane[0], uv_plane[1]]) >> 6, u);
        assert_eq!(u16::from_le_bytes([uv_plane[2], uv_plane[3]]) >> 6, v);
        assert!(uv_plane.chunks_exact(2).all(|bytes| u16::from_le_bytes([bytes[0], bytes[1]]) & 0x3f == 0));
    }
}

#[test]
fn p010_blend_operates_on_ten_bit_codes() {
    let atlas = GlyphAtlas::from_r8(2, 2, 1, vec![128; 4]).unwrap();
    let renderer = Nv12Renderer::new(&atlas);
    let desc = FrameDesc::host_p010_le(2, 2, ColorSpace::default()).unwrap();
    let render = |code| {
        renderer
            .render(
                &CellGrid { width: 1, height: 1, cells: vec![AsciiCell { glyph: 0, y: code, u: code, v: code }] },
                desc.clone(),
                None,
                true,
            )
            .unwrap()
    };
    let a = render(512);
    let b = render(515);
    assert_ne!(a.host().as_slice(), b.host().as_slice());
    assert!(b.host().as_slice().chunks_exact(2).all(|bytes| u16::from_le_bytes([bytes[0], bytes[1]]) & 0x3f == 0));
}

#[test]
fn out_of_range_glyph_is_an_error_not_a_panic() {
    let atlas = GlyphAtlas::builtin("builtin-8x8", " ").unwrap();
    let grid = CellGrid {
        width: 1,
        height: 1,
        cells: vec![AsciiCell {
            glyph: 1,
            y: 100,
            u: 128,
            v: 128,
        }],
    };
    assert!(
        Nv12Renderer::new(&atlas)
            .render(&grid, FrameDesc::host_nv12(8, 8, ColorSpace::default()).unwrap(), None, true)
            .is_err()
    );
}

#[test]
fn atlas_is_r8_and_stable() {
    let atlas = GlyphAtlas::builtin("builtin-8x8", "@ ").unwrap();
    assert_eq!(atlas.glyph(0).len(), 64);
    assert!(atlas.glyph(1).iter().all(|&v| v == 0));
}
