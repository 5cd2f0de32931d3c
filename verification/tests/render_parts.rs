use wow_ui_sim::glyph::{
    glyph_atlas_pixel_offset, glyph_pixel_positions, subpixel_mask_alpha, write_color_glyph_pixels,
    write_mask_glyph_pixels, write_subpixel_glyph_pixels, GlyphAtlas, GlyphContent, GlyphCursor,
    GlyphPixelPosition,
};
use wow_ui_sim::headless::{
    image_from_read_back_buffer, install_glyph_atlas_data, read_back_buffer_layout,
    HeadlessRenderer, WowUiPrimitive,
};
use wow_ui_sim::quad::{
    is_ui_frame_tabs_path, push_quad_indices, should_use_uv_inset, RequestState, RequestStates,
    TextureRequest, TextureRequestHandle,
};

#[test]
fn read_back_buffer_layout_aligns_rows_to_256_bytes() {
    let layout = read_back_buffer_layout(3, 2);
    assert_eq!(layout.bytes_per_row, 256);
    assert_eq!(layout.size_bytes, 512);
}

#[test]
fn read_back_rows_of_exactly_256_bytes_are_not_padded() {
    let layout = read_back_buffer_layout(64, 3);
    assert_eq!(layout.bytes_per_row, 256);
    assert_eq!(layout.size_bytes, 768);
    assert_eq!(read_back_buffer_layout(65, 1).bytes_per_row, 512);
}

#[test]
fn install_glyph_atlas_data_copies_pixels_and_size() {
    let mut primitive = WowUiPrimitive::empty();
    install_glyph_atlas_data(&mut primitive, Some((&[1, 2, 3, 4], 64)));

    assert_eq!(primitive.glyph_atlas_data, Some(vec![1, 2, 3, 4]));
    assert_eq!(primitive.glyph_atlas_size, 64);
}

#[test]
fn missing_glyph_atlas_leaves_the_primitive_alone() {
    let mut primitive = WowUiPrimitive::empty();
    install_glyph_atlas_data(&mut primitive, None);
    assert_eq!(primitive.glyph_atlas_data, None);
    assert_eq!(primitive.glyph_atlas_size, 0);
}

#[test]
fn image_from_read_back_buffer_ignores_row_padding() {
    let data = vec![
        1, 2, 3, 4, 5, 6, 7, 8, 99, 99, 99, 99, 9, 10, 11, 12, 13, 14, 15, 16, 88, 88, 88, 88,
    ];
    let raw = image_from_read_back_buffer(&data, 2, 2, 12);
    let image = image::RgbaImage::from_raw(2, 2, raw).unwrap();

    assert_eq!(image.get_pixel(0, 0).0, [1, 2, 3, 4]);
    assert_eq!(image.get_pixel(1, 0).0, [5, 6, 7, 8]);
    assert_eq!(image.get_pixel(0, 1).0, [9, 10, 11, 12]);
    assert_eq!(image.get_pixel(1, 1).0, [13, 14, 15, 16]);
}

#[test]
fn glyph_offsets_and_positions() {
    assert_eq!(glyph_atlas_pixel_offset(3, 2), (2 * 2048 + 3) * 4);
    let p = glyph_pixel_positions(10, 20, 2, 2);
    assert_eq!(
        p,
        vec![
            GlyphPixelPosition { src_idx: 0, dst_idx: (20 * 2048 + 10) * 4 },
            GlyphPixelPosition { src_idx: 1, dst_idx: (20 * 2048 + 11) * 4 },
            GlyphPixelPosition { src_idx: 2, dst_idx: (21 * 2048 + 10) * 4 },
            GlyphPixelPosition { src_idx: 3, dst_idx: (21 * 2048 + 11) * 4 },
        ]
    );
    assert_eq!(subpixel_mask_alpha(255, 255, 255), 255);
    assert_eq!(subpixel_mask_alpha(10, 20, 31), 20);
}

#[test]
fn glyphs_are_copied_into_the_atlas() {
    let mut atlas = vec![0u8; 2048 * 2048 * 4];
    write_mask_glyph_pixels(&mut atlas, 1, 1, 2, 1, &[7]);
    let at = |x: usize, y: usize| (y * 2048 + x) * 4;
    assert_eq!(&atlas[at(1, 1)..at(1, 1) + 4], &[255, 255, 255, 7]);
    assert_eq!(&atlas[at(2, 1)..at(2, 1) + 4], &[255, 255, 255, 0]);
    assert_eq!(&atlas[at(3, 1)..at(3, 1) + 4], &[0, 0, 0, 0]);
    write_color_glyph_pixels(&mut atlas, 0, 0, 1, 1, &[1, 2, 3, 4]);
    assert_eq!(&atlas[0..4], &[1, 2, 3, 4]);
    write_subpixel_glyph_pixels(&mut atlas, 5, 0, 1, 1, &[30, 60, 90]);
    assert_eq!(&atlas[at(5, 0)..at(5, 0) + 4], &[255, 255, 255, 60]);
}

#[test]
fn glyph_slots_fill_rows_with_padding() {
    let mut cursor = GlyphCursor::new();
    assert_eq!(cursor.reserve_glyph_slot(10, 12), Some((0, 0)));
    assert_eq!(cursor.reserve_glyph_slot(5, 20), Some((11, 0)));
    assert_eq!(cursor.reserve_glyph_slot(2040, 4), Some((0, 21)));
    let mut full = GlyphCursor { cursor_x: 0, cursor_y: 2040, row_height: 0 };
    assert_eq!(full.reserve_glyph_slot(4, 9), None);
}

#[test]
fn texture_requests_start_fresh_and_keep_state_when_moved() {
    let mut states = RequestStates::new();
    let req = TextureRequest::new("Interface\\Buttons\\UI-Panel".to_string(), 4, 8, &mut states);
    assert!(req.use_uv_inset);
    assert!(req.handle.should_load(&states));
    req.handle.mark_staged(&mut states);
    let moved = req.with_vertex_start(12);
    assert_eq!(moved.vertex_start, 12);
    assert_eq!(moved.vertex_count, 8);
    assert!(moved.handle.is_staged(&states));
    let tabs = TextureRequest::new("Interface\\FrameGeneral\\UIFrameTabs@crop:1".to_string(), 0, 4, &mut states);
    assert!(!tabs.use_uv_inset);
    let explicit = TextureRequest::new_with_uv_inset("x".to_string(), 0, 4, false, &mut states);
    assert!(!explicit.use_uv_inset);
}

#[test]
fn moved_requests_share_their_load_state() {
    let mut states = RequestStates::new();
    let req = TextureRequest::new("Interface\\Icons\\Spell".to_string(), 0, 4, &mut states);
    let other = TextureRequest::new("Interface\\Icons\\Other".to_string(), 4, 4, &mut states);
    let earlier_copy = req.with_vertex_start(8);
    let moved = req.with_vertex_start(16);
    moved.handle.mark_ready(&mut states);
    assert!(req.handle.is_ready(&states));
    assert!(!req.handle.is_pending(&states));
    assert!(earlier_copy.handle.is_ready(&states));
    assert!(other.handle.is_pending(&states));
    req.handle.mark_failed(&mut states);
    assert!(moved.handle.is_failed(&states));
}

#[test]
fn request_state_machine_transitions() {
    let mut states = RequestStates::new();
    let h = TextureRequestHandle::new(&mut states);
    assert!(h.is_pending(&states) && h.should_load(&states));
    h.mark_staged(&mut states);
    assert!(h.is_staged(&states) && h.is_pending(&states) && !h.should_load(&states));
    h.mark_force_rgba(&mut states);
    assert!(h.needs_force_rgba(&states) && h.should_load(&states));
    h.mark_ready(&mut states);
    assert!(h.is_ready(&states) && !h.should_load(&states) && !h.needs_force_rgba(&states));
    h.mark_failed(&mut states);
    assert!(h.is_failed(&states) && !h.is_pending(&states) && !h.should_load(&states));
    h.mark_retry(&mut states);
    assert_eq!(
        h.state(&states),
        RequestState { staged: false, ready: false, force_rgba: false, failed: false }
    );
}

#[test]
fn frame_tab_paths_and_uv_inset() {
    assert!(is_ui_frame_tabs_path("INTERFACE\\FrameGeneral\\UIFrameTabs"));
    assert!(!is_ui_frame_tabs_path("Interface/FrameGeneral/UI-Frame"));
    assert!(should_use_uv_inset("Interface/FrameGeneral/UIFrameTabs"));
    assert!(!should_use_uv_inset("interface/framegeneral/uiframetabs@crop:0"));
}

#[test]
fn quad_indices_form_two_triangles() {
    let mut indices = vec![9];
    push_quad_indices(&mut indices, 4);
    assert_eq!(indices, vec![9, 4, 5, 6, 4, 6, 7]);
}

#[test]
fn glyph_atlas_starts_clean_and_empty() {
    let atlas = GlyphAtlas::new();
    assert_eq!(atlas.atlas_path(), "__glyph_atlas__");
    assert_eq!(atlas.revision(), 0);
    assert!(!atlas.is_dirty());
    let (pixels, w, h) = atlas.texture_data();
    assert_eq!((w, h), (2048, 2048));
    assert_eq!(pixels.len(), 2048 * 2048 * 4);
    assert!(pixels.iter().all(|&b| b == 0));
}

#[test]
fn glyph_atlas_insert_marks_dirty_and_advances_revision() {
    let mut atlas = GlyphAtlas::new();
    let slot = atlas.insert_glyph(2, 1, &[10, 20], GlyphContent::Mask);
    assert_eq!(slot, Some((0, 0)));
    assert!(atlas.is_dirty());
    assert_eq!(atlas.revision(), 1);
    let (pixels, _, _) = atlas.texture_data();
    assert_eq!(&pixels[0..8], &[255, 255, 255, 10, 255, 255, 255, 20]);
    let second = atlas.insert_glyph(1, 1, &[7], GlyphContent::Mask);
    assert_eq!(second, Some((3, 0)));
    assert_eq!(atlas.revision(), 2);
    atlas.mark_clean();
    assert!(!atlas.is_dirty());
    assert_eq!(atlas.revision(), 2);
}

#[test]
fn glyph_atlas_ignores_empty_glyphs_and_refuses_when_full() {
    let mut atlas = GlyphAtlas::new();
    assert_eq!(atlas.insert_glyph(0, 5, &[], GlyphContent::Mask), None);
    assert_eq!(atlas.revision(), 0);
    assert!(!atlas.is_dirty());
    assert_eq!(atlas.insert_glyph(2048, 2048, &[], GlyphContent::Color), Some((0, 0)));
    assert_eq!(atlas.revision(), 1);
    atlas.mark_clean();
    assert_eq!(atlas.insert_glyph(1, 1, &[1], GlyphContent::Mask), None);
    assert!(!atlas.is_dirty());
    assert_eq!(atlas.revision(), 1);
}

#[test]
fn shape_cache_entries_are_swept_after_120_unused_generations() {
    let mut atlas = GlyphAtlas::new();
    atlas.insert_shape_cache_entry(42);
    atlas.insert_shape_cache_entry(7);
    assert!(atlas.touch_shape_cache_entry(42));
    assert!(!atlas.touch_shape_cache_entry(99));
    for _ in 0..100 {
        atlas.advance_generation();
    }
    assert!(atlas.touch_shape_cache_entry(7));
    for _ in 100..120 {
        atlas.advance_generation();
    }
    // generation 120 swept entries last used before generation 1: key 42
    // (used at 0) is gone, key 7 (used at 100) stays.
    assert_eq!(atlas.shape_cache_generation, 120);
    assert!(!atlas.touch_shape_cache_entry(42));
    assert!(atlas.touch_shape_cache_entry(7));
}

#[test]
fn shape_cache_sweeps_only_every_sixtieth_generation() {
    let mut atlas = GlyphAtlas::new();
    atlas.insert_shape_cache_entry(5);
    for _ in 0..119 {
        atlas.advance_generation();
    }
    // the sweep at generation 60 keeps the entry (60 generations unused)
    assert_eq!(atlas.shape_cache, vec![(5, 0)]);
    atlas.advance_generation();
    assert!(atlas.shape_cache.is_empty());
}

#[test]
fn headless_renderer_uploads_each_glyph_revision_once() {
    let mut renderer = HeadlessRenderer::new();
    assert!(renderer.needs_glyph_upload(3));
    renderer.record_glyph_upload(3, false);
    assert!(renderer.needs_glyph_upload(3));
    renderer.record_glyph_upload(3, true);
    assert!(!renderer.needs_glyph_upload(3));
    assert!(renderer.needs_glyph_upload(4));
}

#[test]
fn headless_renderer_keeps_a_target_of_the_same_size() {
    let mut renderer = HeadlessRenderer::new();
    assert!(renderer.ensure_target(640, 480));
    assert!(!renderer.ensure_target(640, 480));
    assert!(renderer.ensure_target(800, 600));
    assert_eq!(renderer.target_size, Some((800, 600)));
}

#[test]
fn only_replaced_strata_are_uploaded_again() {
    let mut renderer = HeadlessRenderer::new();
    assert_eq!(renderer.select_dirty_strata(&[Some(1), None, Some(2)]), vec![true, false, true]);
    assert_eq!(renderer.select_dirty_strata(&[Some(1), Some(5), Some(3)]), vec![false, true, true]);
    assert_eq!(renderer.select_dirty_strata(&[Some(1), None, Some(3)]), vec![false, true, false]);
    renderer.clear_strata_cache();
    assert_eq!(renderer.select_dirty_strata(&[Some(1), None]), vec![true, false]);
}

#[test]
fn glyphs_taller_than_the_atlas_find_no_slot() {
    let mut atlas = GlyphAtlas::new();
    assert_eq!(atlas.insert_glyph(1, 3000, &[], GlyphContent::Mask), None);
    assert_eq!(atlas.revision(), 0);
    assert_eq!(atlas.insert_glyph(1, 1, &[9], GlyphContent::Mask), Some((0, 0)));
}
