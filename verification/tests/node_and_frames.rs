use capture_canvas::{
    bind_group_slots, blend_state_or, bytes_per_row, flatten_pixels, texture_extent,
    BindingSlot, BindingSource, FramePlan, TextureExtent, TextureState,
};

fn extent(w: u32, h: u32) -> TextureExtent {
    TextureExtent { width: w, height: h, depth_or_array_layers: 1 }
}

#[test]
fn extent_of_a_frame() {
    assert_eq!(texture_extent(1920, 1080), extent(1920, 1080));
    assert_eq!(texture_extent(0, 0), extent(0, 0));
}

#[test]
fn extent_truncates_like_a_cast() {
    let wide: usize = (1usize << 32) + 5;
    assert_eq!(texture_extent(wide, 7), extent(5, 7));
}

#[test]
fn row_length_is_four_bytes_per_pixel() {
    assert_eq!(bytes_per_row(1920), 7680);
    assert_eq!(bytes_per_row(0), 0);
    assert_eq!(bytes_per_row(u32::MAX / 4), u32::MAX - 3);
}

#[test]
fn pixels_are_laid_out_in_order() {
    let px: Vec<[u8; 4]> = vec![[1, 2, 3, 4], [5, 6, 7, 8], [9, 10, 11, 12]];
    assert_eq!(flatten_pixels(&px), vec![1, 2, 3, 4, 5, 6, 7, 8, 9, 10, 11, 12]);
    let none: Vec<[u8; 4]> = Vec::new();
    assert_eq!(flatten_pixels(&none), Vec::<u8>::new());
}

#[test]
fn fresh_node_is_unbound() {
    let s = TextureState::new();
    assert!(!s.is_bound());
    assert_eq!(s.texture_size(), (0, 0));
}

#[test]
fn first_frame_rebuilds_then_same_size_uploads() {
    let mut s = TextureState::new();
    assert_eq!(s.plan_frame(640, 480), FramePlan::Rebuild { extent: extent(640, 480) });
    assert!(s.is_bound());
    assert_eq!(s.texture_size(), (640, 480));
    assert_eq!(
        s.plan_frame(640, 480),
        FramePlan::Upload { extent: extent(640, 480), bytes_per_row: 2560 }
    );
    assert_eq!(s.texture_size(), (640, 480));
    assert_eq!(
        s.plan_frame(640, 480),
        FramePlan::Upload { extent: extent(640, 480), bytes_per_row: 2560 }
    );
}

#[test]
fn resized_frame_rebuilds() {
    let mut s = TextureState::new();
    s.plan_frame(640, 480);
    assert_eq!(s.plan_frame(800, 480), FramePlan::Rebuild { extent: extent(800, 480) });
    assert_eq!(s.plan_frame(800, 600), FramePlan::Rebuild { extent: extent(800, 600) });
    assert_eq!(s.texture_size(), (800, 600));
    assert!(s.is_bound());
}

#[test]
fn bound_after_a_run_of_frames_at_last_size() {
    let mut s = TextureState::new();
    for (w, h) in [(10usize, 20usize), (10, 20), (30, 40), (30, 40), (1, 1)] {
        s.plan_frame(w, h);
    }
    assert!(s.is_bound());
    assert_eq!(s.texture_size(), (1, 1));
}

#[test]
fn blend_state_defaults_to_fallback() {
    assert_eq!(blend_state_or(Some(3u8), 9), Some(3));
    assert_eq!(blend_state_or(None, 9u8), Some(9));
}

fn slot(binding: u32, source: BindingSource, index: usize) -> BindingSlot {
    BindingSlot { binding, source, index }
}

#[test]
fn node_bind_group_layout() {
    // One uniform buffer, one texture view, one sampler: the fullscreen node's group.
    assert_eq!(
        bind_group_slots(1, 0, 1, 1),
        vec![
            slot(0, BindingSource::Uniform, 0),
            slot(1, BindingSource::TextureView, 0),
            slot(2, BindingSource::Sampler, 0),
        ]
    );
}

#[test]
fn bindings_follow_list_order() {
    assert_eq!(
        bind_group_slots(2, 1, 1, 2),
        vec![
            slot(0, BindingSource::Uniform, 0),
            slot(1, BindingSource::Uniform, 1),
            slot(2, BindingSource::StorageBuffer, 0),
            slot(3, BindingSource::TextureView, 0),
            slot(4, BindingSource::Sampler, 0),
            slot(5, BindingSource::Sampler, 1),
        ]
    );
    assert_eq!(bind_group_slots(0, 0, 0, 0), Vec::<BindingSlot>::new());
}

#[test]
fn empty_frame_after_a_real_one_rebuilds() {
    let mut s = TextureState::new();
    s.plan_frame(4, 4);
    assert_eq!(s.plan_frame(0, 0), FramePlan::Rebuild { extent: extent(0, 0) });
    assert!(s.is_bound());
    assert_eq!(s.texture_size(), (0, 0));
}

#[test]
fn every_upload_has_the_extent_of_the_latest_rebuild() {
    let mut s = TextureState::new();
    let mut current: Option<TextureExtent> = None;
    for (w, h) in [(8usize, 6usize), (8, 6), (8, 6), (3, 9), (3, 9), (8, 6), (8, 6)] {
        match s.plan_frame(w, h) {
            FramePlan::Rebuild { extent } => current = Some(extent),
            FramePlan::Upload { extent, bytes_per_row } => {
                assert_eq!(Some(extent), current);
                assert_eq!(bytes_per_row, 4 * extent.width);
            }
        }
    }
    assert_eq!(current, Some(extent(8, 6)));
}
