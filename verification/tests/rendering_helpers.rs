use ratatui_3dmesh::animation::{ancestor_chain, NodeLink};
use ratatui_3dmesh::config::{
    glyph_at_level, ColorMode, ProjectionMode, RenderMode, TextureFilter, TextureWrap,
};
use ratatui_3dmesh::model::AlphaMode;
use ratatui_3dmesh::render::pipeline::{render_passes, texture_enabled, triangulate_corners};
use ratatui_3dmesh::render::RenderProfile;
use ratatui_3dmesh::text::decimal_chars;
use ratatui_3dmesh::{AnimatedProperty, Interpolation, MeshRange};

#[test]
fn fans_from_the_first_corner() {
    assert_eq!(triangulate_corners(5), vec![[0, 1, 2], [0, 2, 3], [0, 3, 4]]);
    assert_eq!(triangulate_corners(3), vec![[0, 1, 2]]);
    assert!(triangulate_corners(2).is_empty());
    assert!(triangulate_corners(0).is_empty());
}

#[test]
fn texture_modes() {
    assert!(texture_enabled(ColorMode::Texture));
    assert!(texture_enabled(ColorMode::Auto));
    assert!(!texture_enabled(ColorMode::Material));
    assert!(!texture_enabled(ColorMode::Lighting));
    assert!(!texture_enabled(ColorMode::Off));
}

#[test]
fn glyph_levels_clamp_to_the_ramp() {
    let ramp: Vec<char> = " .:#".chars().collect();
    assert_eq!(glyph_at_level(&ramp, 0), ' ');
    assert_eq!(glyph_at_level(&ramp, 2), ':');
    assert_eq!(glyph_at_level(&ramp, 99), '#');
    assert_eq!(glyph_at_level(&vec![], 0), '#');
}

#[test]
fn mode_defaults() {
    assert_eq!(RenderMode::default(), RenderMode::Solid);
    assert_eq!(ProjectionMode::default(), ProjectionMode::Perspective);
    assert_eq!(ColorMode::default(), ColorMode::Material);
    assert_eq!(TextureFilter::default(), TextureFilter::Nearest);
    assert_eq!(TextureWrap::default(), TextureWrap::Repeat);
    assert_eq!(AlphaMode::default(), AlphaMode::Opaque);
}

#[test]
fn profile_counters_start_at_zero_and_count() {
    let mut p = RenderProfile::default();
    assert_eq!(p.faces_considered, 0);
    assert_eq!(p.cells_written, 0);
    p.face();
    p.face();
    p.cell_written();
    p.raster_bbox(40);
    p.raster_visited(12);
    p.raster_inside();
    p.depth_rejected();
    p.shade_call();
    p.shade_discarded();
    p.coplanar_rejected();
    p.triangle();
    p.culled_triangle();
    p.skipped_triangle();
    p.blend_face();
    assert_eq!(p.faces_considered, 2);
    assert_eq!(p.cells_written, 1);
    assert_eq!(p.raster_bbox_cells, 40);
    assert_eq!(p.raster_visited_cells, 12);
    assert_eq!(
        (p.raster_inside_cells, p.depth_rejected_cells, p.shade_calls, p.shade_discarded_cells),
        (1, 1, 1, 1)
    );
    assert_eq!(
        (p.coplanar_rejected_cells, p.triangles_considered, p.triangles_culled, p.triangles_degenerate_or_offscreen, p.blend_faces),
        (1, 1, 1, 1, 1)
    );
    assert_eq!(p.total, std::time::Duration::ZERO);
}

#[test]
fn decimal_digits() {
    assert_eq!(decimal_chars(0), vec!['0']);
    assert_eq!(decimal_chars(1207), vec!['1', '2', '0', '7']);
    assert_eq!(decimal_chars(usize::MAX).iter().collect::<String>(), usize::MAX.to_string());
}

#[test]
fn animation_metadata() {
    let r = MeshRange::new(3, 9);
    assert_eq!((r.start, r.len), (3, 9));
    assert_ne!(Interpolation::Step, Interpolation::Linear);
    assert_ne!(AnimatedProperty::Rotation, AnimatedProperty::Scale);
}

#[test]
fn ancestor_chains_walk_to_the_root() {
    let nodes = vec![
        NodeLink { index: 5, parent: Some(7) },
        NodeLink { index: 7, parent: None },
        NodeLink { index: 9, parent: Some(5) },
    ];
    assert_eq!(ancestor_chain(9, &nodes), vec![2, 0, 1]);
    assert_eq!(ancestor_chain(7, &nodes), vec![1]);
    assert!(ancestor_chain(42, &nodes).is_empty());
}

#[test]
fn ancestor_chains_stop_on_cycles_and_missing_parents() {
    let cyclic = vec![NodeLink { index: 1, parent: Some(2) }, NodeLink { index: 2, parent: Some(1) }];
    assert_eq!(ancestor_chain(1, &cyclic), vec![0, 1, 0]);
    let dangling = vec![NodeLink { index: 3, parent: Some(8) }];
    assert_eq!(ancestor_chain(3, &dangling), vec![0]);
}

#[test]
fn profiles_clone_with_their_timings() {
    let mut p = RenderProfile::default();
    p.total = std::time::Duration::from_millis(7);
    p.shade_call();
    let q = p.clone();
    assert_eq!(q.total, std::time::Duration::from_millis(7));
    assert_eq!(q.shade_calls, 1);
}

#[test]
fn passes_follow_alpha_modes_and_texture_opacity() {
    let opaque = vec![true, false];
    assert_eq!(render_passes(&vec![(AlphaMode::Opaque, None), (AlphaMode::Opaque, Some(0))], &opaque, 4), (false, true));
    assert_eq!(render_passes(&vec![(AlphaMode::Opaque, Some(1))], &opaque, 4), (false, false));
    assert_eq!(render_passes(&vec![(AlphaMode::Opaque, Some(7))], &opaque, 4), (false, true));
    assert_eq!(render_passes(&vec![(AlphaMode::Mask, None)], &opaque, 4), (false, false));
    assert_eq!(render_passes(&vec![(AlphaMode::Opaque, None), (AlphaMode::Blend, None)], &opaque, 4), (true, false));
    assert_eq!(render_passes(&vec![], &opaque, 0), (false, true));
    assert_eq!(render_passes(&vec![(AlphaMode::Opaque, None)], &opaque, u32::MAX as usize + 1), (false, false));
}
