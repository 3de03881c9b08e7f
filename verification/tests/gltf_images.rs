use std::path::Path;

use ratatui_3dmesh::loader::gltf::{
    collect_node_parents, convert_image_rgba, gltf_image_to_texture, image_path,
    indices_for_positions, load_textures, primitive_triangles, triangle_face_corners, u16_to_u8,
    ImageData, PixelFormat,
};
use ratatui_3dmesh::loader::obj::FaceCorner;
use ratatui_3dmesh::loader::MeshLoadOptions;

fn image(format: PixelFormat, pixels: Vec<u8>) -> ImageData {
    ImageData { format, width: 1, height: 1, pixels }
}

#[test]
fn u16_channels_keep_their_high_byte() {
    assert_eq!(u16_to_u8(&[0x34, 0x12]), 0x12);
    assert_eq!(u16_to_u8(&[0xff, 0x00, 0x99]), 0x00);
}

#[test]
fn converts_8_bit_layouts() {
    assert_eq!(convert_image_rgba(&image(PixelFormat::R8, vec![10, 20])), vec![10, 10, 10, 255, 20, 20, 20, 255]);
    assert_eq!(convert_image_rgba(&image(PixelFormat::R8G8, vec![10, 99, 7])), vec![10, 10, 10, 99]);
    assert_eq!(
        convert_image_rgba(&image(PixelFormat::R8G8B8, vec![1, 2, 3, 4, 5])),
        vec![1, 2, 3, 255]
    );
    assert_eq!(
        convert_image_rgba(&image(PixelFormat::R8G8B8A8, vec![1, 2, 3, 4, 5])),
        vec![1, 2, 3, 4, 5]
    );
}

#[test]
fn converts_16_bit_layouts() {
    assert_eq!(convert_image_rgba(&image(PixelFormat::R16, vec![0x00, 0x80])), vec![0x80, 0x80, 0x80, 255]);
    assert_eq!(
        convert_image_rgba(&image(PixelFormat::R16G16, vec![1, 2, 3, 4])),
        vec![2, 2, 2, 4]
    );
    assert_eq!(
        convert_image_rgba(&image(PixelFormat::R16G16B16, vec![1, 2, 3, 4, 5, 6, 7])),
        vec![2, 4, 6, 255]
    );
    assert_eq!(
        convert_image_rgba(&image(PixelFormat::R16G16B16A16, vec![1, 2, 3, 4, 5, 6, 7, 8])),
        vec![2, 4, 6, 8]
    );
}

#[test]
fn node_parents_follow_children_lists() {
    let children = vec![vec![1, 2], vec![3], vec![], vec![]];
    assert_eq!(collect_node_parents(&children), vec![None, Some(0), Some(0), Some(1)]);
}

#[test]
fn node_parents_ignore_out_of_range_and_keep_last_listing() {
    let children = vec![vec![2, 9], vec![], vec![], vec![2]];
    assert_eq!(collect_node_parents(&children), vec![None, None, Some(3), None]);
    assert_eq!(collect_node_parents(&vec![]), vec![]);
}

#[test]
fn implicit_indices_count_up() {
    assert_eq!(indices_for_positions(4), vec![0, 1, 2, 3]);
    assert!(indices_for_positions(0).is_empty());
}

#[test]
fn embedded_images_are_named_by_index() {
    assert_eq!(image_path("models/scene.glb", 3, None), "gltf-image-3");
    assert_eq!(image_path("models/scene.glb", 1207, None), "gltf-image-1207");
    assert_eq!(image_path("models/scene.glb", 0, None), "gltf-image-0");
}

#[test]
fn external_images_resolve_next_to_the_document() {
    assert_eq!(
        Path::new(&image_path("models/scene.gltf", 0, Some("tex/a.png"))),
        Path::new("models/tex/a.png")
    );
    assert_eq!(Path::new(&image_path("scene.gltf", 0, Some("a.png"))), Path::new("a.png"));
}

#[test]
fn gltf_images_become_textures() {
    let data = ImageData { format: PixelFormat::R8G8B8, width: 2, height: 1, pixels: vec![10, 20, 30, 30, 40, 50] };
    let texture = gltf_image_to_texture("scene.glb", 5, &data);
    assert_eq!(texture.path, "gltf-image-5");
    assert_eq!(texture.width, 2);
    assert_eq!(texture.height, 1);
    assert_eq!(texture.rgba, vec![10, 20, 30, 255, 30, 40, 50, 255]);
    assert_eq!(texture.average_color, [20, 30, 40]);
}

#[test]
fn every_image_loads_in_order() {
    let images = vec![
        image(PixelFormat::R8, vec![7]),
        image(PixelFormat::R8G8B8A8, vec![1, 2, 3, 4]),
    ];
    let textures = load_textures("scene.glb", &MeshLoadOptions::default(), &images).unwrap();
    assert_eq!(textures.len(), 2);
    assert_eq!(textures[0].path, "gltf-image-0");
    assert_eq!(textures[0].rgba, vec![7, 7, 7, 255]);
    assert_eq!(textures[1].path, "gltf-image-1");
    assert_eq!(textures[1].rgba, vec![1, 2, 3, 4]);
}

#[test]
fn primitive_triangles_drop_partial_and_out_of_range_triples() {
    let indices = vec![0, 1, 2, 2, 1, 9, 3, 2, 1, 0];
    assert_eq!(primitive_triangles(&indices, 4), vec![(0, 1, 2), (3, 2, 1)]);
    assert!(primitive_triangles(&vec![0, 1], 4).is_empty());
}

#[test]
fn triangle_corners_point_into_flattened_attributes() {
    let (corners, normal) = triangle_face_corners((0, 2, 3), 10, 100, 3, 50, 1);
    assert_eq!(
        corners,
        vec![
            FaceCorner { vertex: 10, tex_coord: Some(100), normal: Some(50) },
            FaceCorner { vertex: 12, tex_coord: Some(102), normal: None },
            FaceCorner { vertex: 13, tex_coord: None, normal: None },
        ]
    );
    assert_eq!(normal, Some(50));
    let (_, normal) = triangle_face_corners((1, 2, 0), 0, 0, 0, 7, 1);
    assert_eq!(normal, Some(7));
    let (_, normal) = triangle_face_corners((1, 2, 3), 0, 0, 0, 7, 1);
    assert_eq!(normal, None);
}
