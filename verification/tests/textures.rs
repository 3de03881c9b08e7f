use ratatui_3dmesh::loader::texture::decode_texture;
use ratatui_3dmesh::model::{average_rgba_color, Texture, TextureRef};
use ratatui_3dmesh::render::pipeline::texture_pixel;
use ratatui_3dmesh::Error;

fn png_2x2() -> Vec<u8> {
    let mut bytes = Vec::new();
    let pixels = [255u8, 0, 0, 255, 0, 255, 0, 255, 0, 0, 255, 255, 255, 255, 255, 255];
    {
        let encoder = image::codecs::png::PngEncoder::new(&mut bytes);
        image::ImageEncoder::write_image(encoder, &pixels, 2, 2, image::ColorType::Rgba8.into())
            .unwrap();
    }
    bytes
}

#[test]
fn decodes_png_by_content_not_extension() {
    let bytes = png_2x2();
    let texture = decode_texture("wrong.jpg", &bytes).unwrap();
    assert_eq!(texture.width, 2);
    assert_eq!(texture.height, 2);
    assert_eq!(texture_pixel(&texture, 0, 0), [255, 0, 0, 255]);
}

#[test]
fn decoded_texture_keeps_path_pixels_and_average() {
    let texture = decode_texture("wrong.jpg", &png_2x2()).unwrap();
    assert_eq!(texture.path, "wrong.jpg");
    assert_eq!(texture.rgba.len(), 16);
    assert_eq!(texture_pixel(&texture, 1, 1), [255, 255, 255, 255]);
    assert_eq!(texture.average_color, [127, 127, 127]);
    assert_eq!(texture.average_color(), [127, 127, 127]);
}

#[test]
fn unknown_bytes_are_a_texture_error() {
    match decode_texture("notes.png", b"definitely not an image") {
        Err(Error::TextureDecode { path, message }) => {
            assert_eq!(path, "notes.png");
            assert!(message.starts_with("unknown image format: "), "{message}");
            assert!(message.len() > "unknown image format: ".len());
        }
        other => panic!("unexpected {other:?}"),
    }
}

#[test]
fn corrupt_image_is_a_texture_error() {
    let mut bytes = png_2x2();
    bytes.truncate(20);
    match decode_texture("cut.png", &bytes) {
        Err(Error::TextureDecode { path, message }) => {
            assert_eq!(path, "cut.png");
            assert!(!message.starts_with("unknown image format"));
        }
        other => panic!("unexpected {other:?}"),
    }
}

#[test]
fn average_color_of_whole_pixels() {
    assert_eq!(average_rgba_color(&vec![]), [255, 255, 255]);
    assert_eq!(average_rgba_color(&vec![10, 20, 30, 0]), [10, 20, 30]);
    assert_eq!(average_rgba_color(&vec![10, 20, 30, 0, 20, 40, 61, 9, 7]), [15, 30, 45]);
}

#[test]
fn texture_new_precomputes_average() {
    let t = Texture::new("t.png".to_string(), 1, 2, vec![0, 0, 0, 255, 100, 50, 25, 255]);
    assert_eq!(t.average_color, [50, 25, 12]);
    assert_eq!(t.width, 1);
    assert_eq!(t.height, 2);
}

#[test]
fn texture_ref_starts_unloaded() {
    let r = TextureRef::new("a/b.png".to_string());
    assert_eq!(r.path, "a/b.png");
    assert_eq!(r.index, None);
}

#[test]
fn pixels_outside_the_data_are_white() {
    let t = Texture::new("t.png".to_string(), 2, 1, vec![1, 2, 3, 4, 5, 6, 7, 8]);
    assert_eq!(texture_pixel(&t, 1, 0), [5, 6, 7, 8]);
    assert_eq!(texture_pixel(&t, 0, 1), [255, 255, 255, 255]);
    assert_eq!(texture_pixel(&t, u32::MAX, u32::MAX), [255, 255, 255, 255]);
}

#[test]
fn opacity_needs_every_whole_pixel_at_the_cutoff() {
    assert!(Texture::new("a.png".to_string(), 2, 1, vec![0, 0, 0, 16, 9, 9, 9, 255]).is_opaque());
    assert!(!Texture::new("b.png".to_string(), 2, 1, vec![0, 0, 0, 255, 9, 9, 9, 15]).is_opaque());
    assert!(Texture::new("c.png".to_string(), 1, 1, vec![0, 0, 0, 200, 1, 2, 3]).is_opaque());
    assert!(Texture::new("d.png".to_string(), 0, 0, vec![]).is_opaque());
}
