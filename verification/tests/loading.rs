use ratatui_3dmesh::loader::paths::{base_dir, dir_or_current};
use ratatui_3dmesh::loader::{attach_loaded_texture, format_for_extension, mesh_format, MeshFormat, MeshLoadOptions};
use ratatui_3dmesh::model::Texture;
use ratatui_3dmesh::Error;

fn texture(name: &str) -> Texture {
    Texture::new(name.to_string(), 1, 1, vec![1, 2, 3, 4])
}

#[test]
fn load_options_builders() {
    let o = MeshLoadOptions::default();
    assert_eq!(o.texture_override, None);
    assert!(!o.load_material_textures);
    assert!(!o.strict_textures);
    let o = o.texture_override("t.png".to_string()).load_material_textures(true).strict_textures(true);
    assert_eq!(o.texture_override.as_deref(), Some("t.png"));
    assert!(o.load_material_textures);
    assert!(o.strict_textures);
}

#[test]
fn formats_by_extension_in_any_case() {
    assert!(matches!(mesh_format("models/a.obj"), Ok(MeshFormat::Obj)));
    assert!(matches!(mesh_format("A.OBJ"), Ok(MeshFormat::Obj)));
    assert!(matches!(mesh_format("scene.GlTf"), Ok(MeshFormat::Gltf)));
    assert!(matches!(mesh_format("scene.glb"), Ok(MeshFormat::Gltf)));
    assert!(matches!(mesh_format("part.Stl"), Ok(MeshFormat::Stl)));
}

#[test]
fn format_comes_from_the_file_name_alone() {
    assert!(matches!(mesh_format("archive.v2/model.tar.STL"), Ok(MeshFormat::Stl)));
    for path in [".obj", "models.obj/readme", "models/.glb", "scene."] {
        assert!(matches!(mesh_format(path), Err(Error::UnsupportedFormat { .. })), "{path}");
    }
}

#[test]
fn unsupported_formats_name_the_path() {
    for path in ["notes.txt", "noextension", "archive.obj.zip"] {
        match mesh_format(path) {
            Err(Error::UnsupportedFormat { path: p }) => assert_eq!(p, path),
            other => panic!("unexpected {other:?}"),
        }
    }
    assert!(matches!(format_for_extension("x", None), Err(Error::UnsupportedFormat { .. })));
    assert!(matches!(format_for_extension("x", Some("OBJ".to_string())), Ok(MeshFormat::Obj)));
    assert!(matches!(format_for_extension("x", Some("objx".to_string())), Err(_)));
}

#[test]
fn loaded_textures_are_appended_with_their_index() {
    let mut textures = vec![texture("a")];
    assert_eq!(attach_loaded_texture(&mut textures, Ok(texture("b")), false).unwrap(), Some(1));
    assert_eq!(textures.len(), 2);
    assert_eq!(textures[1].path, "b");
}

#[test]
fn failed_textures_are_skipped_unless_strict() {
    let mut textures = vec![texture("a")];
    let failure = || Error::TextureDecode { path: "x.png".to_string(), message: "bad".to_string() };
    assert_eq!(attach_loaded_texture(&mut textures, Err(failure()), false).unwrap(), None);
    match attach_loaded_texture(&mut textures, Err(failure()), true) {
        Err(Error::TextureDecode { path, .. }) => assert_eq!(path, "x.png"),
        other => panic!("unexpected {other:?}"),
    }
    assert_eq!(textures.len(), 1);
}

#[test]
fn error_constructors_keep_their_fields() {
    let io = std::io::Error::new(std::io::ErrorKind::NotFound, "gone");
    match Error::io("a.obj".to_string(), io) {
        Error::Io { path, source } => {
            assert_eq!(path, "a.obj");
            assert_eq!(source.kind(), std::io::ErrorKind::NotFound);
        }
        other => panic!("unexpected {other:?}"),
    }
    match Error::parse("a.mtl", Some(3), "bad".to_string()) {
        Error::Parse { path, line, message } => assert_eq!((path.as_str(), line, message.as_str()), ("a.mtl", Some(3), "bad")),
        other => panic!("unexpected {other:?}"),
    }
    match Error::texture_decode("t.png", "no".to_string()) {
        Error::TextureDecode { path, message } => assert_eq!((path.as_str(), message.as_str()), ("t.png", "no")),
        other => panic!("unexpected {other:?}"),
    }
}

#[test]
fn directories_of_paths() {
    assert_eq!(base_dir(""), ".");
    assert_eq!(std::path::Path::new(&base_dir("assets/model.mtl")), std::path::Path::new("assets"));
    assert_eq!(base_dir("model.mtl"), "");
    assert_eq!(base_dir("/model.mtl"), "/");
    assert_eq!(base_dir("a/b/c.mtl"), "a/b");
    assert_eq!(dir_or_current(None), ".");
    assert_eq!(dir_or_current(Some("x/y".to_string())), "x/y");
}
