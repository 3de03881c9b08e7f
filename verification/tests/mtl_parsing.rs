use std::path::Path;

use ratatui_3dmesh::loader::mtl::{parse_mtl, parse_texture_path, MtlIssue};
use ratatui_3dmesh::Error;

fn floats(tokens: &[String]) -> Vec<f32> {
    tokens.iter().map(|t| t.parse::<f32>().unwrap()).collect()
}

fn tokens(s: &str) -> Vec<Vec<char>> {
    s.split_whitespace().map(|t| t.chars().collect()).collect()
}

#[test]
fn parses_diffuse_colors() {
    let materials = parse_mtl("inline.mtl", "newmtl red\nKd 1 0.25 0\n").unwrap();
    assert_eq!(materials[0].name, "red");
    assert_eq!(floats(materials[0].diffuse.as_ref().unwrap()), vec![1.0, 0.25, 0.0]);
}

#[test]
fn parses_diffuse_texture_map() {
    let materials = parse_mtl(
        "assets/model.mtl",
        "newmtl skin\nKd 1 1 1\nmap_Kd -s 1 1 texture dir/base color.png\n",
    )
    .unwrap();
    assert_eq!(
        Path::new(&materials[0].diffuse_texture.as_ref().unwrap().path),
        Path::new("assets/texture dir/base color.png")
    );
    assert_eq!(materials[0].texture_file.as_deref(), Some("texture dir/base color.png"));
    assert_eq!(materials[0].diffuse_texture.as_ref().unwrap().index, None);
}

#[test]
fn one_material_per_name_keeping_the_last_definition() {
    let materials = parse_mtl(
        "inline.mtl",
        "newmtl a\nKd 1 0 0\nnewmtl b\nKd 0 0 1\nnewmtl a\nKd 0 1 0\n",
    )
    .unwrap();
    assert_eq!(materials.len(), 2);
    let a = materials.iter().find(|m| m.name == "a").unwrap();
    let b = materials.iter().find(|m| m.name == "b").unwrap();
    assert_eq!(floats(a.diffuse.as_ref().unwrap()), vec![0.0, 1.0, 0.0]);
    assert_eq!(floats(b.diffuse.as_ref().unwrap()), vec![0.0, 0.0, 1.0]);
    assert_eq!(materials[0].name, "a");
}

#[test]
fn statements_before_newmtl_are_ignored() {
    let materials = parse_mtl("inline.mtl", "Kd 1 1 1\nmap_Kd x.png\nnewmtl m\n").unwrap();
    assert_eq!(materials.len(), 1);
    assert_eq!(materials[0].diffuse, None);
    assert_eq!(materials[0].texture_file, None);
}

#[test]
fn rejects_newmtl_without_name() {
    match parse_mtl("inline.mtl", "# header\nnewmtl\n") {
        Err(Error::Parse { line, message, .. }) => {
            assert_eq!(line, Some(2));
            assert_eq!(message, "newmtl requires a material name");
        }
        other => panic!("unexpected {other:?}"),
    }
}

#[test]
fn rejects_bad_diffuse() {
    for text in ["newmtl a\nKd 1 x 0\n", "newmtl a\nKd 1 0\n"] {
        match parse_mtl("inline.mtl", text) {
            Err(Error::Parse { line, message, .. }) => {
                assert_eq!(line, Some(2));
                assert_eq!(message, "Kd requires three float values");
            }
            other => panic!("unexpected {other:?}"),
        }
    }
    assert_eq!(MtlIssue::DiffuseInvalid.message(), "Kd requires three float values");
}

#[test]
fn texture_path_skips_options_and_quotes() {
    assert_eq!(parse_texture_path(&tokens("-s 1 1 1 tex.png"), 0).as_deref(), Some("1 tex.png"));
    assert_eq!(parse_texture_path(&tokens("-bm 0.5 \"my tex.png\""), 0).as_deref(), Some("my tex.png"));
    assert_eq!(parse_texture_path(&tokens("-clamp on"), 0), None);
    assert_eq!(parse_texture_path(&tokens("map_Kd a.png"), 1).as_deref(), Some("a.png"));
}
