use ratatui_3dmesh::loader::obj::{
    obj_index_to_zero_based, parse_face_token, parse_obj, parse_obj_document, parse_obj_index,
    require_mesh, FaceCorner, IndexKind,
    ObjIssue,
};
use ratatui_3dmesh::Error;

fn chars(s: &str) -> Vec<char> {
    s.chars().collect()
}

fn parse_error(text: &str) -> (Option<usize>, String) {
    match parse_obj("inline.obj", text) {
        Err(Error::Parse { path, line, message }) => {
            assert_eq!(path, "inline.obj");
            (line, message)
        }
        other => panic!("expected a parse error, got {other:?}"),
    }
}

#[test]
fn parses_obj_faces_and_materials() {
    let doc = parse_obj("inline.obj", "v 0 0 0\nv 1 0 0\nv 0 1 0\nusemtl red\nf 1 2 3\n").unwrap();
    assert_eq!(doc.vertices.len(), 3);
    assert_eq!(doc.faces.len(), 1);
    assert_eq!(doc.faces[0].material.as_deref(), Some("red"));
}

#[test]
fn supports_negative_indices() {
    let doc = parse_obj("inline.obj", "v 0 0 0\nv 1 0 0\nv 0 1 0\nf -3 -2 -1\n").unwrap();
    assert_eq!(doc.faces[0].indices, vec![0, 1, 2]);
}

#[test]
fn parses_uv_and_normal_face_indices() {
    let doc = parse_obj(
        "inline.obj",
        "v 0 0 0\nv 1 0 0\nv 0 1 0\nvt 0 0\nvt 1 0\nvt 0 1\nvn 0 0 1\nf 1/1/1 2/2/1 3/3/1\n",
    )
    .unwrap();
    assert_eq!(doc.tex_coords.len(), 3);
    assert_eq!(doc.normals.len(), 1);
    assert_eq!(doc.faces[0].tex_coord_indices, vec![Some(0), Some(1), Some(2)]);
    assert_eq!(doc.faces[0].normal_indices, vec![Some(0), Some(0), Some(0)]);
}

#[test]
fn parses_face_forms() {
    let doc = parse_obj(
        "inline.obj",
        "v 0 0 0\nv 1 0 0\nv 0 1 0\nvt 0 0\nvt 1 0\nvt 0 1\nvn 0 0 1\nf 1/1 2//1 3/3/1\n",
    )
    .unwrap();
    assert_eq!(doc.faces[0].tex_coord_indices, vec![Some(0), None, Some(2)]);
    assert_eq!(doc.faces[0].normal_indices, vec![None, Some(0), Some(0)]);
}

#[test]
fn keeps_coordinate_tokens_and_ignores_comments() {
    let doc = parse_obj(
        "inline.obj",
        "# a comment\n\nv 1.5 -2 3e1 # trailing\nv 0 0 0\nv 1 1 1\nvt 0.25 0.75 0.5\nvn 0 0 2\nf 1 2 3\n",
    )
    .unwrap();
    assert_eq!(doc.vertices[0], vec!["1.5", "-2", "3e1"]);
    assert_eq!(doc.tex_coords[0], vec!["0.25", "0.75"]);
    assert_eq!(doc.normals[0], vec!["0", "0", "2"]);
    assert_eq!(doc.faces[0].material, None);
}

#[test]
fn first_corner_normal_becomes_face_normal() {
    let doc = parse_obj(
        "inline.obj",
        "v 0 0 0\nv 1 0 0\nv 0 1 0\nvn 1 0 0\nvn 0 1 0\nf 1 2//2 3//1\n",
    )
    .unwrap();
    assert_eq!(doc.faces[0].normal_index, Some(1));
}

#[test]
fn polygons_keep_all_corners() {
    let doc = parse_obj("inline.obj", "v 0 0 0\nv 1 0 0\nv 1 1 0\nv 0 1 0\nf 1 2 3 4\n").unwrap();
    assert_eq!(doc.faces[0].indices, vec![0, 1, 2, 3]);
}

#[test]
fn usemtl_and_mtllib_are_recorded() {
    let doc = parse_obj(
        "inline.obj",
        "mtllib a.mtl b.mtl\nv 0 0 0\nv 1 0 0\nv 0 1 0\nusemtl dark red\nf 1 2 3\nusemtl\nf 1 2 3\n",
    )
    .unwrap();
    assert_eq!(doc.mtllibs, vec!["a.mtl", "b.mtl"]);
    assert_eq!(doc.faces[0].material.as_deref(), Some("dark red"));
    assert_eq!(doc.faces[1].material, None);
}

#[test]
fn empty_text_is_an_empty_mesh() {
    assert!(matches!(parse_obj("inline.obj", ""), Err(Error::EmptyMesh)));
}

#[test]
fn vertices_without_faces_are_an_empty_mesh() {
    assert!(matches!(parse_obj("inline.obj", "v 0 0 0\nv 1 0 0\nv 0 1 0\n# no faces\n"), Err(Error::EmptyMesh)));
}

#[test]
fn bad_face_is_reported_before_emptiness() {
    assert_eq!(parse_error("f 1 2 3\n"), (Some(1), "face vertex index is out of range".to_string()));
}

#[test]
fn rejects_short_vertex() {
    assert_eq!(parse_error("v 0 0\n"), (Some(1), "vertex requires x y z".to_string()));
}

#[test]
fn rejects_non_numeric_vertex() {
    assert_eq!(
        parse_error("v 0 0 0\nv x 0 0\n"),
        (Some(2), "vertex requires numeric coordinates".to_string())
    );
}

#[test]
fn rejects_short_and_non_numeric_attributes() {
    assert_eq!(parse_error("vt 1\n"), (Some(1), "texture coordinate requires u v".to_string()));
    assert_eq!(
        parse_error("vt a b\n"),
        (Some(1), "texture coordinate requires numeric values".to_string())
    );
    assert_eq!(parse_error("vn 0 1\n"), (Some(1), "normal requires x y z".to_string()));
    assert_eq!(
        parse_error("vn 0 one 2\n"),
        (Some(1), "normal requires numeric coordinates".to_string())
    );
}

#[test]
fn rejects_bad_faces() {
    let verts = "v 0 0 0\nv 1 0 0\nv 0 1 0\n";
    assert_eq!(
        parse_error(&format!("{verts}f 1 2\n")),
        (Some(4), "face requires at least three vertices".to_string())
    );
    assert_eq!(
        parse_error(&format!("{verts}f 1 2 4\n")),
        (Some(4), "face vertex index is out of range".to_string())
    );
    assert_eq!(
        parse_error(&format!("{verts}f 1 2 x\n")),
        (Some(4), "face vertex index is invalid".to_string())
    );
    assert_eq!(
        parse_error(&format!("{verts}f 1/1 2 3\n")),
        (Some(4), "face texture index is out of range".to_string())
    );
    assert_eq!(
        parse_error(&format!("{verts}f 1//q 2 3\n")),
        (Some(4), "face normal index is invalid".to_string())
    );
    assert_eq!(
        parse_error(&format!("{verts}f /1 2 3\n")),
        (Some(4), "face contains an empty vertex index".to_string())
    );
    assert_eq!(
        parse_error(&format!("{verts}f 0 1 2\n")),
        (Some(4), "face vertex index is out of range".to_string())
    );
}

#[test]
fn converts_obj_indices() {
    assert_eq!(obj_index_to_zero_based(1, 3), Some(0));
    assert_eq!(obj_index_to_zero_based(3, 3), Some(2));
    assert_eq!(obj_index_to_zero_based(4, 3), None);
    assert_eq!(obj_index_to_zero_based(0, 3), None);
    assert_eq!(obj_index_to_zero_based(-1, 3), Some(2));
    assert_eq!(obj_index_to_zero_based(-3, 3), Some(0));
    assert_eq!(obj_index_to_zero_based(-4, 3), None);
}

#[test]
fn negative_index_counts_back_from_the_end() {
    for count in 1..6usize {
        for k in 1..=count {
            let negative = obj_index_to_zero_based(-(k as isize), count);
            let positive = obj_index_to_zero_based((count - k + 1) as isize, count);
            assert_eq!(negative, positive);
            assert_eq!(negative, Some(count - k));
        }
    }
}

#[test]
fn parses_index_fields_and_corners() {
    let tok = chars("12");
    assert_eq!(parse_obj_index(&tok, 0, 2, 20, IndexKind::Vertex), Ok(Some(11)));
    assert_eq!(parse_obj_index(&tok, 0, 0, 20, IndexKind::Vertex), Ok(None));
    assert_eq!(
        parse_obj_index(&tok, 0, 2, 5, IndexKind::Normal),
        Err(ObjIssue::IndexOutOfRange(IndexKind::Normal))
    );
    assert_eq!(
        parse_face_token(&chars("2/-1/3"), 3, 4, 5),
        Ok(FaceCorner { vertex: 1, tex_coord: Some(3), normal: Some(2) })
    );
    assert_eq!(
        parse_face_token(&chars("2//"), 3, 4, 5),
        Ok(FaceCorner { vertex: 1, tex_coord: None, normal: None })
    );
    assert_eq!(parse_face_token(&chars(""), 3, 4, 5), Err(ObjIssue::EmptyVertexIndex));
}

#[test]
fn issue_messages() {
    assert_eq!(ObjIssue::FaceTooShort.message(), "face requires at least three vertices");
    assert_eq!(
        ObjIssue::IndexInvalid(IndexKind::TexCoord).message(),
        "face texture index is invalid"
    );
}

#[test]
fn parsed_face_indices_stay_in_range() {
    let doc = parse_obj(
        "inline.obj",
        "v 0 0 0\nv 1 0 0\nv 0 1 0\nvt 0 0\nvn 0 0 1\nf -1 -2/1/-1 1//1\nv 2 2 2\nf 4 -1 1/-1\n",
    )
    .unwrap();
    for face in &doc.faces {
        assert!(face.indices.len() >= 3);
        assert_eq!(face.tex_coord_indices.len(), face.indices.len());
        assert_eq!(face.normal_indices.len(), face.indices.len());
        assert!(face.indices.iter().all(|&i| i < doc.vertices.len()));
        assert!(face.tex_coord_indices.iter().flatten().all(|&i| i < doc.tex_coords.len()));
        assert!(face.normal_indices.iter().flatten().all(|&i| i < doc.normals.len()));
    }
}

#[test]
fn a_document_is_judged_a_mesh_after_its_libraries() {
    let doc = parse_obj_document("inline.obj", "mtllib a.mtl\nv 0 0 0\n").unwrap();
    assert_eq!(doc.mtllibs, vec!["a.mtl"]);
    assert_eq!(doc.vertices.len(), 1);
    assert!(matches!(require_mesh(doc), Err(Error::EmptyMesh)));
    let doc = parse_obj_document("inline.obj", "v 0 0 0\nv 1 0 0\nv 0 1 0\nf 1 2 3\n").unwrap();
    let kept = require_mesh(doc).unwrap();
    assert_eq!(kept.faces.len(), 1);
    assert!(matches!(parse_obj_document("inline.obj", "v 0 0\n"), Err(Error::Parse { line: Some(1), .. })));
}
