use ratatui_3dmesh::loader::stl::{
    looks_like_binary_stl, parse_ascii_stl, parse_binary_stl, parse_stl, StlDocument, StlIssue,
};
use ratatui_3dmesh::Error;

fn binary(count_in_header: u32, triangles: &[[f32; 12]]) -> Vec<u8> {
    let mut bytes = vec![0u8; 80];
    bytes.extend_from_slice(&count_in_header.to_le_bytes());
    for tri in triangles {
        for value in tri {
            bytes.extend_from_slice(&value.to_le_bytes());
        }
        bytes.extend_from_slice(&[0, 0]);
    }
    bytes
}

fn normalized(tokens: &[String]) -> [f32; 3] {
    let v: Vec<f32> = tokens.iter().map(|t| t.parse::<f32>().unwrap()).collect();
    let len = (v[0] * v[0] + v[1] * v[1] + v[2] * v[2]).sqrt();
    [v[0] / len, v[1] / len, v[2] / len]
}

#[test]
fn parses_ascii_stl() {
    let stl = parse_ascii_stl(
        "inline.stl",
        "solid t\nfacet normal 0 0 1\nouter loop\nvertex 0 0 0\nvertex 1 0 0\nvertex 0 1 0\nendloop\nendfacet\nendsolid\n",
    )
    .unwrap();
    let vertex_count: usize = stl.facets.iter().map(|f| f.vertices.len()).sum();
    assert_eq!(vertex_count, 3);
    assert_eq!(stl.facets.len(), 1);
    assert_eq!(normalized(stl.facets[0].normal.as_ref().unwrap()), [0.0, 0.0, 1.0]);
}

#[test]
fn ascii_facet_needs_three_vertices() {
    match parse_ascii_stl("inline.stl", "facet normal 0 0 1\nvertex 0 0 0\nvertex 1 0 0\nendfacet\n") {
        Err(Error::Parse { line, message, .. }) => {
            assert_eq!(line, Some(4));
            assert_eq!(message, "facet must contain exactly three vertices");
        }
        other => panic!("unexpected {other:?}"),
    }
    assert_eq!(StlIssue::FacetVertexCount.message(), "facet must contain exactly three vertices");
}

#[test]
fn ascii_rejects_bad_float() {
    match parse_ascii_stl("inline.stl", "facet normal 0 0 1\nvertex 0 zero 0\n") {
        Err(Error::Parse { line, message, .. }) => {
            assert_eq!(line, Some(2));
            assert_eq!(message, "expected a float");
        }
        other => panic!("unexpected {other:?}"),
    }
}

#[test]
fn ascii_without_facets_is_empty() {
    assert!(matches!(parse_ascii_stl("inline.stl", "solid empty\nendsolid\n"), Err(Error::EmptyMesh)));
}

#[test]
fn parses_binary_stl_bit_patterns() {
    let tri = [0.0, 0.0, 1.0, 0.0, 0.0, 0.0, 1.0, 0.0, 0.0, 0.0, 1.0, 0.0];
    let bytes = binary(1, &[tri]);
    assert_eq!(bytes.len(), 134);
    assert!(looks_like_binary_stl(&bytes));
    match parse_stl("model.stl", &bytes).unwrap() {
        StlDocument::Binary(stl) => {
            assert_eq!(stl.triangles.len(), 1);
            let t = stl.triangles[0];
            assert_eq!(f32::from_bits(t.normal.z), 1.0);
            assert_eq!(f32::from_bits(t.b.x), 1.0);
            assert_eq!(f32::from_bits(t.c.y), 1.0);
            assert_eq!(f32::from_bits(t.a.x), 0.0);
        }
        other => panic!("unexpected {other:?}"),
    }
}

#[test]
fn binary_errors() {
    match parse_binary_stl("short.stl", &[0u8; 10]) {
        Err(Error::InvalidBinaryStl { path, message }) => {
            assert_eq!(path, "short.stl");
            assert_eq!(message, "file is shorter than STL header");
        }
        other => panic!("unexpected {other:?}"),
    }
    let tri = [0.0f32; 12];
    match parse_binary_stl("cut.stl", &binary(2, &[tri])) {
        Err(Error::InvalidBinaryStl { message, .. }) => {
            assert_eq!(message, "triangle data is truncated")
        }
        other => panic!("unexpected {other:?}"),
    }
    assert!(matches!(parse_binary_stl("none.stl", &binary(0, &[])), Err(Error::EmptyMesh)));
}

#[test]
fn binary_detection_needs_exact_length() {
    let tri = [0.0f32; 12];
    let mut bytes = binary(1, &[tri]);
    assert!(looks_like_binary_stl(&bytes));
    bytes.push(0);
    assert!(!looks_like_binary_stl(&bytes));
    assert!(!looks_like_binary_stl(&[0u8; 83]));
}

#[test]
fn non_binary_non_utf8_is_a_parse_error() {
    match parse_stl("bad.stl", &[0xff, 0xfe, 0x00]) {
        Err(Error::Parse { line, message, .. }) => {
            assert_eq!(line, None);
            assert_eq!(message, "STL is neither valid UTF-8 ASCII nor valid binary");
        }
        other => panic!("unexpected {other:?}"),
    }
}

#[test]
fn ascii_through_parse_stl() {
    let text = "solid t\nfacet normal 0 0 2\nvertex 0 0 0\nvertex 1 0 0\nvertex 0 1 0\nendfacet\n";
    match parse_stl("t.stl", text.as_bytes()).unwrap() {
        StlDocument::Ascii(stl) => {
            assert_eq!(stl.facets[0].vertices[1], vec!["1", "0", "0"]);
            assert_eq!(normalized(stl.facets[0].normal.as_ref().unwrap()), [0.0, 0.0, 1.0]);
        }
        other => panic!("unexpected {other:?}"),
    }
}
