//! Wavefront OBJ text parsing.
//!
//! The parser reads vertices (`v`), texture coordinates (`vt`), normals (`vn`),
//! polygon faces (`f`) with positive or negative 1-based indices, `usemtl` and
//! `mtllib`. Coordinates are kept as validated float tokens; turning them into
//! numbers is left to the caller.

use vstd::prelude::*;

use crate::error::{is_parse_error, Error};
use crate::text::{
    chars_view, comment_line_tokens, find_char, is_float_literal, join_space, lemma_split_on_nonempty,
    lemma_split_on_unfold, lines_of, parse_isize_chars, parse_isize_spec, split_on, strings_view,
    lemma_split_from, lemma_line_tokens, first_index, is_float_token, all_floats, all_float_tokens, token_strings, tokens_between, chars_of, ws_tokens, before_hash, string_of, chars_eq_str, join_tokens,
};

verus! {

/// Which attribute a face corner index refers to.
#[derive(Debug, Clone, Copy, PartialEq, Eq)]
pub enum IndexKind {
    /// Vertex position index.
    Vertex,
    /// Texture coordinate index.
    TexCoord,
    /// Normal index.
    Normal,
}

/// Why an OBJ line is rejected.
#[derive(Debug, Clone, Copy, PartialEq, Eq)]
pub enum ObjIssue {
    /// A `v` line holds a token that is not a number.
    VertexNotNumeric,
    /// A `v` line holds fewer than three numbers.
    VertexTooShort,
    /// A `vt` line holds a token that is not a number.
    TexCoordNotNumeric,
    /// A `vt` line holds fewer than two numbers.
    TexCoordTooShort,
    /// A `vn` line holds a token that is not a number.
    NormalNotNumeric,
    /// A `vn` line holds fewer than three numbers.
    NormalTooShort,
    /// A face index is not an integer.
    IndexInvalid(IndexKind),
    /// A face index is zero or points past the attributes read so far.
    IndexOutOfRange(IndexKind),
    /// A face corner has no vertex index.
    EmptyVertexIndex,
    /// A face has fewer than three corners.
    FaceTooShort,
}

/// The message reported for an issue.
pub open spec fn issue_message(issue: ObjIssue) -> Seq<char> {
    match issue {
        ObjIssue::VertexNotNumeric => "vertex requires numeric coordinates"@,
        ObjIssue::VertexTooShort => "vertex requires x y z"@,
        ObjIssue::TexCoordNotNumeric => "texture coordinate requires numeric values"@,
        ObjIssue::TexCoordTooShort => "texture coordinate requires u v"@,
        ObjIssue::NormalNotNumeric => "normal requires numeric coordinates"@,
        ObjIssue::NormalTooShort => "normal requires x y z"@,
        ObjIssue::IndexInvalid(IndexKind::Vertex) => "face vertex index is invalid"@,
        ObjIssue::IndexInvalid(IndexKind::TexCoord) => "face texture index is invalid"@,
        ObjIssue::IndexInvalid(IndexKind::Normal) => "face normal index is invalid"@,
        ObjIssue::IndexOutOfRange(IndexKind::Vertex) => "face vertex index is out of range"@,
        ObjIssue::IndexOutOfRange(IndexKind::TexCoord) => "face texture index is out of range"@,
        ObjIssue::IndexOutOfRange(IndexKind::Normal) => "face normal index is out of range"@,
        ObjIssue::EmptyVertexIndex => "face contains an empty vertex index"@,
        ObjIssue::FaceTooShort => "face requires at least three vertices"@,
    }
}

impl ObjIssue {
    /// The message reported for this issue.
    pub fn message(self) -> (s: String)
        ensures
            s@ == issue_message(self),
    {
        let text = match self {
            ObjIssue::VertexNotNumeric => "vertex requires numeric coordinates",
            ObjIssue::VertexTooShort => "vertex requires x y z",
            ObjIssue::TexCoordNotNumeric => "texture coordinate requires numeric values",
            ObjIssue::TexCoordTooShort => "texture coordinate requires u v",
            ObjIssue::NormalNotNumeric => "normal requires numeric coordinates",
            ObjIssue::NormalTooShort => "normal requires x y z",
            ObjIssue::IndexInvalid(IndexKind::Vertex) => "face vertex index is invalid",
            ObjIssue::IndexInvalid(IndexKind::TexCoord) => "face texture index is invalid",
            ObjIssue::IndexInvalid(IndexKind::Normal) => "face normal index is invalid",
            ObjIssue::IndexOutOfRange(IndexKind::Vertex) => "face vertex index is out of range",
            ObjIssue::IndexOutOfRange(IndexKind::TexCoord) => "face texture index is out of range",
            ObjIssue::IndexOutOfRange(IndexKind::Normal) => "face normal index is out of range",
            ObjIssue::EmptyVertexIndex => "face contains an empty vertex index",
            ObjIssue::FaceTooShort => "face requires at least three vertices",
        };
        text.to_owned()
    }
}

/// One parsed face corner: 0-based vertex index and optional attribute indices.
#[derive(Debug, Clone, Copy, PartialEq, Eq)]
pub struct FaceCorner {
    /// Vertex position index.
    pub vertex: usize,
    /// Texture coordinate index.
    pub tex_coord: Option<usize>,
    /// Normal index.
    pub normal: Option<usize>,
}

/// A face of an OBJ document.
#[derive(Debug, Clone, PartialEq, Eq)]
pub struct ObjFace {
    /// 0-based vertex indices, one per corner.
    pub indices: Vec<usize>,
    /// Texture coordinate indices aligned with `indices`.
    pub tex_coord_indices: Vec<Option<usize>>,
    /// Normal indices aligned with `indices`.
    pub normal_indices: Vec<Option<usize>>,
    /// Material selected by the last non-empty `usemtl` before the face.
    pub material: Option<String>,
    /// The first normal index among the corners, used as the face normal.
    pub normal_index: Option<usize>,
}

/// A parsed OBJ document. Number tokens are kept as written; each of them is a
/// literal that `f32::from_str` accepts.
#[derive(Debug, Clone, PartialEq, Eq)]
pub struct ObjDocument {
    /// Vertex positions: three number tokens each.
    pub vertices: Vec<Vec<String>>,
    /// Texture coordinates: two number tokens each.
    pub tex_coords: Vec<Vec<String>>,
    /// Normals: three number tokens each (not yet normalized).
    pub normals: Vec<Vec<String>>,
    /// Polygon faces.
    pub faces: Vec<ObjFace>,
    /// Material library file names from `mtllib`, in order.
    pub mtllibs: Vec<String>,
}

/// Abstract face.
#[verifier::ext_equal]
pub struct FaceModel {
    pub indices: Seq<usize>,
    pub tex_coords: Seq<Option<usize>>,
    pub normals: Seq<Option<usize>>,
    pub material: Option<Seq<char>>,
    pub normal: Option<usize>,
}

/// Abstract parser state: the document so far and the active material.
#[verifier::ext_equal]
pub struct ObjModel {
    pub vertices: Seq<Seq<Seq<char>>>,
    pub tex_coords: Seq<Seq<Seq<char>>>,
    pub normals: Seq<Seq<Seq<char>>>,
    pub faces: Seq<FaceModel>,
    pub material: Option<Seq<char>>,
    pub mtllibs: Seq<Seq<char>>,
}

pub open spec fn opt_string_view(o: Option<String>) -> Option<Seq<char>> {
    match o {
        Some(s) => Some(s@),
        None => None,
    }
}

pub open spec fn tuples_view(v: Seq<Vec<String>>) -> Seq<Seq<Seq<char>>> {
    Seq::new(v.len(), |i: int| strings_view(v[i]@))
}

pub open spec fn face_view(f: ObjFace) -> FaceModel {
    FaceModel {
        indices: f.indices@,
        tex_coords: f.tex_coord_indices@,
        normals: f.normal_indices@,
        material: opt_string_view(f.material),
        normal: f.normal_index,
    }
}

/// The abstract state held by a document and an active material.
pub open spec fn obj_model(doc: ObjDocument, material: Option<String>) -> ObjModel {
    ObjModel {
        vertices: tuples_view(doc.vertices@),
        tex_coords: tuples_view(doc.tex_coords@),
        normals: tuples_view(doc.normals@),
        faces: Seq::new(doc.faces@.len(), |i: int| face_view(doc.faces@[i])),
        material: opt_string_view(material),
        mtllibs: strings_view(doc.mtllibs@),
    }
}

/// The first present entry.
pub open spec fn first_some(s: Seq<Option<usize>>) -> Option<usize>
    decreases s.len(),
{
    if s.len() == 0 {
        None
    } else if s[0] is Some {
        s[0]
    } else {
        first_some(s.drop_first())
    }
}

/// Conversion of a 1-based OBJ index (negative: relative to the end) into a
/// 0-based index among `count` attributes.
pub open spec fn obj_index_spec(index: int, count: int) -> Option<usize> {
    if index > 0 {
        if index - 1 < count {
            Some((index - 1) as usize)
        } else {
            None
        }
    } else if index < 0 {
        if count <= isize::MAX && count + index >= 0 {
            Some((count + index) as usize)
        } else {
            None
        }
    } else {
        None
    }
}

/// One `/`-separated index field of a face corner.
pub open spec fn index_field_spec(text: Seq<char>, count: int, kind: IndexKind) -> Result<
    Option<usize>,
    ObjIssue,
> {
    if text.len() == 0 {
        Ok(None)
    } else {
        match parse_isize_spec(text) {
            None => Err(ObjIssue::IndexInvalid(kind)),
            Some(v) => match obj_index_spec(v, count) {
                None => Err(ObjIssue::IndexOutOfRange(kind)),
                Some(i) => Ok(Some(i)),
            },
        }
    }
}

/// A face corner token `v`, `v/vt`, `v//vn` or `v/vt/vn`.
pub open spec fn corner_spec(tok: Seq<char>, vc: int, tc: int, nc: int) -> Result<
    FaceCorner,
    ObjIssue,
> {
    let parts = split_on(tok, '/');
    match index_field_spec(parts[0], vc, IndexKind::Vertex) {
        Err(e) => Err(e),
        Ok(None) => Err(ObjIssue::EmptyVertexIndex),
        Ok(Some(v)) => {
            let tex = if parts.len() > 1 {
                index_field_spec(parts[1], tc, IndexKind::TexCoord)
            } else {
                Ok(None)
            };
            match tex {
                Err(e) => Err(e),
                Ok(t) => {
                    let nrm = if parts.len() > 2 {
                        index_field_spec(parts[2], nc, IndexKind::Normal)
                    } else {
                        Ok(None)
                    };
                    match nrm {
                        Err(e) => Err(e),
                        Ok(n) => Ok(FaceCorner { vertex: v, tex_coord: t, normal: n }),
                    }
                },
            }
        },
    }
}

/// All corners of a face, or the issue of the first bad one.
pub open spec fn corners_spec(toks: Seq<Seq<char>>, vc: int, tc: int, nc: int) -> Result<
    Seq<FaceCorner>,
    ObjIssue,
>
    decreases toks.len(),
{
    if toks.len() == 0 {
        Ok(seq![])
    } else {
        match corner_spec(toks[0], vc, tc, nc) {
            Err(e) => Err(e),
            Ok(c) => match corners_spec(toks.drop_first(), vc, tc, nc) {
                Err(e) => Err(e),
                Ok(cs) => Ok(seq![c] + cs),
            },
        }
    }
}

pub open spec fn face_model(cs: Seq<FaceCorner>, material: Option<Seq<char>>) -> FaceModel {
    let normals = Seq::new(cs.len(), |i: int| cs[i].normal);
    FaceModel {
        indices: Seq::new(cs.len(), |i: int| cs[i].vertex),
        tex_coords: Seq::new(cs.len(), |i: int| cs[i].tex_coord),
        normals,
        material,
        normal: first_some(normals),
    }
}

/// The effect of one line, given its tokens.
pub open spec fn obj_line(st: ObjModel, toks: Seq<Seq<char>>) -> Result<ObjModel, ObjIssue> {
    if toks.len() == 0 {
        Ok(st)
    } else {
        let kw = toks[0];
        let args = toks.drop_first();
        if kw == "v"@ {
            if !all_floats(args) {
                Err(ObjIssue::VertexNotNumeric)
            } else if args.len() < 3 {
                Err(ObjIssue::VertexTooShort)
            } else {
                Ok(ObjModel { vertices: st.vertices.push(args.take(3)), ..st })
            }
        } else if kw == "vt"@ {
            if !all_floats(args) {
                Err(ObjIssue::TexCoordNotNumeric)
            } else if args.len() < 2 {
                Err(ObjIssue::TexCoordTooShort)
            } else {
                Ok(ObjModel { tex_coords: st.tex_coords.push(args.take(2)), ..st })
            }
        } else if kw == "vn"@ {
            if !all_floats(args) {
                Err(ObjIssue::NormalNotNumeric)
            } else if args.len() < 3 {
                Err(ObjIssue::NormalTooShort)
            } else {
                Ok(ObjModel { normals: st.normals.push(args.take(3)), ..st })
            }
        } else if kw == "f"@ {
            match corners_spec(
                args,
                st.vertices.len() as int,
                st.tex_coords.len() as int,
                st.normals.len() as int,
            ) {
                Err(e) => Err(e),
                Ok(cs) => if cs.len() < 3 {
                    Err(ObjIssue::FaceTooShort)
                } else {
                    Ok(ObjModel { faces: st.faces.push(face_model(cs, st.material)), ..st })
                },
            }
        } else if kw == "usemtl"@ {
            let name = join_space(args);
            Ok(
                ObjModel {
                    material: if name.len() == 0 {
                        None
                    } else {
                        Some(name)
                    },
                    ..st
                },
            )
        } else if kw == "mtllib"@ {
            Ok(ObjModel { mtllibs: st.mtllibs + args, ..st })
        } else {
            Ok(st)
        }
    }
}

/// Lines processed in order; the first failing line stops the run with its
/// 1-based number.
pub open spec fn obj_run(st: ObjModel, lines: Seq<Seq<char>>, line: int) -> Result<
    ObjModel,
    (int, ObjIssue),
>
    decreases lines.len(),
{
    if lines.len() == 0 {
        Ok(st)
    } else {
        match obj_line(st, comment_line_tokens(lines[0])) {
            Err(e) => Err((line, e)),
            Ok(next) => obj_run(next, lines.drop_first(), line + 1),
        }
    }
}

pub open spec fn obj_start() -> ObjModel {
    ObjModel {
        vertices: seq![],
        tex_coords: seq![],
        normals: seq![],
        faces: seq![],
        material: None,
        mtllibs: seq![],
    }
}

/// The OBJ reading of a whole text: every line, numbered from 1.
pub open spec fn parse_obj_spec(text: Seq<char>) -> Result<ObjModel, (int, ObjIssue)> {
    obj_run(obj_start(), lines_of(text), 1)
}

/// Convert a 1-based OBJ index, negative meaning relative to the end, into a
/// 0-based index among `count` attributes.
pub fn obj_index_to_zero_based(index: isize, count: usize) -> (r: Option<usize>)
    ensures
        r == obj_index_spec(index as int, count as int),
{
    if index > 0 {
        let idx = (index - 1) as usize;
        if idx < count {
            Some(idx)
        } else {
            None
        }
    } else if index < 0 {
        if count > isize::MAX as usize {
            None
        } else {
            let c = count as isize;
            let sum = c + index;
            if sum >= 0 {
                Some(sum as usize)
            } else {
                None
            }
        }
    } else {
        None
    }
}

/// Parse one index field `tok[from..to]` of a face corner.
pub fn parse_obj_index(tok: &Vec<char>, from: usize, to: usize, count: usize, kind: IndexKind) -> (r:
    Result<Option<usize>, ObjIssue>)
    requires
        from <= to <= tok.len(),
    ensures
        r == index_field_spec(tok@.subrange(from as int, to as int), count as int, kind),
{
    if from == to {
        return Ok(None);
    }
    match parse_isize_chars(tok, from, to) {
        None => Err(ObjIssue::IndexInvalid(kind)),
        Some(raw) => match obj_index_to_zero_based(raw, count) {
            None => Err(ObjIssue::IndexOutOfRange(kind)),
            Some(i) => Ok(Some(i)),
        },
    }
}

/// Parse a face corner token (`v`, `v/vt`, `v//vn` or `v/vt/vn`) against the
/// numbers of vertices, texture coordinates and normals read so far.
pub fn parse_face_token(tok: &Vec<char>, vc: usize, tc: usize, nc: usize) -> (r: Result<
    FaceCorner,
    ObjIssue,
>)
    ensures
        r == corner_spec(tok@, vc as int, tc as int, nc as int),
{
    let n = tok.len();
    let ghost parts = split_on(tok@, '/');
    proof {
        assert(tok@.subrange(0, n as int) =~= tok@);
    }
    let p1 = find_char(tok, 0, n, '/');
    proof {
        lemma_split_from(tok@, '/', 0, p1 as int);
    }
    let vertex = match parse_obj_index(tok, 0, p1, vc, IndexKind::Vertex) {
        Err(e) => return Err(e),
        Ok(None) => return Err(ObjIssue::EmptyVertexIndex),
        Ok(Some(v)) => v,
    };
    if p1 == n {
        return Ok(FaceCorner { vertex, tex_coord: None, normal: None });
    }
    let p2 = find_char(tok, p1 + 1, n, '/');
    proof {
        lemma_split_from(tok@, '/', p1 + 1, p2 as int);
        assert(parts[1] == parts.drop_first()[0]);
    }
    let tex_coord = match parse_obj_index(tok, p1 + 1, p2, tc, IndexKind::TexCoord) {
        Err(e) => return Err(e),
        Ok(t) => t,
    };
    if p2 == n {
        return Ok(FaceCorner { vertex, tex_coord, normal: None });
    }
    let p3 = find_char(tok, p2 + 1, n, '/');
    proof {
        lemma_split_from(tok@, '/', p2 + 1, p3 as int);
        assert(parts[2] == parts.drop_first().drop_first()[0]);
    }
    let normal = match parse_obj_index(tok, p2 + 1, p3, nc, IndexKind::Normal) {
        Err(e) => return Err(e),
        Ok(n) => n,
    };
    Ok(FaceCorner { vertex, tex_coord, normal })
}


/// Corners of all face tokens `toks[1..]`, or the issue of the first bad one.
fn parse_face_corners(toks: &Vec<Vec<char>>, vc: usize, tc: usize, nc: usize) -> (r: Result<
    Vec<FaceCorner>,
    ObjIssue,
>)
    requires
        toks.len() >= 1,
    ensures
        match corners_spec(chars_view(toks@).drop_first(), vc as int, tc as int, nc as int) {
            Ok(cs) => r matches Ok(v) && v@ == cs,
            Err(e) => r == Err::<Vec<FaceCorner>, ObjIssue>(e),
        },
{
    let ghost args = chars_view(toks@).drop_first();
    let mut corners: Vec<FaceCorner> = Vec::new();
    let mut i: usize = 1;
    proof {
        assert(args.skip(0) =~= args);
        match corners_spec(args, vc as int, tc as int, nc as int) {
            Ok(cs) => {
                assert(corners@ + cs =~= cs);
            },
            Err(e) => {},
        }
    }
    while i < toks.len()
        invariant
            1 <= i <= toks.len(),
            args == chars_view(toks@).drop_first(),
            corners_spec(args, vc as int, tc as int, nc as int) == match corners_spec(
                args.skip(i - 1),
                vc as int,
                tc as int,
                nc as int,
            ) {
                Ok(rest) => Ok(corners@ + rest),
                Err(e) => Err(e),
            },
        decreases toks.len() - i,
    {
        let ghost rest = args.skip(i - 1);
        proof {
            assert(rest[0] == toks@[i as int]@);
            assert(rest.drop_first() =~= args.skip(i as int));
        }
        match parse_face_token(&toks[i], vc, tc, nc) {
            Err(e) => {
                return Err(e);
            },
            Ok(c) => {
                let ghost before = corners@;
                corners.push(c);
                proof {
                    match corners_spec(args.skip(i as int), vc as int, tc as int, nc as int) {
                        Ok(more) => {
                            assert(before + (seq![c] + more) =~= corners@ + more);
                        },
                        Err(e) => {},
                    }
                }
            },
        }
        i += 1;
    }
    proof {
        assert(args.skip(i - 1) =~= Seq::<Seq<char>>::empty());
        assert(corners@ + Seq::<FaceCorner>::empty() =~= corners@);
    }
    Ok(corners)
}

/// Build a face from parsed corners.
fn face_from_corners(corners: &Vec<FaceCorner>, material: &Option<String>) -> (f: ObjFace)
    ensures
        face_view(f) == face_model(corners@, opt_string_view(*material)),
{
    let mut indices: Vec<usize> = Vec::new();
    let mut tex_coord_indices: Vec<Option<usize>> = Vec::new();
    let mut normal_indices: Vec<Option<usize>> = Vec::new();
    let mut normal_index: Option<usize> = None;
    let ghost cs = corners@;
    let ghost normals = Seq::new(cs.len(), |k: int| cs[k].normal);
    let mut i: usize = 0;
    assert(normals.skip(0) =~= normals);
    while i < corners.len()
        invariant
            i <= corners.len(),
            cs == corners@,
            normals == Seq::new(cs.len(), |k: int| cs[k].normal),
            indices@ == Seq::new(i as nat, |k: int| cs[k].vertex),
            tex_coord_indices@ == Seq::new(i as nat, |k: int| cs[k].tex_coord),
            normal_indices@ == Seq::new(i as nat, |k: int| cs[k].normal),
            first_some(normals) == match normal_index {
                Some(n) => Some(n),
                None => first_some(normals.skip(i as int)),
            },
            normal_index is Some ==> normal_index == first_some(normals),
        decreases corners.len() - i,
    {
        let c = corners[i];
        indices.push(c.vertex);
        tex_coord_indices.push(c.tex_coord);
        normal_indices.push(c.normal);
        proof {
            let rest = normals.skip(i as int);
            assert(rest[0] == c.normal);
            assert(rest.drop_first() =~= normals.skip(i + 1));
        }
        if normal_index.is_none() && c.normal.is_some() {
            normal_index = c.normal;
        }
        i += 1;
        proof {
            assert(indices@ =~= Seq::new(i as nat, |k: int| cs[k].vertex));
            assert(tex_coord_indices@ =~= Seq::new(i as nat, |k: int| cs[k].tex_coord));
            assert(normal_indices@ =~= Seq::new(i as nat, |k: int| cs[k].normal));
        }
    }
    proof {
        assert(normals.skip(i as int) =~= Seq::<Option<usize>>::empty());
    }
    let material = match material {
        Some(m) => Some(m.clone()),
        None => None,
    };
    let f = ObjFace { indices, tex_coord_indices, normal_indices, material, normal_index };
    proof {
        assert(face_view(f) =~= face_model(cs, opt_string_view(f.material)));
    }
    f
}

/// Apply one line, given its tokens, to the document and the active material.
pub fn apply_obj_line(doc: &mut ObjDocument, material: &mut Option<String>, toks: &Vec<Vec<char>>) -> (r:
    Result<(), ObjIssue>)
    ensures
        match obj_line(obj_model(*old(doc), *old(material)), chars_view(toks@)) {
            Ok(m) => r is Ok && obj_model(*final(doc), *final(material)) == m,
            Err(e) => r == Err::<(), ObjIssue>(e),
        },
{
    let ghost st = obj_model(*doc, *material);
    let ghost all = chars_view(toks@);
    if toks.len() == 0 {
        return Ok(());
    }
    let ghost args = all.drop_first();
    proof {
        assert(all[0] == toks@[0]@);
        assert(args =~= all.skip(1));
    }
    let kw = &toks[0];
    if chars_eq_str(kw, "v") {
        if !all_float_tokens(toks, 1) {
            return Err(ObjIssue::VertexNotNumeric);
        }
        if toks.len() - 1 < 3 {
            return Err(ObjIssue::VertexTooShort);
        }
        let coords = token_strings(toks, 1, 3);
        doc.vertices.push(coords);
        proof {
            assert(args.take(3) =~= all.subrange(1, 4));
            assert(obj_model(*doc, *material) =~= ObjModel {
                vertices: st.vertices.push(args.take(3)),
                ..st
            });
        }
        Ok(())
    } else if chars_eq_str(kw, "vt") {
        if !all_float_tokens(toks, 1) {
            return Err(ObjIssue::TexCoordNotNumeric);
        }
        if toks.len() - 1 < 2 {
            return Err(ObjIssue::TexCoordTooShort);
        }
        let coords = token_strings(toks, 1, 2);
        doc.tex_coords.push(coords);
        proof {
            assert(args.take(2) =~= all.subrange(1, 3));
            assert(obj_model(*doc, *material) =~= ObjModel {
                tex_coords: st.tex_coords.push(args.take(2)),
                ..st
            });
        }
        Ok(())
    } else if chars_eq_str(kw, "vn") {
        if !all_float_tokens(toks, 1) {
            return Err(ObjIssue::NormalNotNumeric);
        }
        if toks.len() - 1 < 3 {
            return Err(ObjIssue::NormalTooShort);
        }
        let coords = token_strings(toks, 1, 3);
        doc.normals.push(coords);
        proof {
            assert(args.take(3) =~= all.subrange(1, 4));
            assert(obj_model(*doc, *material) =~= ObjModel {
                normals: st.normals.push(args.take(3)),
                ..st
            });
        }
        Ok(())
    } else if chars_eq_str(kw, "f") {
        let corners = match parse_face_corners(
            toks,
            doc.vertices.len(),
            doc.tex_coords.len(),
            doc.normals.len(),
        ) {
            Err(e) => return Err(e),
            Ok(c) => c,
        };
        if corners.len() < 3 {
            return Err(ObjIssue::FaceTooShort);
        }
        let face = face_from_corners(&corners, material);
        doc.faces.push(face);
        proof {
            assert(obj_model(*doc, *material) =~= ObjModel {
                faces: st.faces.push(face_model(corners@, st.material)),
                ..st
            });
        }
        Ok(())
    } else if chars_eq_str(kw, "usemtl") {
        let name = join_tokens(toks, 1);
        if name.len() == 0 {
            *material = None;
        } else {
            *material = Some(string_of(name.as_slice()));
        }
        proof {
            assert(obj_model(*doc, *material) =~= ObjModel {
                material: if join_space(args).len() == 0 {
                    None
                } else {
                    Some(join_space(args))
                },
                ..st
            });
        }
        Ok(())
    } else if chars_eq_str(kw, "mtllib") {
        let mut i: usize = 1;
        let ghost before = doc.mtllibs@;
        while i < toks.len()
            invariant
                1 <= i <= toks.len(),
                all == chars_view(toks@),
                doc.mtllibs@.len() == before.len() + i - 1,
                forall|k: int| 0 <= k < before.len() ==> #[trigger] doc.mtllibs@[k] == before[k],
                forall|k: int|
                    before.len() <= k < doc.mtllibs@.len() ==> (#[trigger] doc.mtllibs@[k])@
                        == toks@[k - before.len() + 1]@,
                doc.vertices == old(doc).vertices,
                doc.tex_coords == old(doc).tex_coords,
                doc.normals == old(doc).normals,
                doc.faces == old(doc).faces,
            decreases toks.len() - i,
        {
            let t = &toks[i];
            let s = string_of(t.as_slice());
            doc.mtllibs.push(s);
            i += 1;
        }
        proof {
            assert(strings_view(doc.mtllibs@) =~= strings_view(before) + args);
        }
        proof {
            assert(all.subrange(1, toks.len() as int) =~= args);
            assert(obj_model(*doc, *material) =~= ObjModel { mtllibs: st.mtllibs + args, ..st });
        }
        Ok(())
    } else {
        Ok(())
    }
}

/// Parse Wavefront OBJ text into its document. Errors name `path` and the
/// 1-based line of the first malformed statement. Whether the document holds
/// a mesh is judged afterwards by [`require_mesh`], once the caller has read
/// the `mtllib` files it names.
pub fn parse_obj_document(path: &str, text: &str) -> (r: Result<ObjDocument, Error>)
    ensures
        match parse_obj_spec(text@) {
            Ok(m) => r matches Ok(doc) && obj_model(doc, None) == ObjModel { material: None, ..m },
            Err((line, issue)) => r matches Err(e) && is_parse_error(
                e,
                path@,
                Some(line as usize),
                issue_message(issue),
            ),
        },
{
    let chars = chars_of(text);
    let n = chars.len();
    let mut doc = ObjDocument {
        vertices: Vec::new(),
        tex_coords: Vec::new(),
        normals: Vec::new(),
        faces: Vec::new(),
        mtllibs: Vec::new(),
    };
    let mut material: Option<String> = None;
    let mut pos: usize = 0;
    let mut line: usize = 1;
    proof {
        assert(chars@.skip(0) =~= chars@);
        assert(obj_model(doc, material) =~= obj_start());
    }
    loop
        invariant_except_break
            pos <= n,
            line <= pos + 1,
            parse_obj_spec(text@) == obj_run(obj_model(doc, material), lines_of(chars@.skip(pos as int)), line as int),
        invariant
            n == chars.len(),
            chars@ == text@,
            n <= isize::MAX,
        ensures
            parse_obj_spec(text@) == Ok::<ObjModel, (int, ObjIssue)>(obj_model(doc, material)),
        decreases n - pos,
    {
        let k = find_char(&chars, pos, n, '\n');
        let h = find_char(&chars, pos, k, '#');
        let toks = tokens_between(&chars, pos, h);
        proof {
            lemma_line_tokens(chars@, pos as int, k as int, h as int);
        }
        let ghost before = obj_model(doc, material);
        match apply_obj_line(&mut doc, &mut material, &toks) {
            Err(issue) => {
                return Err(Error::parse(path, Some(line), issue.message()));
            },
            Ok(()) => {},
        }
        if k == n {
            proof {
                let rest = lines_of(chars@.skip(pos as int));
                assert(rest.drop_first() =~= Seq::<Seq<char>>::empty());
                assert(obj_line(before, comment_line_tokens(rest[0])) == Ok::<ObjModel, ObjIssue>(
                    obj_model(doc, material),
                ));
                assert(obj_run(obj_model(doc, material), rest.drop_first(), line + 1) == Ok::<
                    ObjModel,
                    (int, ObjIssue),
                >(obj_model(doc, material)));
            }
            break ;
        }
        pos = k + 1;
        line = line + 1;
    }
    proof {
        let m = obj_model(doc, material);
        assert(obj_model(doc, None) =~= ObjModel { material: None, ..m });
    }
    Ok(doc)
}

/// A document is a mesh only with at least one vertex and one face; otherwise
/// it is [`Error::EmptyMesh`].
pub fn require_mesh(doc: ObjDocument) -> (r: Result<ObjDocument, Error>)
    ensures
        doc.vertices@.len() == 0 || doc.faces@.len() == 0 ==> r matches Err(Error::EmptyMesh),
        doc.vertices@.len() > 0 && doc.faces@.len() > 0 ==> r == Ok::<ObjDocument, Error>(doc),
{
    if doc.vertices.len() == 0 || doc.faces.len() == 0 {
        Err(Error::EmptyMesh)
    } else {
        Ok(doc)
    }
}

/// Parse Wavefront OBJ text into a mesh document: [`parse_obj_document`],
/// then [`require_mesh`]. Errors name `path` and the 1-based line of the first
/// malformed statement, and a text without vertices or faces is
/// [`Error::EmptyMesh`]. A loader that reads the `mtllib` files does so
/// between the two steps, so that their errors come before emptiness.
pub fn parse_obj(path: &str, text: &str) -> (r: Result<ObjDocument, Error>)
    ensures
        match parse_obj_spec(text@) {
            Ok(m) => if m.vertices.len() == 0 || m.faces.len() == 0 {
                r matches Err(Error::EmptyMesh)
            } else {
                r matches Ok(doc) && obj_model(doc, None) == ObjModel { material: None, ..m }
            },
            Err((line, issue)) => r matches Err(e) && is_parse_error(
                e,
                path@,
                Some(line as usize),
                issue_message(issue),
            ),
        },
{
    match parse_obj_document(path, text) {
        Ok(doc) => require_mesh(doc),
        Err(e) => Err(e),
    }
}

/// Every face of a model has at least three corners, one attribute entry per
/// corner, and indices that point at attributes of the model.
pub open spec fn faces_in_range(m: ObjModel) -> bool {
    forall|f: int| 0 <= f < m.faces.len() ==> face_in_range(#[trigger] m.faces[f], m)
}

pub open spec fn face_in_range(fm: FaceModel, m: ObjModel) -> bool {
    &&& fm.indices.len() >= 3
    &&& fm.tex_coords.len() == fm.indices.len()
    &&& fm.normals.len() == fm.indices.len()
    &&& forall|c: int| 0 <= c < fm.indices.len() ==> #[trigger] fm.indices[c] < m.vertices.len()
    &&& forall|c: int|
        0 <= c < fm.tex_coords.len() ==> (#[trigger] fm.tex_coords[c] matches Some(t) ==> t
            < m.tex_coords.len())
    &&& forall|c: int|
        0 <= c < fm.normals.len() ==> (#[trigger] fm.normals[c] matches Some(n) ==> n
            < m.normals.len())
    &&& fm.normal matches Some(n) ==> n < m.normals.len()
}

proof fn lemma_index_field_in_range(text: Seq<char>, count: int, kind: IndexKind)
    requires
        count >= 0,
    ensures
        index_field_spec(text, count, kind) matches Ok(Some(i)) ==> i < count,
{
}

proof fn lemma_corners_in_range(toks: Seq<Seq<char>>, vc: int, tc: int, nc: int)
    requires
        vc >= 0,
        tc >= 0,
        nc >= 0,
    ensures
        corners_spec(toks, vc, tc, nc) matches Ok(cs) ==> forall|c: int|
            0 <= c < cs.len() ==> {
                &&& (#[trigger] cs[c]).vertex < vc
                &&& cs[c].tex_coord matches Some(t) ==> t < tc
                &&& cs[c].normal matches Some(n) ==> n < nc
            },
    decreases toks.len(),
{
    if toks.len() > 0 {
        let parts = split_on(toks[0], '/');
        lemma_index_field_in_range(parts[0], vc, IndexKind::Vertex);
        if parts.len() > 1 {
            lemma_index_field_in_range(parts[1], tc, IndexKind::TexCoord);
        }
        if parts.len() > 2 {
            lemma_index_field_in_range(parts[2], nc, IndexKind::Normal);
        }
        lemma_corners_in_range(toks.drop_first(), vc, tc, nc);
        if let Ok(cs) = corners_spec(toks, vc, tc, nc) {
            let first = corner_spec(toks[0], vc, tc, nc)->Ok_0;
            let rest = corners_spec(toks.drop_first(), vc, tc, nc)->Ok_0;
            assert(cs == seq![first] + rest);
            assert forall|c: int| 0 <= c < cs.len() implies {
                &&& (#[trigger] cs[c]).vertex < vc
                &&& cs[c].tex_coord matches Some(t) ==> t < tc
                &&& cs[c].normal matches Some(n) ==> n < nc
            } by {
                if c > 0 {
                    assert(cs[c] == rest[c - 1]);
                }
            }
        }
    }
}

proof fn lemma_first_some_in(s: Seq<Option<usize>>)
    ensures
        first_some(s) matches Some(n) ==> exists|c: int| 0 <= c < s.len() && s[c] == Some(n),
    decreases s.len(),
{
    if s.len() > 0 && s[0] is None {
        lemma_first_some_in(s.drop_first());
        if let Some(n) = first_some(s) {
            let c = choose|c: int| 0 <= c < s.drop_first().len() && s.drop_first()[c] == Some(n);
            assert(s[c + 1] == Some(n));
        }
    }
}

proof fn lemma_obj_line_keeps_range(st: ObjModel, toks: Seq<Seq<char>>)
    requires
        faces_in_range(st),
    ensures
        obj_line(st, toks) matches Ok(next) ==> faces_in_range(next),
{
    if let Ok(next) = obj_line(st, toks) {
        assert forall|f: int| 0 <= f < next.faces.len() implies face_in_range(
            #[trigger] next.faces[f],
            next,
        ) by {
            if f < st.faces.len() {
                assert(next.faces[f] == st.faces[f]);
                assert(face_in_range(st.faces[f], st));
            } else {
                let args = toks.drop_first();
                let vc = st.vertices.len() as int;
                let tc = st.tex_coords.len() as int;
                let nc = st.normals.len() as int;
                lemma_corners_in_range(args, vc, tc, nc);
                let cs = corners_spec(args, vc, tc, nc)->Ok_0;
                let fm = face_model(cs, st.material);
                assert(next.faces[f] == fm);
                assert forall|c: int| 0 <= c < fm.indices.len() implies #[trigger] fm.indices[c]
                    < next.vertices.len() by {
                    assert(fm.indices[c] == cs[c].vertex);
                }
                assert forall|c: int| 0 <= c < fm.tex_coords.len() implies (
                #[trigger] fm.tex_coords[c] matches Some(t) ==> t < next.tex_coords.len()) by {
                    assert(fm.tex_coords[c] == cs[c].tex_coord);
                }
                assert forall|c: int| 0 <= c < fm.normals.len() implies (
                #[trigger] fm.normals[c] matches Some(n) ==> n < next.normals.len()) by {
                    assert(fm.normals[c] == cs[c].normal);
                }
                lemma_first_some_in(fm.normals);
                if let Some(n) = fm.normal {
                    let c = choose|c: int| 0 <= c < fm.normals.len() && fm.normals[c] == Some(n);
                    assert(fm.normals[c] == cs[c].normal);
                }
            }
        }
    }
}

proof fn lemma_obj_run_keeps_range(st: ObjModel, lines: Seq<Seq<char>>, line: int)
    requires
        faces_in_range(st),
    ensures
        obj_run(st, lines, line) matches Ok(m) ==> faces_in_range(m),
    decreases lines.len(),
{
    if lines.len() > 0 {
        let toks = comment_line_tokens(lines[0]);
        lemma_obj_line_keeps_range(st, toks);
        if let Ok(next) = obj_line(st, toks) {
            lemma_obj_run_keeps_range(next, lines.drop_first(), line + 1);
        }
    }
}

/// Every face of a parsed OBJ text has at least three corners, and each of its
/// vertex, texture coordinate and normal indices (negative ones included,
/// once resolved) points at an attribute of the document.
pub proof fn law_obj_indices_in_range(text: Seq<char>)
    ensures
        parse_obj_spec(text) matches Ok(m) ==> faces_in_range(m),
{
    lemma_obj_run_keeps_range(obj_start(), lines_of(text), 1);
}

/// A negative OBJ index `-k` names the same attribute as the positive index
/// `count - k + 1`: it counts back from the last attribute read so far.
pub proof fn law_negative_index_counts_back(k: int, count: int)
    requires
        1 <= k <= count <= isize::MAX,
    ensures
        obj_index_spec(-k, count) == obj_index_spec(count - k + 1, count),
        obj_index_spec(-k, count) == Some((count - k) as usize),
{
}

/// Attribute lines keep their leading numbers and ignore the rest: a `v` or
/// `vn` line of at least three number tokens adds its first three as one
/// entry, a `vt` line of at least two adds its first two, and nothing else of
/// the document changes. Extra numbers (such as per-vertex colors) are no
/// error; too few numbers are.
pub proof fn law_attribute_lines_keep_leading_numbers(st: ObjModel, toks: Seq<Seq<char>>)
    requires
        toks.len() >= 1,
        forall|i: int| 1 <= i < toks.len() ==> is_float_literal(#[trigger] toks[i]),
    ensures
        toks[0] == "v"@ && toks.len() >= 4 ==> obj_line(st, toks) == Ok::<ObjModel, ObjIssue>(
            ObjModel { vertices: st.vertices.push(seq![toks[1], toks[2], toks[3]]), ..st },
        ),
        toks[0] == "vn"@ && toks.len() >= 4 ==> obj_line(st, toks) == Ok::<ObjModel, ObjIssue>(
            ObjModel { normals: st.normals.push(seq![toks[1], toks[2], toks[3]]), ..st },
        ),
        toks[0] == "vt"@ && toks.len() >= 3 ==> obj_line(st, toks) == Ok::<ObjModel, ObjIssue>(
            ObjModel { tex_coords: st.tex_coords.push(seq![toks[1], toks[2]]), ..st },
        ),
        toks[0] == "v"@ && toks.len() < 4 ==> obj_line(st, toks) == Err::<ObjModel, ObjIssue>(
            ObjIssue::VertexTooShort,
        ),
{
    reveal_strlit("v");
    reveal_strlit("vn");
    reveal_strlit("vt");
    assert("vn"@.len() == 2 && "vt"@.len() == 2 && "v"@.len() == 1);
    assert("vn"@ != "vt"@) by {
        assert("vn"@[1] != "vt"@[1]);
    }
    let args = toks.drop_first();
    assert(all_floats(args)) by {
        assert forall|i: int| 0 <= i < args.len() implies is_float_literal(#[trigger] args[i]) by {
            assert(args[i] == toks[i + 1]);
        }
    }
    if toks.len() >= 4 {
        assert(args.take(3) =~= seq![toks[1], toks[2], toks[3]]);
    }
    if toks.len() >= 3 {
        assert(args.take(2) =~= seq![toks[1], toks[2]]);
    }
}

proof fn lemma_obj_keywords_differ()
    ensures
        "f"@ != "v"@,
        "f"@ != "vt"@,
        "f"@ != "vn"@,
        "usemtl"@ != "v"@,
        "usemtl"@ != "vt"@,
        "usemtl"@ != "vn"@,
        "usemtl"@ != "f"@,
        "mtllib"@ != "v"@,
        "mtllib"@ != "vt"@,
        "mtllib"@ != "vn"@,
        "mtllib"@ != "f"@,
        "mtllib"@ != "usemtl"@,
{
    reveal_strlit("v");
    reveal_strlit("vt");
    reveal_strlit("vn");
    reveal_strlit("f");
    reveal_strlit("usemtl");
    reveal_strlit("mtllib");
    assert("f"@[0] != "v"@[0]);
    assert("mtllib"@[0] != "usemtl"@[0]);
    assert("f"@.len() != "vt"@.len() && "f"@.len() != "vn"@.len());
    assert("usemtl"@.len() != "v"@.len() && "usemtl"@.len() != "vt"@.len() && "usemtl"@.len() != "f"@.len());
    assert("mtllib"@.len() != "v"@.len() && "mtllib"@.len() != "vt"@.len() && "mtllib"@.len() != "f"@.len());
}

/// Each OBJ statement touches only its own part of the document: a face
/// appends one face made with the material then in use, `usemtl` changes
/// only the material in use, `mtllib` appends its file names, and any other
/// statement is ignored.
pub proof fn law_obj_statements_touch_their_own_part(st: ObjModel, toks: Seq<Seq<char>>)
    requires
        toks.len() >= 1,
    ensures
        toks[0] != "v"@ && toks[0] != "vt"@ && toks[0] != "vn"@ && toks[0] != "f"@ && toks[0]
            != "usemtl"@ && toks[0] != "mtllib"@ ==> obj_line(st, toks) == Ok::<ObjModel, ObjIssue>(st),
        toks[0] == "f"@ ==> (obj_line(st, toks) matches Ok(n) ==> {
            &&& n.faces.len() == st.faces.len() + 1
            &&& n.faces.take(st.faces.len() as int) == st.faces
            &&& n.faces.last().material == st.material
            &&& n.faces.last().indices.len() >= 3
            &&& n == ObjModel { faces: n.faces, ..st }
        }),
        toks[0] == "usemtl"@ ==> (obj_line(st, toks) matches Ok(n) && n == ObjModel {
            material: n.material,
            ..st
        }),
        toks[0] == "mtllib"@ ==> obj_line(st, toks) == Ok::<ObjModel, ObjIssue>(
            ObjModel { mtllibs: st.mtllibs + toks.drop_first(), ..st },
        ),
{
    lemma_obj_keywords_differ();
    if toks[0] == "f"@ {
        if let Ok(n) = obj_line(st, toks) {
            assert(n.faces.take(st.faces.len() as int) =~= st.faces);
        }
    }
}

} // verus!
