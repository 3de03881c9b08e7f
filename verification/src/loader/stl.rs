//! STL parsing, binary and ASCII.
//!
//! Binary coordinates are kept as the raw little-endian bit patterns of their
//! `f32` values; ASCII coordinates are kept as validated float tokens.

use vstd::prelude::*;

use crate::error::{is_binary_stl_error, is_parse_error, Error};
use crate::text::{
    all_float_tokens, all_floats, chars_eq_str, chars_of, chars_view, find_char, lemma_split_from,
    lines_of, strings_view, token_strings, tokens_between, ws_tokens,
};

verus! {

/// Three raw little-endian `f32` bit patterns.
#[derive(Debug, Clone, Copy, PartialEq, Eq)]
pub struct StlVector {
    pub x: u32,
    pub y: u32,
    pub z: u32,
}

/// One triangle of a binary STL file.
#[derive(Debug, Clone, Copy, PartialEq, Eq)]
pub struct BinaryTriangle {
    /// Facet normal as stored in the file.
    pub normal: StlVector,
    /// First corner.
    pub a: StlVector,
    /// Second corner.
    pub b: StlVector,
    /// Third corner.
    pub c: StlVector,
}

/// A parsed binary STL file.
#[derive(Debug, Clone, PartialEq, Eq)]
pub struct BinaryStl {
    /// Triangles in file order.
    pub triangles: Vec<BinaryTriangle>,
}

/// One facet of an ASCII STL file.
#[derive(Debug, Clone, PartialEq, Eq)]
pub struct AsciiFacet {
    /// The last `facet normal` tokens seen before the facet ended.
    pub normal: Option<Vec<String>>,
    /// Exactly three corners, three float tokens each.
    pub vertices: Vec<Vec<String>>,
}

/// A parsed ASCII STL file.
#[derive(Debug, Clone, PartialEq, Eq)]
pub struct AsciiStl {
    /// Facets in file order.
    pub facets: Vec<AsciiFacet>,
}

/// A parsed STL file of either encoding.
#[derive(Debug, Clone, PartialEq, Eq)]
pub enum StlDocument {
    /// Binary STL.
    Binary(BinaryStl),
    /// ASCII STL.
    Ascii(AsciiStl),
}

/// Unsigned little-endian integer of the four bytes at `at`.
pub open spec fn le_u32(b: Seq<u8>, at: int) -> int {
    b[at] as int + 256 * b[at + 1] as int + 65536 * b[at + 2] as int + 16777216 * b[at + 3] as int
}

/// The triangle count in a binary STL header.
pub open spec fn binary_count(b: Seq<u8>) -> int {
    le_u32(b, 80)
}

/// Whether bytes look like binary STL: an 84-byte header whose triangle count
/// accounts for exactly the remaining length, at 50 bytes per triangle (sums
/// held at `usize::MAX`).
pub open spec fn looks_binary(b: Seq<u8>) -> bool {
    b.len() >= 84 && {
        let expected = 84 + 50 * binary_count(b);
        (if expected > usize::MAX {
            usize::MAX as int
        } else {
            expected
        }) == b.len()
    }
}

pub open spec fn vector_at(b: Seq<u8>, at: int) -> StlVector {
    StlVector { x: le_u32(b, at) as u32, y: le_u32(b, at + 4) as u32, z: le_u32(b, at + 8) as u32 }
}

/// Triangle `i`: 50-byte records after the header; normal, three corners,
/// then two attribute bytes.
pub open spec fn triangle_at(b: Seq<u8>, i: int) -> BinaryTriangle {
    let at = 84 + 50 * i;
    BinaryTriangle {
        normal: vector_at(b, at),
        a: vector_at(b, at + 12),
        b: vector_at(b, at + 24),
        c: vector_at(b, at + 36),
    }
}

/// One 50-byte binary STL record read on its own: the normal, then the three
/// corners, each three little-endian 32-bit words (the two attribute bytes
/// at its end are not read).
pub open spec fn decode_record(r: Seq<u8>) -> BinaryTriangle {
    BinaryTriangle {
        normal: vector_at(r, 0),
        a: vector_at(r, 12),
        b: vector_at(r, 24),
        c: vector_at(r, 36),
    }
}

/// Records laid end to end.
pub open spec fn concat_records(rs: Seq<Seq<u8>>) -> Seq<u8>
    decreases rs.len(),
{
    if rs.len() == 0 {
        seq![]
    } else {
        concat_records(rs.drop_last()) + rs.last()
    }
}

proof fn lemma_concat_records(rs: Seq<Seq<u8>>)
    requires
        forall|k: int| 0 <= k < rs.len() ==> (#[trigger] rs[k]).len() == 50,
    ensures
        concat_records(rs).len() == 50 * rs.len(),
        forall|i: int, j: int|
            0 <= i < rs.len() && 0 <= j < 50 ==> concat_records(rs)[50 * i + j] == #[trigger] rs[i][j],
    decreases rs.len(),
{
    if rs.len() > 0 {
        let prev = rs.drop_last();
        assert forall|k: int| 0 <= k < prev.len() implies (#[trigger] prev[k]).len() == 50 by {
            assert(prev[k] == rs[k]);
        }
        lemma_concat_records(prev);
        assert(rs.last().len() == 50);
        assert forall|i: int, j: int| 0 <= i < rs.len() && 0 <= j < 50 implies concat_records(rs)[50 * i
            + j] == #[trigger] rs[i][j] by {
            if i < rs.len() - 1 {
                assert(prev[i] == rs[i]);
                assert(prev[i][j] == rs[i][j]);
            }
        }
    }
}

/// Whether a binary STL file is structurally readable: a header and all the
/// triangles it announces.
pub open spec fn binary_complete(b: Seq<u8>) -> bool {
    b.len() >= 84 && b.len() >= 84 + 50 * binary_count(b)
}

fn read_u32_le(bytes: &[u8], at: usize) -> (v: u32)
    requires
        at + 4 <= bytes.len(),
    ensures
        v == le_u32(bytes@, at as int),
{
    bytes[at] as u32 + 256 * (bytes[at + 1] as u32) + 65536 * (bytes[at + 2] as u32) + 16777216 * (
    bytes[at + 3] as u32)
}

fn read_vector(bytes: &[u8], at: usize) -> (v: StlVector)
    requires
        at + 12 <= bytes.len(),
    ensures
        v == vector_at(bytes@, at as int),
{
    StlVector {
        x: read_u32_le(bytes, at),
        y: read_u32_le(bytes, at + 4),
        z: read_u32_le(bytes, at + 8),
    }
}

/// Whether `bytes` have the exact size of a binary STL file with the triangle
/// count found in its header.
pub fn looks_like_binary_stl(bytes: &[u8]) -> (b: bool)
    ensures
        b == looks_binary(bytes@),
{
    if bytes.len() < 84 {
        return false;
    }
    let tri_count = read_u32_le(bytes, 80);
    let expected: u128 = 84 + 50 * (tri_count as u128);
    let held = if expected > usize::MAX as u128 {
        usize::MAX
    } else {
        expected as usize
    };
    held == bytes.len()
}

/// Parse binary STL. The file must hold its 84-byte header and every triangle
/// that the header announces; extra trailing bytes are ignored. A file with no
/// triangle is [`Error::EmptyMesh`].
pub fn parse_binary_stl(path: &str, bytes: &[u8]) -> (r: Result<BinaryStl, Error>)
    ensures
        bytes@.len() < 84 ==> (r matches Err(e) && is_binary_stl_error(
            e,
            path@,
            "file is shorter than STL header"@,
        )),
        bytes@.len() >= 84 && !binary_complete(bytes@) ==> (r matches Err(e) && is_binary_stl_error(
            e,
            path@,
            "triangle data is truncated"@,
        )),
        binary_complete(bytes@) && binary_count(bytes@) == 0 ==> r matches Err(Error::EmptyMesh),
        binary_complete(bytes@) && binary_count(bytes@) > 0 ==> (r matches Ok(stl)
            && stl.triangles@ == Seq::new(
            binary_count(bytes@) as nat,
            |i: int| triangle_at(bytes@, i),
        )),
{
    if bytes.len() < 84 {
        return Err(
            Error::InvalidBinaryStl {
                path: path.to_owned(),
                message: "file is shorter than STL header".to_owned(),
            },
        );
    }
    let count = read_u32_le(bytes, 80);
    let expected: u128 = 84 + 50 * (count as u128);
    if (bytes.len() as u128) < expected {
        return Err(
            Error::InvalidBinaryStl {
                path: path.to_owned(),
                message: "triangle data is truncated".to_owned(),
            },
        );
    }
    if count == 0 {
        return Err(Error::EmptyMesh);
    }
    let n = count as usize;
    let mut triangles: Vec<BinaryTriangle> = Vec::new();
    let mut i: usize = 0;
    while i < n
        invariant
            i <= n == count,
            84 + 50 * n <= bytes.len(),
            triangles@ == Seq::new(i as nat, |k: int| triangle_at(bytes@, k)),
        decreases n - i,
    {
        let at = 84 + 50 * i;
        let t = BinaryTriangle {
            normal: read_vector(bytes, at),
            a: read_vector(bytes, at + 12),
            b: read_vector(bytes, at + 24),
            c: read_vector(bytes, at + 36),
        };
        triangles.push(t);
        i += 1;
        proof {
            assert(triangles@ =~= Seq::new(i as nat, |k: int| triangle_at(bytes@, k)));
        }
    }
    Ok(BinaryStl { triangles })
}

/// Why an ASCII STL line is rejected.
#[derive(Debug, Clone, Copy, PartialEq, Eq)]
pub enum StlIssue {
    /// A coordinate is not a number.
    ExpectedFloat,
    /// `endfacet` after other than three vertices.
    FacetVertexCount,
}

pub open spec fn stl_issue_message(issue: StlIssue) -> Seq<char> {
    match issue {
        StlIssue::ExpectedFloat => "expected a float"@,
        StlIssue::FacetVertexCount => "facet must contain exactly three vertices"@,
    }
}

impl StlIssue {
    /// The message reported for this issue.
    pub fn message(self) -> (s: String)
        ensures
            s@ == stl_issue_message(self),
    {
        match self {
            StlIssue::ExpectedFloat => "expected a float".to_owned(),
            StlIssue::FacetVertexCount => "facet must contain exactly three vertices".to_owned(),
        }
    }
}

/// Abstract facet.
#[verifier::ext_equal]
pub struct FacetModel {
    pub normal: Option<Seq<Seq<char>>>,
    pub vertices: Seq<Seq<Seq<char>>>,
}

/// Abstract ASCII parser state.
#[verifier::ext_equal]
pub struct StlState {
    pub facets: Seq<FacetModel>,
    pub current: Seq<Seq<Seq<char>>>,
    pub normal: Option<Seq<Seq<char>>>,
}

pub open spec fn tuples(v: Seq<Vec<String>>) -> Seq<Seq<Seq<char>>> {
    Seq::new(v.len(), |i: int| strings_view(v[i]@))
}

pub open spec fn opt_tuple(o: Option<Vec<String>>) -> Option<Seq<Seq<char>>> {
    match o {
        Some(v) => Some(strings_view(v@)),
        None => None,
    }
}

pub open spec fn facet_view(f: AsciiFacet) -> FacetModel {
    FacetModel { normal: opt_tuple(f.normal), vertices: tuples(f.vertices@) }
}

pub open spec fn facets_view(fs: Seq<AsciiFacet>) -> Seq<FacetModel> {
    Seq::new(fs.len(), |i: int| facet_view(fs[i]))
}

/// The effect of one line, given its tokens: `facet normal x y z`,
/// `vertex x y z` and `endfacet` count; other lines are ignored.
pub open spec fn stl_line(st: StlState, toks: Seq<Seq<char>>) -> Result<StlState, StlIssue> {
    if toks.len() == 5 && toks[0] == "facet"@ && toks[1] == "normal"@ {
        if !all_floats(toks.skip(2)) {
            Err(StlIssue::ExpectedFloat)
        } else {
            Ok(StlState { normal: Some(toks.skip(2)), ..st })
        }
    } else if toks.len() == 4 && toks[0] == "vertex"@ {
        if !all_floats(toks.skip(1)) {
            Err(StlIssue::ExpectedFloat)
        } else {
            Ok(StlState { current: st.current.push(toks.skip(1)), ..st })
        }
    } else if toks.len() == 1 && toks[0] == "endfacet"@ {
        if st.current.len() != 3 {
            Err(StlIssue::FacetVertexCount)
        } else {
            Ok(
                StlState {
                    facets: st.facets.push(FacetModel { normal: st.normal, vertices: st.current }),
                    current: seq![],
                    normal: None,
                },
            )
        }
    } else {
        Ok(st)
    }
}

pub open spec fn stl_run(st: StlState, lines: Seq<Seq<char>>, line: int) -> Result<
    StlState,
    (int, StlIssue),
>
    decreases lines.len(),
{
    if lines.len() == 0 {
        Ok(st)
    } else {
        match stl_line(st, ws_tokens(lines[0])) {
            Err(e) => Err((line, e)),
            Ok(next) => stl_run(next, lines.drop_first(), line + 1),
        }
    }
}

/// The ASCII STL reading of a whole text.
pub open spec fn parse_ascii_stl_spec(text: Seq<char>) -> Result<StlState, (int, StlIssue)> {
    stl_run(StlState { facets: seq![], current: seq![], normal: None }, lines_of(text), 1)
}

/// Apply one line, given its tokens.
fn apply_stl_line(
    facets: &mut Vec<AsciiFacet>,
    current: &mut Vec<Vec<String>>,
    normal: &mut Option<Vec<String>>,
    toks: &Vec<Vec<char>>,
) -> (r: Result<(), StlIssue>)
    ensures
        match stl_line(
            StlState {
                facets: facets_view(old(facets)@),
                current: tuples(old(current)@),
                normal: opt_tuple(*old(normal)),
            },
            chars_view(toks@),
        ) {
            Ok(st) => r is Ok && st == StlState {
                facets: facets_view(final(facets)@),
                current: tuples(final(current)@),
                normal: opt_tuple(*final(normal)),
            },
            Err(e) => r == Err::<(), StlIssue>(e),
        },
{
    let ghost all = chars_view(toks@);
    let n = toks.len();
    if n == 5 && chars_eq_str(&toks[0], "facet") && chars_eq_str(&toks[1], "normal") {
        if !all_float_tokens(toks, 2) {
            return Err(StlIssue::ExpectedFloat);
        }
        let values = token_strings(toks, 2, 3);
        proof {
            assert(all.skip(2) =~= all.subrange(2, 5));
        }
        *normal = Some(values);
        return Ok(());
    }
    if n == 4 && chars_eq_str(&toks[0], "vertex") {
        if !all_float_tokens(toks, 1) {
            return Err(StlIssue::ExpectedFloat);
        }
        let values = token_strings(toks, 1, 3);
        let ghost before = current@;
        current.push(values);
        proof {
            assert(all.skip(1) =~= all.subrange(1, 4));
            assert(tuples(current@) =~= tuples(before).push(all.skip(1)));
        }
        return Ok(());
    }
    if n == 1 && chars_eq_str(&toks[0], "endfacet") {
        if current.len() != 3 {
            return Err(StlIssue::FacetVertexCount);
        }
        let mut vertices: Vec<Vec<String>> = Vec::new();
        std::mem::swap(&mut vertices, current);
        let facet_normal = normal.take();
        let ghost before = facets@;
        facets.push(AsciiFacet { normal: facet_normal, vertices });
        proof {
            assert(facets_view(facets@) =~= facets_view(before).push(
                FacetModel { normal: opt_tuple(facet_normal), vertices: tuples(vertices@) },
            ));
            assert(tuples(current@) =~= Seq::<Seq<Seq<char>>>::empty());
        }
        return Ok(());
    }
    Ok(())
}

/// Parse ASCII STL. Errors name `path` and the 1-based line of the first
/// malformed number or of a facet without exactly three vertices; a text
/// without facets is [`Error::EmptyMesh`].
pub fn parse_ascii_stl(path: &str, text: &str) -> (r: Result<AsciiStl, Error>)
    ensures
        match parse_ascii_stl_spec(text@) {
            Ok(st) => if st.facets.len() == 0 {
                r matches Err(Error::EmptyMesh)
            } else {
                r matches Ok(stl) && facets_view(stl.facets@) == st.facets
            },
            Err((line, issue)) => r matches Err(e) && is_parse_error(
                e,
                path@,
                Some(line as usize),
                stl_issue_message(issue),
            ),
        },
{
    let chars = chars_of(text);
    let n = chars.len();
    let mut facets: Vec<AsciiFacet> = Vec::new();
    let mut current: Vec<Vec<String>> = Vec::new();
    let mut normal: Option<Vec<String>> = None;
    let mut pos: usize = 0;
    let mut line: usize = 1;
    proof {
        assert(chars@.skip(0) =~= chars@);
        assert(facets_view(facets@) =~= Seq::<FacetModel>::empty());
        assert(tuples(current@) =~= Seq::<Seq<Seq<char>>>::empty());
    }
    loop
        invariant_except_break
            pos <= n,
            line <= pos + 1,
            parse_ascii_stl_spec(text@) == stl_run(
                StlState {
                    facets: facets_view(facets@),
                    current: tuples(current@),
                    normal: opt_tuple(normal),
                },
                lines_of(chars@.skip(pos as int)),
                line as int,
            ),
        invariant
            n == chars.len(),
            chars@ == text@,
            n <= isize::MAX,
        ensures
            parse_ascii_stl_spec(text@) == Ok::<StlState, (int, StlIssue)>(
                StlState {
                    facets: facets_view(facets@),
                    current: tuples(current@),
                    normal: opt_tuple(normal),
                },
            ),
        decreases n - pos,
    {
        let k = find_char(&chars, pos, n, '\n');
        let toks = tokens_between(&chars, pos, k);
        proof {
            assert(chars@.skip(pos as int) =~= chars@.subrange(pos as int, n as int));
            if k < n {
                assert(chars@.skip(k + 1) =~= chars@.subrange(k + 1, n as int));
            }
            lemma_split_from(chars@, '\n', pos as int, k as int);
        }
        let ghost before = StlState {
            facets: facets_view(facets@),
            current: tuples(current@),
            normal: opt_tuple(normal),
        };
        match apply_stl_line(&mut facets, &mut current, &mut normal, &toks) {
            Err(issue) => {
                return Err(Error::parse(path, Some(line), issue.message()));
            },
            Ok(()) => {},
        }
        if k == n {
            proof {
                let rest = lines_of(chars@.skip(pos as int));
                assert(rest.drop_first() =~= Seq::<Seq<char>>::empty());
                assert(ws_tokens(rest[0]) == chars_view(toks@));
                assert(stl_run(before, rest, line as int) == stl_run(
                    StlState {
                        facets: facets_view(facets@),
                        current: tuples(current@),
                        normal: opt_tuple(normal),
                    },
                    rest.drop_first(),
                    line + 1,
                ));
            }
            break ;
        }
        pos = k + 1;
        line = line + 1;
    }
    if facets.len() == 0 {
        return Err(Error::EmptyMesh);
    }
    Ok(AsciiStl { facets })
}

/// `std::str::from_utf8`, copied into an owned string: it succeeds exactly on
/// well-formed UTF-8, and then holds the decoded characters.
#[verifier::external_body]
fn utf8_text(bytes: &[u8]) -> (r: Option<String>)
    ensures
        r is Some <==> vstd::utf8::valid_utf8(bytes@),
        r matches Some(s) ==> s@ == vstd::utf8::decode_utf8(bytes@),
{
    match std::str::from_utf8(bytes) {
        Ok(s) => Some(s.to_owned()),
        Err(_) => None,
    }
}

/// Parse STL bytes: binary when the size matches the header's triangle count,
/// otherwise UTF-8 ASCII.
pub fn parse_stl(path: &str, bytes: &[u8]) -> (r: Result<StlDocument, Error>)
    ensures
        looks_binary(bytes@) && binary_complete(bytes@) && binary_count(bytes@) > 0 ==> (r matches Ok(
            doc,
        ) && doc matches StlDocument::Binary(stl) && stl.triangles@ == Seq::new(
            binary_count(bytes@) as nat,
            |i: int| triangle_at(bytes@, i),
        )),
        looks_binary(bytes@) && binary_complete(bytes@) && binary_count(bytes@) == 0 ==> r matches Err(
            Error::EmptyMesh,
        ),
        looks_binary(bytes@) && !binary_complete(bytes@) ==> (r matches Err(e) && is_binary_stl_error(
            e,
            path@,
            "triangle data is truncated"@,
        )),
        !looks_binary(bytes@) && !vstd::utf8::valid_utf8(bytes@) ==> (r matches Err(e)
            && is_parse_error(e, path@, None, "STL is neither valid UTF-8 ASCII nor valid binary"@)),
        !looks_binary(bytes@) && vstd::utf8::valid_utf8(bytes@) ==> match parse_ascii_stl_spec(
            vstd::utf8::decode_utf8(bytes@),
        ) {
            Ok(st) => if st.facets.len() == 0 {
                r matches Err(Error::EmptyMesh)
            } else {
                r matches Ok(doc) && doc matches StlDocument::Ascii(stl) && facets_view(
                    stl.facets@,
                ) == st.facets
            },
            Err((line, issue)) => r matches Err(e) && is_parse_error(
                e,
                path@,
                Some(line as usize),
                stl_issue_message(issue),
            ),
        },
{
    if looks_like_binary_stl(bytes) {
        match parse_binary_stl(path, bytes) {
            Ok(stl) => Ok(StlDocument::Binary(stl)),
            Err(e) => Err(e),
        }
    } else {
        match utf8_text(bytes) {
            None => Err(
                Error::parse(
                    path,
                    None,
                    "STL is neither valid UTF-8 ASCII nor valid binary".to_owned(),
                ),
            ),
            Some(text) => match parse_ascii_stl(path, text.as_str()) {
                Ok(stl) => Ok(StlDocument::Ascii(stl)),
                Err(e) => Err(e),
            },
        }
    }
}

/// A binary STL file is its 84-byte header followed by 50-byte records:
/// triangle `i` is record `i` decoded on its own, the count is the header's
/// last four bytes, and a header announcing every record makes the file
/// complete.
pub proof fn law_binary_records(header: Seq<u8>, rs: Seq<Seq<u8>>, i: int)
    requires
        header.len() == 84,
        forall|k: int| 0 <= k < rs.len() ==> (#[trigger] rs[k]).len() == 50,
        0 <= i < rs.len(),
    ensures
        triangle_at(header + concat_records(rs), i) == decode_record(rs[i]),
        binary_count(header + concat_records(rs)) == le_u32(header, 80),
        le_u32(header, 80) == rs.len() ==> binary_complete(header + concat_records(rs)),
{
    lemma_concat_records(rs);
    let b = header + concat_records(rs);
    let r = rs[i];
    assert forall|t: int| 0 <= t < 50 implies b[84 + 50 * i + t] == #[trigger] r[t] by {
        assert(b[84 + 50 * i + t] == concat_records(rs)[50 * i + t]);
    }
    assert(b[80] == header[80] && b[81] == header[81] && b[82] == header[82] && b[83] == header[83]);
    assert forall|o: int| 0 <= o <= 36 && (o == 0 || o == 12 || o == 24 || o == 36) implies #[trigger] vector_at(
        b,
        84 + 50 * i + o,
    ) == vector_at(r, o) by {
        assert(b[84 + 50 * i + o] == r[o]);
        assert(b[84 + 50 * i + o + 1] == r[o + 1]);
        assert(b[84 + 50 * i + o + 2] == r[o + 2]);
        assert(b[84 + 50 * i + o + 3] == r[o + 3]);
        assert(b[84 + 50 * i + o + 4] == r[o + 4]);
        assert(b[84 + 50 * i + o + 5] == r[o + 5]);
        assert(b[84 + 50 * i + o + 6] == r[o + 6]);
        assert(b[84 + 50 * i + o + 7] == r[o + 7]);
        assert(b[84 + 50 * i + o + 8] == r[o + 8]);
        assert(b[84 + 50 * i + o + 9] == r[o + 9]);
        assert(b[84 + 50 * i + o + 10] == r[o + 10]);
        assert(b[84 + 50 * i + o + 11] == r[o + 11]);
    }
    assert(vector_at(b, 84 + 50 * i + 0) == vector_at(r, 0));
    assert(vector_at(b, 84 + 50 * i + 12) == vector_at(r, 12));
    assert(vector_at(b, 84 + 50 * i + 24) == vector_at(r, 24));
    assert(vector_at(b, 84 + 50 * i + 36) == vector_at(r, 36));
}

/// Binary STL words are little-endian: the first byte is the lowest, the
/// fourth the highest, and every word fits in 32 bits.
pub proof fn law_words_little_endian(b: Seq<u8>, at: int)
    requires
        0 <= at,
        at + 4 <= b.len(),
    ensures
        0 <= le_u32(b, at) < 4294967296,
        le_u32(b, at) % 256 == b[at] as int,
        le_u32(b, at) / 16777216 == b[at + 3] as int,
        (le_u32(b, at) / 256) % 256 == b[at + 1] as int,
        (le_u32(b, at) / 65536) % 256 == b[at + 2] as int,
{
    let x0 = b[at] as int;
    let x1 = b[at + 1] as int;
    let x2 = b[at + 2] as int;
    let x3 = b[at + 3] as int;
    let v = le_u32(b, at);
    assert(v == x0 + 256 * (x1 + 256 * (x2 + 256 * x3)));
    assert(0 <= v < 4294967296 && v % 256 == x0 && v / 16777216 == x3 && (v / 256) % 256 == x1 && (v
        / 65536) % 256 == x2) by (nonlinear_arith)
        requires
            0 <= x0 < 256,
            0 <= x1 < 256,
            0 <= x2 < 256,
            0 <= x3 < 256,
            v == x0 + 256 * (x1 + 256 * (x2 + 256 * x3)),
    ;
}

} // verus!
