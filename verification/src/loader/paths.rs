//! File-system path handling through `std::path`.
//!
//! Path syntax differs between platforms, so of what these functions return
//! only the facts that hold on every platform are stated.

use vstd::prelude::*;

verus! {

/// `s` holds neither `\\` nor `:`, the characters whose meaning differs
/// between platforms (a Windows separator and drive prefix).
pub open spec fn portable_text(s: Seq<char>) -> bool {
    forall|i: int| 0 <= i < s.len() ==> #[trigger] s[i] != '\\' && s[i] != ':'
}

/// `s` starts with two `/`, which Windows reads as a network prefix.
pub open spec fn starts_with_double_slash(s: Seq<char>) -> bool {
    s.len() >= 2 && s[0] == '/' && s[1] == '/'
}

/// Index of the last `c` in `s`, or `-1` when there is none.
pub open spec fn last_index(s: Seq<char>, c: char) -> int
    decreases s.len(),
{
    if s.len() == 0 {
        -1
    } else if s.last() == c {
        s.len() - 1
    } else {
        last_index(s.drop_last(), c)
    }
}

/// `s` is `.` or `..`.
pub open spec fn is_dot_name(s: Seq<char>) -> bool {
    s == seq!['.'] || s == seq!['.', '.']
}

/// The file name of a path written in the syntax every platform shares (`/`
/// separates): the text after its last `/`, when that is a name.
pub open spec fn portable_file_name(path: Seq<char>) -> Option<Seq<char>> {
    let n = path.skip(last_index(path, '/') + 1);
    if portable_text(path) && !starts_with_double_slash(path) && n.len() > 0 && !is_dot_name(n) {
        Some(n)
    } else {
        None
    }
}

/// The extension of a file name: the text after its last `.`, none when it
/// has no `.` or only a leading one.
pub open spec fn name_extension(n: Seq<char>) -> Option<Seq<char>> {
    let k = last_index(n, '.');
    if k <= 0 {
        None
    } else {
        Some(n.skip(k + 1))
    }
}

/// A path in the shared syntax whose parent is plain to read: no empty, `.`
/// or `..` component to normalize, and no trailing `/`.
pub open spec fn simple_path(path: Seq<char>) -> bool {
    &&& path.len() > 0
    &&& portable_text(path)
    &&& path.last() != '/'
    &&& forall|i: int| 0 <= i < path.len() - 1 ==> !(#[trigger] path[i] == '/' && path[i + 1] == '/')
    &&& forall|i: int|
        0 <= i < path.len() && #[trigger] path[i] == '.' && (i == 0 || path[i - 1] == '/') ==> !(
        i + 1 == path.len() || path[i + 1] == '/')
    &&& !is_dot_name(path.skip(last_index(path, '/') + 1))
}

/// The parent of a simple path: the text before its last `/` (`/` itself
/// for a name under the root), the empty path for a bare name.
pub open spec fn simple_parent(path: Seq<char>) -> Option<Seq<char>> {
    let k = last_index(path, '/');
    if !simple_path(path) {
        None
    } else if k < 0 {
        Some(seq![])
    } else if k == 0 {
        Some(seq!['/'])
    } else {
        Some(path.take(k))
    }
}

/// Joining `rel` to `base` is plain to read: both are in the shared syntax,
/// `rel` has no root and `base` no network prefix.
pub open spec fn join_plain(base: Seq<char>, rel: Seq<char>) -> bool {
    &&& portable_text(base)
    &&& portable_text(rel)
    &&& !starts_with_double_slash(base)
    &&& !(rel.len() > 0 && rel[0] == '/')
}

/// `r` is `base` joined with `rel`, where that is plain to read: `rel`
/// appended, after a separator (`/` or the platform's `\\`) unless `base` is
/// empty or already ends in `/`.
pub open spec fn join_matches(base: Seq<char>, rel: Seq<char>, r: Seq<char>) -> bool {
    join_plain(base, rel) ==> if base.len() == 0 || base.last() == '/' {
        r == base + rel
    } else {
        r == base + seq!['/'] + rel || r == base + seq!['\\'] + rel
    }
}

/// What is known of the directory `d` that holds `path`: `"."` for the empty
/// path, the parent for a simple path, and otherwise `"."` or something
/// shorter than the path.
pub open spec fn dir_of(path: Seq<char>, d: Seq<char>) -> bool {
    &&& path.len() == 0 ==> d == seq!['.']
    &&& d == seq!['.'] || d.len() < path.len()
    &&& simple_parent(path) matches Some(p) ==> d == p
}

/// `r` is `rel` joined to the directory that holds the file at `path`.
pub open spec fn joined_to_dir_of(path: Seq<char>, rel: Seq<char>, r: Seq<char>) -> bool {
    exists|d: Seq<char>| #[trigger] dir_of(path, d) && join_matches(d, rel, r)
}

/// `std::path::Path::parent` of `path`, as a string: the path without its
/// final component, `None` for the empty path. For a simple path (see
/// [`simple_path`]) every platform gives the text before the last `/`;
/// otherwise which part is the final component is not stated, only that the
/// parent is shorter than the path.
#[verifier::external_body]
fn path_parent(path: &str) -> (r: Option<String>)
    ensures
        path@.len() == 0 ==> r is None,
        r matches Some(p) ==> p@.len() < path@.len(),
        simple_parent(path@) is Some ==> r is Some,
        r matches Some(q) ==> (simple_parent(path@) matches Some(p) ==> q@ == p),
{
    match std::path::Path::new(path).parent() {
        Some(p) => Some(p.to_string_lossy().into_owned()),
        None => None,
    }
}

/// `std::path::Path::join` of `base` and `rel`, as a string: for a relative
/// `rel` in the shared syntax, `rel` appended to `base` after the platform's
/// separator when `base` needs one (see [`join_matches`]). Other cases follow
/// the platform's path syntax and are not stated.
#[verifier::external_body]
pub(crate) fn join_path(base: &str, rel: &str) -> (r: String)
    ensures
        join_matches(base@, rel@, r@),
{
    std::path::Path::new(base).join(rel).to_string_lossy().into_owned()
}

/// `path` holds a `.` directly followed by `e`, and `e` holds no `.`: the
/// shape of the part of a file name after its last `.`.
pub open spec fn names_extension(path: Seq<char>, e: Seq<char>) -> bool {
    &&& !e.contains('.')
    &&& exists|k: int|
        1 <= k && k + e.len() <= path.len() && path[k - 1] == '.' && #[trigger] path.subrange(
            k,
            k + e.len(),
        ) == e
}

/// `std::path::Path::extension` of `path`, as a string: the part of the file
/// name after its last `.`, a slice of the path. For a path in the syntax
/// every platform shares the file name is the text after the last `/`; for
/// other paths which part is the file name is not stated.
#[verifier::external_body]
pub(crate) fn path_extension(path: &str) -> (r: Option<String>)
    ensures
        r matches Some(e) ==> names_extension(path@, e@),
        portable_file_name(path@) matches Some(n) ==> match name_extension(n) {
            Some(x) => (r matches Some(e) && e@ == x),
            None => r is None,
        },
{
    match std::path::Path::new(path).extension() {
        Some(e) => Some(e.to_string_lossy().into_owned()),
        None => None,
    }
}

/// The directory named by a path's parent: the parent itself, or `"."` when
/// there is none.
pub fn dir_or_current(parent: Option<String>) -> (d: String)
    ensures
        match parent {
            Some(p) => d@ == p@,
            None => d@ == "."@,
        },
{
    match parent {
        Some(p) => p,
        None => ".".to_owned(),
    }
}

/// The directory that holds `path`, or `"."` when the path has no parent.
pub fn base_dir(path: &str) -> (d: String)
    ensures
        dir_of(path@, d@),
{
    let d = dir_or_current(path_parent(path));
    proof {
        reveal_strlit(".");
        assert("."@ =~= seq!['.']);
    }
    d
}

} // verus!
