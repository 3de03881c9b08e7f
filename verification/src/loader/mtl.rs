//! Wavefront MTL material parsing: `newmtl`, diffuse `Kd` colors and diffuse
//! `map_Kd` texture paths.

use vstd::prelude::*;

use crate::error::{is_parse_error, Error};
use crate::loader::paths::{base_dir, dir_of, join_matches, join_path, joined_to_dir_of};
use crate::model::TextureRef;
use crate::text::{
    all_float_tokens, all_floats, is_float_literal, chars_eq_str, chars_of, chars_view, comment_line_tokens,
    find_char, join_space, join_tokens, lemma_line_tokens, lines_of, string_of, token_strings,
    tokens_between, strings_view,
};

verus! {

/// Why an MTL line is rejected.
#[derive(Debug, Clone, Copy, PartialEq, Eq)]
pub enum MtlIssue {
    /// `newmtl` without a name.
    MissingName,
    /// `Kd` without three numbers.
    DiffuseInvalid,
}

pub open spec fn mtl_issue_message(issue: MtlIssue) -> Seq<char> {
    match issue {
        MtlIssue::MissingName => "newmtl requires a material name"@,
        MtlIssue::DiffuseInvalid => "Kd requires three float values"@,
    }
}

impl MtlIssue {
    /// The message reported for this issue.
    pub fn message(self) -> (s: String)
        ensures
            s@ == mtl_issue_message(self),
    {
        match self {
            MtlIssue::MissingName => "newmtl requires a material name".to_owned(),
            MtlIssue::DiffuseInvalid => "Kd requires three float values".to_owned(),
        }
    }
}

/// A material read from an MTL file.
#[derive(Debug, Clone, PartialEq, Eq)]
pub struct MtlMaterial {
    /// Material name from `newmtl`.
    pub name: String,
    /// Diffuse color tokens from `Kd` (three float literals); `None` means white.
    pub diffuse: Option<Vec<String>>,
    /// The `map_Kd` file name as written, without its options.
    pub texture_file: Option<String>,
    /// The `map_Kd` file resolved against the directory of the MTL file.
    pub diffuse_texture: Option<TextureRef>,
}

/// Abstract material.
#[verifier::ext_equal]
pub struct MtlModel {
    pub name: Seq<char>,
    pub diffuse: Option<Seq<Seq<char>>>,
    pub texture_file: Option<Seq<char>>,
}

/// Abstract parser state: finished materials and the one being defined.
#[verifier::ext_equal]
pub struct MtlState {
    pub done: Seq<MtlModel>,
    pub current: Option<MtlModel>,
}

pub open spec fn material_view(m: MtlMaterial) -> MtlModel {
    MtlModel {
        name: m.name@,
        diffuse: match m.diffuse {
            Some(d) => Some(strings_view(d@)),
            None => None,
        },
        texture_file: match m.texture_file {
            Some(f) => Some(f@),
            None => None,
        },
    }
}

pub open spec fn materials_view(ms: Seq<MtlMaterial>) -> Seq<MtlModel> {
    Seq::new(ms.len(), |i: int| material_view(ms[i]))
}

/// The resolved texture reference is present exactly with a texture file,
/// has no loaded index yet, and is the texture file joined to `base`.
pub open spec fn material_wf(m: MtlMaterial, base: Seq<char>) -> bool {
    &&& (m.diffuse_texture is Some <==> m.texture_file is Some)
    &&& (m.diffuse_texture matches Some(t) ==> t.index is None && (m.texture_file matches Some(
        f,
    ) && join_matches(base, f@, t.path@)))
}

/// The texture reference of a material read from the MTL file at `path`: present
/// exactly with a texture file, not loaded yet, and naming the texture file
/// resolved against the directory of `path`.
pub open spec fn texture_resolved(path: Seq<char>, m: MtlMaterial) -> bool {
    &&& (m.diffuse_texture is Some <==> m.texture_file is Some)
    &&& (m.diffuse_texture matches Some(t) ==> t.index is None && (m.texture_file matches Some(
        f,
    ) && joined_to_dir_of(path, f@, t.path@)))
}

/// Number of value tokens taken by a `map_Kd` option.
pub open spec fn option_arity(t: Seq<char>) -> nat {
    if t == "-mm"@ || t == "-o"@ || t == "-s"@ || t == "-t"@ {
        2
    } else if t == "-blendu"@ || t == "-blendv"@ || t == "-boost"@ || t == "-texres"@ || t
        == "-clamp"@ || t == "-bm"@ || t == "-imfchan"@ || t == "-type"@ {
        1
    } else {
        0
    }
}

/// The tokens of a `map_Kd` statement that name the file: options starting
/// with `-` are dropped together with their values.
pub open spec fn path_tokens(toks: Seq<Seq<char>>, skip: nat) -> Seq<Seq<char>>
    decreases toks.len(),
{
    if toks.len() == 0 {
        seq![]
    } else if skip > 0 {
        path_tokens(toks.drop_first(), (skip - 1) as nat)
    } else if toks[0].len() > 0 && toks[0][0] == '-' {
        path_tokens(toks.drop_first(), option_arity(toks[0]))
    } else {
        seq![toks[0]] + path_tokens(toks.drop_first(), 0)
    }
}

pub open spec fn strip_leading(s: Seq<char>, c: char) -> Seq<char>
    decreases s.len(),
{
    if s.len() > 0 && s[0] == c {
        strip_leading(s.drop_first(), c)
    } else {
        s
    }
}

pub open spec fn strip_trailing(s: Seq<char>, c: char) -> Seq<char>
    decreases s.len(),
{
    if s.len() > 0 && s.last() == c {
        strip_trailing(s.drop_last(), c)
    } else {
        s
    }
}

/// The texture file named by `map_Kd` arguments: the non-option tokens joined
/// by spaces, with surrounding double quotes removed.
pub open spec fn texture_path_spec(args: Seq<Seq<char>>) -> Option<Seq<char>> {
    let p = path_tokens(args, 0);
    if p.len() == 0 {
        None
    } else {
        Some(strip_trailing(strip_leading(join_space(p), '"'), '"'))
    }
}

pub open spec fn flush(st: MtlState) -> Seq<MtlModel> {
    match st.current {
        Some(m) => st.done.push(m),
        None => st.done,
    }
}

/// The effect of one line, given its tokens.
pub open spec fn mtl_line(st: MtlState, toks: Seq<Seq<char>>) -> Result<MtlState, MtlIssue> {
    if toks.len() == 0 {
        Ok(st)
    } else {
        let kw = toks[0];
        let args = toks.drop_first();
        if kw == "newmtl"@ {
            let name = join_space(args);
            if name.len() == 0 {
                Err(MtlIssue::MissingName)
            } else {
                Ok(
                    MtlState {
                        done: flush(st),
                        current: Some(MtlModel { name, diffuse: None, texture_file: None }),
                    },
                )
            }
        } else if kw == "Kd"@ {
            if !all_floats(args) || args.len() < 3 {
                Err(MtlIssue::DiffuseInvalid)
            } else {
                Ok(
                    match st.current {
                        Some(m) => MtlState {
                            current: Some(MtlModel { diffuse: Some(args.take(3)), ..m }),
                            ..st
                        },
                        None => st,
                    },
                )
            }
        } else if kw == "map_Kd"@ {
            match texture_path_spec(args) {
                Some(p) => Ok(
                    match st.current {
                        Some(m) => MtlState {
                            current: Some(MtlModel { texture_file: Some(p), ..m }),
                            ..st
                        },
                        None => st,
                    },
                ),
                None => Ok(st),
            }
        } else {
            Ok(st)
        }
    }
}

pub open spec fn mtl_run(st: MtlState, lines: Seq<Seq<char>>, line: int) -> Result<
    MtlState,
    (int, MtlIssue),
>
    decreases lines.len(),
{
    if lines.len() == 0 {
        Ok(st)
    } else {
        match mtl_line(st, comment_line_tokens(lines[0])) {
            Err(e) => Err((line, e)),
            Ok(next) => mtl_run(next, lines.drop_first(), line + 1),
        }
    }
}

/// Position of the first material named `name`, or `ms.len()`.
pub open spec fn name_position(ms: Seq<MtlModel>, name: Seq<char>) -> nat
    decreases ms.len(),
{
    if ms.len() == 0 {
        0
    } else if ms[0].name == name {
        0
    } else {
        1 + name_position(ms.drop_first(), name)
    }
}

/// One material per name, in order of first definition, each holding the last
/// definition made under its name.
pub open spec fn dedup_last(ms: Seq<MtlModel>) -> Seq<MtlModel>
    decreases ms.len(),
{
    if ms.len() == 0 {
        seq![]
    } else {
        let prev = dedup_last(ms.drop_last());
        let m = ms.last();
        let i = name_position(prev, m.name);
        if i < prev.len() {
            prev.update(i as int, m)
        } else {
            prev.push(m)
        }
    }
}

/// The MTL reading of a whole text.
pub open spec fn parse_mtl_spec(text: Seq<char>) -> Result<Seq<MtlModel>, (int, MtlIssue)> {
    match mtl_run(MtlState { done: seq![], current: None }, lines_of(text), 1) {
        Ok(st) => Ok(dedup_last(flush(st))),
        Err(e) => Err(e),
    }
}

proof fn lemma_name_position(ms: Seq<MtlModel>, name: Seq<char>)
    ensures
        name_position(ms, name) <= ms.len(),
        name_position(ms, name) < ms.len() ==> ms[name_position(ms, name) as int].name == name,
        forall|k: int| 0 <= k < name_position(ms, name) ==> ms[k].name != name,
    decreases ms.len(),
{
    if ms.len() > 0 && ms[0].name != name {
        lemma_name_position(ms.drop_first(), name);
        assert forall|k: int| 0 <= k < name_position(ms, name) implies ms[k].name != name by {
            if k > 0 {
                assert(ms[k] == ms.drop_first()[k - 1]);
            }
        }
    }
}

proof fn lemma_name_position_at(ms: Seq<MtlModel>, name: Seq<char>, k: int)
    requires
        0 <= k <= ms.len(),
        k < ms.len() ==> ms[k].name == name,
        forall|i: int| 0 <= i < k ==> ms[i].name != name,
    ensures
        name_position(ms, name) == k,
    decreases ms.len(),
{
    if ms.len() > 0 && k > 0 {
        assert forall|i: int| 0 <= i < k - 1 implies ms.drop_first()[i].name != name by {
            assert(ms.drop_first()[i] == ms[i + 1]);
        }
        if k - 1 < ms.drop_first().len() {
            assert(ms.drop_first()[k - 1] == ms[k]);
        }
        lemma_name_position_at(ms.drop_first(), name, k - 1);
    }
}

/// The texture file named by the `map_Kd` arguments `toks[from..]`.
pub fn parse_texture_path(toks: &Vec<Vec<char>>, from: usize) -> (r: Option<String>)
    requires
        from <= toks.len(),
    ensures
        match texture_path_spec(chars_view(toks@).skip(from as int)) {
            Some(p) => r matches Some(s) && s@ == p,
            None => r is None,
        },
{
    let ghost args = chars_view(toks@).skip(from as int);
    let mut kept: Vec<Vec<char>> = Vec::new();
    let mut skip: usize = 0;
    let mut i = from;
    proof {
        assert(args.skip(0) =~= args);
        assert(chars_view(kept@) + path_tokens(args, 0) =~= path_tokens(args, 0));
    }
    while i < toks.len()
        invariant
            from <= i <= toks.len(),
            skip <= 2,
            args == chars_view(toks@).skip(from as int),
            path_tokens(args, 0) == chars_view(kept@) + path_tokens(
                args.skip(i - from),
                skip as nat,
            ),
        decreases toks.len() - i,
    {
        let ghost rest = args.skip(i - from);
        proof {
            assert(rest[0] == toks@[i as int]@);
            assert(rest.drop_first() =~= args.skip(i - from + 1));
        }
        let t = &toks[i];
        if skip > 0 {
            skip = skip - 1;
        } else if t.len() > 0 && t[0] == '-' {
            skip = if chars_eq_str(t, "-mm") || chars_eq_str(t, "-o") || chars_eq_str(t, "-s")
                || chars_eq_str(t, "-t") {
                2
            } else if chars_eq_str(t, "-blendu") || chars_eq_str(t, "-blendv") || chars_eq_str(
                t,
                "-boost",
            ) || chars_eq_str(t, "-texres") || chars_eq_str(t, "-clamp") || chars_eq_str(t, "-bm")
                || chars_eq_str(t, "-imfchan") || chars_eq_str(t, "-type") {
                1
            } else {
                0
            };
        } else {
            let ghost before = kept@;
            kept.push(t.clone());
            proof {
                assert(chars_view(kept@) =~= chars_view(before).push(t@));
                let tail = path_tokens(args.skip(i - from + 1), 0);
                assert(chars_view(before) + (seq![t@] + tail) =~= chars_view(kept@) + tail);
            }
        }
        i += 1;
    }
    proof {
        assert(args.skip(i - from) =~= Seq::<Seq<char>>::empty());
        assert(chars_view(kept@) + Seq::<Seq<char>>::empty() =~= chars_view(kept@));
    }
    if kept.len() == 0 {
        return None;
    }
    let joined = join_tokens(&kept, 0);
    proof {
        assert(chars_view(kept@).skip(0) =~= chars_view(kept@));
    }
    let n = joined.len();
    let mut a: usize = 0;
    proof {
        assert(joined@.skip(0) =~= joined@);
    }
    while a < n && joined[a] == '"'
        invariant
            a <= n == joined.len(),
            strip_leading(joined@, '"') == strip_leading(joined@.skip(a as int), '"'),
        decreases n - a,
    {
        proof {
            assert(joined@.skip(a as int).drop_first() =~= joined@.skip(a + 1));
        }
        a += 1;
    }
    let ghost lead = joined@.skip(a as int);
    let mut b: usize = n;
    proof {
        assert(lead.take(lead.len() as int) =~= lead);
    }
    while b > a && joined[b - 1] == '"'
        invariant
            a <= b <= n == joined.len(),
            lead == joined@.skip(a as int),
            strip_trailing(lead, '"') == strip_trailing(lead.take(b - a), '"'),
        decreases b - a,
    {
        proof {
            assert(lead.take(b - a).drop_last() =~= lead.take(b - a - 1));
        }
        b -= 1;
    }
    proof {
        assert(lead.take(b - a) =~= joined@.subrange(a as int, b as int));
    }
    let s = string_of(vstd::slice::slice_subrange(joined.as_slice(), a, b));
    Some(s)
}


/// `m` added to a list of distinctly named materials: it replaces the entry
/// with its name, or is appended.
pub open spec fn insert_by_name(prev: Seq<MtlModel>, m: MtlModel) -> Seq<MtlModel> {
    let i = name_position(prev, m.name);
    if i < prev.len() {
        prev.update(i as int, m)
    } else {
        prev.push(m)
    }
}

pub open spec fn current_view(c: Option<MtlMaterial>) -> Option<MtlModel> {
    match c {
        Some(m) => Some(material_view(m)),
        None => None,
    }
}

pub open spec fn all_wf(ms: Seq<MtlMaterial>, base: Seq<char>) -> bool {
    forall|i: int| 0 <= i < ms.len() ==> material_wf(#[trigger] ms[i], base)
}

pub open spec fn current_wf(c: Option<MtlMaterial>, base: Seq<char>) -> bool {
    c matches Some(m) ==> material_wf(m, base)
}

/// Add `m` to distinctly named materials, replacing the one with its name.
fn insert_material(done: &mut Vec<MtlMaterial>, m: MtlMaterial, Ghost(base): Ghost<Seq<char>>)
    requires
        all_wf(old(done)@, base),
        material_wf(m, base),
    ensures
        materials_view(final(done)@) == insert_by_name(materials_view(old(done)@), material_view(m)),
        all_wf(final(done)@, base),
{
    let ghost prev = materials_view(done@);
    let mut i: usize = 0;
    while i < done.len() && !(done[i].name == m.name)
        invariant
            i <= done.len(),
            prev == materials_view(done@),
            forall|k: int| 0 <= k < i ==> prev[k].name != m.name@,
        decreases done.len() - i,
    {
        i += 1;
    }
    proof {
        lemma_name_position_at(prev, m.name@, i as int);
    }
    if i < done.len() {
        done.set(i, m);
        proof {
            assert(materials_view(done@) =~= prev.update(i as int, material_view(m)));
        }
    } else {
        done.push(m);
        proof {
            assert(materials_view(done@) =~= prev.push(material_view(m)));
        }
    }
}

/// Apply one line, given its tokens. `done` holds the finished materials with
/// one entry per name; `raw` is the list of all finished definitions.
fn apply_mtl_line(
    done: &mut Vec<MtlMaterial>,
    current: &mut Option<MtlMaterial>,
    toks: &Vec<Vec<char>>,
    base: &str,
    Ghost(raw): Ghost<Seq<MtlModel>>,
) -> (r: Result<(), MtlIssue>)
    requires
        dedup_last(raw) == materials_view(old(done)@),
        all_wf(old(done)@, base@),
        current_wf(*old(current), base@),
    ensures
        all_wf(final(done)@, base@),
        current_wf(*final(current), base@),
        match mtl_line(MtlState { done: raw, current: current_view(*old(current)) }, chars_view(toks@)) {
            Ok(st) => r is Ok && dedup_last(st.done) == materials_view(final(done)@) && st.current
                == current_view(*final(current)),
            Err(e) => r == Err::<(), MtlIssue>(e),
        },
{
    let ghost all = chars_view(toks@);
    if toks.len() == 0 {
        return Ok(());
    }
    let ghost args = all.drop_first();
    proof {
        assert(all[0] == toks@[0]@);
        assert(args =~= all.skip(1));
    }
    let kw = &toks[0];
    if chars_eq_str(kw, "newmtl") {
        let name = join_tokens(toks, 1);
        if name.len() == 0 {
            return Err(MtlIssue::MissingName);
        }
        match current.take() {
            Some(m) => {
                insert_material(done, m, Ghost(base@));
                proof {
                    let flushed = raw.push(material_view(m));
                    assert(flushed.drop_last() =~= raw);
                }
            },
            None => {},
        }
        *current = Some(
            MtlMaterial {
                name: string_of(name.as_slice()),
                diffuse: None,
                texture_file: None,
                diffuse_texture: None,
            },
        );
        Ok(())
    } else if chars_eq_str(kw, "Kd") {
        if !all_float_tokens(toks, 1) || toks.len() - 1 < 3 {
            return Err(MtlIssue::DiffuseInvalid);
        }
        match current.take() {
            Some(m) => {
                let values = token_strings(toks, 1, 3);
                proof {
                    assert(args.take(3) =~= all.subrange(1, 4));
                }
                let mut m = m;
                m.diffuse = Some(values);
                *current = Some(m);
            },
            None => {},
        }
        Ok(())
    } else if chars_eq_str(kw, "map_Kd") {
        match parse_texture_path(toks, 1) {
            Some(p) => {
                match current.take() {
                    Some(m) => {
                        let resolved = join_path(base, p.as_str());
                        let mut m = m;
                        m.texture_file = Some(p);
                        m.diffuse_texture = Some(TextureRef::new(resolved));
                        *current = Some(m);
                    },
                    None => {},
                }
            },
            None => {},
        }
        Ok(())
    } else {
        Ok(())
    }
}

/// Parse Wavefront MTL content. Errors name `path` and the 1-based line of the
/// first malformed `newmtl` or `Kd`. Materials come one per name, in order of
/// first definition, each holding the last definition made under its name;
/// `map_Kd` files are resolved against the directory of `path`.
pub fn parse_mtl(path: &str, text: &str) -> (r: Result<Vec<MtlMaterial>, Error>)
    ensures
        match parse_mtl_spec(text@) {
            Ok(ms) => r matches Ok(v) && materials_view(v@) == ms && forall|i: int|
                0 <= i < v@.len() ==> texture_resolved(path@, #[trigger] v@[i]),
            Err((line, issue)) => r matches Err(e) && is_parse_error(
                e,
                path@,
                Some(line as usize),
                mtl_issue_message(issue),
            ),
        },
{
    let base = base_dir(path);
    let chars = chars_of(text);
    let n = chars.len();
    let mut done: Vec<MtlMaterial> = Vec::new();
    let mut current: Option<MtlMaterial> = None;
    let ghost mut raw: Seq<MtlModel> = seq![];
    let mut pos: usize = 0;
    let mut line: usize = 1;
    proof {
        assert(chars@.skip(0) =~= chars@);
        assert(materials_view(done@) =~= Seq::<MtlModel>::empty());
    }
    loop
        invariant_except_break
            pos <= n,
            line <= pos + 1,
            mtl_run(MtlState { done: seq![], current: None }, lines_of(text@), 1) == mtl_run(
                MtlState { done: raw, current: current_view(current) },
                lines_of(chars@.skip(pos as int)),
                line as int,
            ),
        invariant
            n == chars.len(),
            chars@ == text@,
            n <= isize::MAX,
            dedup_last(raw) == materials_view(done@),
            all_wf(done@, base@),
            current_wf(current, base@),
            dir_of(path@, base@),
        ensures
            mtl_run(MtlState { done: seq![], current: None }, lines_of(text@), 1) == Ok::<
                MtlState,
                (int, MtlIssue),
            >(MtlState { done: raw, current: current_view(current) }),
        decreases n - pos,
    {
        let k = find_char(&chars, pos, n, '\n');
        let h = find_char(&chars, pos, k, '#');
        let toks = tokens_between(&chars, pos, h);
        proof {
            lemma_line_tokens(chars@, pos as int, k as int, h as int);
        }
        let ghost before = MtlState { done: raw, current: current_view(current) };
        match apply_mtl_line(&mut done, &mut current, &toks, base.as_str(), Ghost(raw)) {
            Err(issue) => {
                return Err(Error::parse(path, Some(line), issue.message()));
            },
            Ok(()) => {},
        }
        proof {
            let next = mtl_line(before, chars_view(toks@))->Ok_0;
            raw = next.done;
            assert(next =~= MtlState { done: raw, current: current_view(current) });
        }
        if k == n {
            proof {
                let rest = lines_of(chars@.skip(pos as int));
                assert(rest.drop_first() =~= Seq::<Seq<char>>::empty());
                assert(comment_line_tokens(rest[0]) == chars_view(toks@));
                assert(mtl_line(before, comment_line_tokens(rest[0])) is Ok);
                assert(mtl_run(before, rest, line as int) == mtl_run(
                    MtlState { done: raw, current: current_view(current) },
                    rest.drop_first(),
                    line + 1,
                ));
            }
            break ;
        }
        pos = k + 1;
        line = line + 1;
    }
    let ghost st = MtlState { done: raw, current: current_view(current) };
    match current {
        Some(m) => {
            insert_material(&mut done, m, Ghost(base@));
            proof {
                assert(flush(st).drop_last() =~= raw);
            }
        },
        None => {},
    }
    proof {
        assert forall|i: int| 0 <= i < done@.len() implies texture_resolved(path@, #[trigger] done@[i]) by {
            assert(material_wf(done@[i], base@));
        }
    }
    Ok(done)
}

/// No two materials share a name.
pub open spec fn names_distinct(ms: Seq<MtlModel>) -> bool {
    forall|i: int, j: int|
        0 <= i < ms.len() && 0 <= j < ms.len() && i != j ==> #[trigger] ms[i].name
            != #[trigger] ms[j].name
}

/// `m` is a definition among `defs` that no later definition of its name
/// follows.
pub open spec fn last_definition(defs: Seq<MtlModel>, m: MtlModel) -> bool {
    exists|i: int|
        0 <= i < defs.len() && #[trigger] defs[i] == m && forall|k: int|
            i < k < defs.len() ==> (#[trigger] defs[k]).name != m.name
}

/// Some material in `ms` has the name `name`.
pub open spec fn has_name(ms: Seq<MtlModel>, name: Seq<char>) -> bool {
    exists|j: int| 0 <= j < ms.len() && (#[trigger] ms[j]).name == name
}

/// Reading material definitions keeps one material per name: every defined
/// name is present once, with the last definition made under it.
pub proof fn law_one_material_per_name(defs: Seq<MtlModel>)
    ensures
        names_distinct(dedup_last(defs)),
        forall|i: int| 0 <= i < defs.len() ==> has_name(dedup_last(defs), (#[trigger] defs[i]).name),
        forall|j: int|
            0 <= j < dedup_last(defs).len() ==> last_definition(defs, #[trigger] dedup_last(defs)[j]),
    decreases defs.len(),
{
    if defs.len() > 0 {
        let ys = defs.drop_last();
        let m = defs.last();
        let prev = dedup_last(ys);
        let d = dedup_last(defs);
        law_one_material_per_name(ys);
        lemma_name_position(prev, m.name);
        let pos = name_position(prev, m.name);
        assert(forall|k: int| 0 <= k < ys.len() ==> ys[k] == defs[k]);
        if pos < prev.len() {
            assert(d == prev.update(pos as int, m));
            assert(forall|j: int| 0 <= j < d.len() ==> (#[trigger] d[j]).name == prev[j].name);
        } else {
            assert(d == prev.push(m));
        }
        assert forall|i: int, j: int|
            0 <= i < d.len() && 0 <= j < d.len() && i != j implies #[trigger] d[i].name
            != #[trigger] d[j].name by {
            if pos >= prev.len() {
                if i < prev.len() && j < prev.len() {
                    assert(prev[i].name != prev[j].name);
                }
            } else {
                assert(prev[i].name != prev[j].name);
            }
        }
        assert forall|i: int| 0 <= i < defs.len() implies has_name(d, (#[trigger] defs[i]).name) by {
            if i == defs.len() - 1 {
                if pos < prev.len() {
                    assert(d[pos as int].name == m.name);
                } else {
                    assert(d[prev.len() as int] == m);
                }
            } else {
                assert(has_name(prev, ys[i].name));
                let j = choose|j: int| 0 <= j < prev.len() && (#[trigger] prev[j]).name == ys[i].name;
                assert(d[j].name == prev[j].name);
            }
        }
        assert forall|j: int| 0 <= j < d.len() implies last_definition(defs, #[trigger] d[j]) by {
            let last = defs.len() - 1;
            if d[j] == m {
                assert(defs[last] == m);
            } else {
                assert(j < prev.len() && d[j] == prev[j]);
                assert(last_definition(ys, prev[j]));
                let i = choose|i: int|
                    0 <= i < ys.len() && #[trigger] ys[i] == prev[j] && forall|k: int|
                        i < k < ys.len() ==> (#[trigger] ys[k]).name != prev[j].name;
                assert(prev[j].name != m.name) by {
                    if pos < prev.len() {
                        assert(j != pos);
                        assert(prev[j].name != prev[pos as int].name);
                    }
                }
                assert(defs[i] == prev[j]);
                assert forall|k: int| i < k < defs.len() implies (#[trigger] defs[k]).name != d[j].name by {
                    if k < ys.len() {
                        assert(ys[k].name != prev[j].name);
                    }
                }
            }
        }
    }
}

/// A parsed MTL text names each of its materials once.
pub proof fn law_mtl_names_distinct(text: Seq<char>)
    ensures
        parse_mtl_spec(text) matches Ok(ms) ==> names_distinct(ms),
{
    if let Ok(st) = mtl_run(MtlState { done: seq![], current: None }, lines_of(text), 1) {
        law_one_material_per_name(flush(st));
    }
}

/// The diffuse color of the material being defined, if one is.
pub open spec fn current_diffuse(st: MtlState) -> Option<Option<Seq<Seq<char>>>> {
    match st.current {
        Some(m) => Some(m.diffuse),
        None => None,
    }
}

/// The texture file of the material being defined, if one is.
pub open spec fn current_texture(st: MtlState) -> Option<Option<Seq<char>>> {
    match st.current {
        Some(m) => Some(m.texture_file),
        None => None,
    }
}

proof fn lemma_mtl_keywords_differ()
    ensures
        "newmtl"@ != "Kd"@,
        "newmtl"@ != "map_Kd"@,
        "Kd"@ != "map_Kd"@,
{
    reveal_strlit("newmtl");
    reveal_strlit("Kd");
    reveal_strlit("map_Kd");
    assert("newmtl"@.len() == 6 && "Kd"@.len() == 2 && "map_Kd"@.len() == 6);
    assert("newmtl"@[0] != "map_Kd"@[0]);
}

/// The statements of a material are independent: a line other than `newmtl`
/// keeps the finished materials and the name of the material being defined;
/// only `Kd` changes its diffuse color, which becomes the line's first three
/// numbers, and only `map_Kd` changes its texture file.
pub proof fn law_mtl_statements_independent(st: MtlState, toks: Seq<Seq<char>>)
    requires
        toks.len() >= 1,
        toks[0] != "newmtl"@,
    ensures
        mtl_line(st, toks) matches Ok(next) ==> ({
            &&& next.done == st.done
            &&& (next.current is Some <==> st.current is Some)
            &&& (st.current matches Some(m) ==> next.current->Some_0.name == m.name)
            &&& (toks[0] != "Kd"@ ==> current_diffuse(next) == current_diffuse(st))
            &&& (toks[0] != "map_Kd"@ ==> current_texture(next) == current_texture(st))
        }),
        toks[0] == "Kd"@ && toks.len() >= 4 && (forall|i: int|
            1 <= i < toks.len() ==> is_float_literal(#[trigger] toks[i])) ==> (mtl_line(st, toks) matches Ok(
            next,
        ) && (st.current is Some ==> current_diffuse(next) == Some(
            Some(seq![toks[1], toks[2], toks[3]]),
        ))),
{
    lemma_mtl_keywords_differ();
    let args = toks.drop_first();
    if toks[0] == "Kd"@ && toks.len() >= 4 && (forall|i: int|
        1 <= i < toks.len() ==> is_float_literal(#[trigger] toks[i])) {
        assert forall|i: int| 0 <= i < args.len() implies is_float_literal(#[trigger] args[i]) by {
            assert(args[i] == toks[i + 1]);
        }
        assert(args.take(3) =~= seq![toks[1], toks[2], toks[3]]);
    }
}

/// Lines that are neither `newmtl` nor `Kd` keep the diffuse color of the
/// material being defined: its color is that of its last `Kd` line, whatever
/// `map_Kd` or other lines follow.
pub proof fn law_diffuse_survives_other_lines(st: MtlState, lines: Seq<Seq<char>>, line: int)
    requires
        forall|k: int|
            0 <= k < lines.len() ==> (#[trigger] comment_line_tokens(lines[k])).len() == 0 || (
            comment_line_tokens(lines[k])[0] != "newmtl"@ && comment_line_tokens(lines[k])[0]
                != "Kd"@),
    ensures
        mtl_run(st, lines, line) matches Ok(fin) ==> current_diffuse(fin) == current_diffuse(st)
            && fin.done == st.done,
    decreases lines.len(),
{
    if lines.len() > 0 {
        let toks = comment_line_tokens(lines[0]);
        if toks.len() > 0 {
            law_mtl_statements_independent(st, toks);
        }
        if let Ok(next) = mtl_line(st, toks) {
            assert forall|k: int| 0 <= k < lines.drop_first().len() implies (#[trigger] comment_line_tokens(
                lines.drop_first()[k],
            )).len() == 0 || (comment_line_tokens(lines.drop_first()[k])[0] != "newmtl"@
                && comment_line_tokens(lines.drop_first()[k])[0] != "Kd"@) by {
                assert(lines.drop_first()[k] == lines[k + 1]);
            }
            law_diffuse_survives_other_lines(next, lines.drop_first(), line + 1);
        }
    }
}

/// `newmtl` finishes the material being defined, if any, and starts a fresh
/// one with no color and no texture, named by the rest of the line; a
/// `newmtl` line without a name is an error.
pub proof fn law_newmtl_starts_fresh(st: MtlState, toks: Seq<Seq<char>>)
    requires
        toks.len() >= 1,
        toks[0] == "newmtl"@,
    ensures
        toks.len() == 1 ==> mtl_line(st, toks) == Err::<MtlState, MtlIssue>(MtlIssue::MissingName),
        mtl_line(st, toks) matches Ok(n) ==> {
            &&& n.done == match st.current {
                Some(m) => st.done.push(m),
                None => st.done,
            }
            &&& n.current matches Some(m) && m.diffuse is None && m.texture_file is None
                && m.name.len() > 0
        },
{
    assert(toks.drop_first().len() == 0 ==> join_space(toks.drop_first()) =~= Seq::<char>::empty());
}

} // verus!
