//! Character-level building blocks shared by the text mesh formats: line
//! splitting, comment stripping, whitespace tokenization and number tokens.

use vstd::prelude::*;

verus! {

/// Unicode `White_Space` characters, the set that `str::trim` and
/// `str::split_whitespace` treat as separators.
pub open spec fn is_ws(c: char) -> bool {
    let v = c as u32;
    (9 <= v <= 13) || v == 32 || v == 0x85 || v == 0xa0 || v == 0x1680 || (0x2000 <= v
        <= 0x200a) || v == 0x2028 || v == 0x2029 || v == 0x202f || v == 0x205f || v == 0x3000
}

/// Index of the first occurrence of `c` in `s`, or `s.len()` when absent.
pub open spec fn first_index(s: Seq<char>, c: char) -> nat
    decreases s.len(),
{
    if s.len() == 0 {
        0
    } else if s[0] == c {
        0
    } else {
        1 + first_index(s.drop_first(), c)
    }
}

/// `s` split at every `c`, keeping empty pieces (the shape of `str::split`).
pub open spec fn split_on(s: Seq<char>, c: char) -> Seq<Seq<char>>
    decreases s.len(),
{
    let k = first_index(s, c);
    if k >= s.len() {
        seq![s]
    } else {
        seq![s.take(k as int)] + split_on(s.skip(k + 1 as int), c)
    }
}

/// The lines of a text: the pieces between `'\n'` characters.
pub open spec fn lines_of(s: Seq<char>) -> Seq<Seq<char>> {
    split_on(s, '\n')
}

/// The part of a line before its first `'#'` comment marker.
pub open spec fn before_hash(s: Seq<char>) -> Seq<char> {
    s.take(first_index(s, '#') as int)
}

/// Maximal runs of non-whitespace characters, in order.
pub open spec fn ws_tokens(s: Seq<char>) -> Seq<Seq<char>>
    decreases s.len(),
{
    if s.len() == 0 {
        seq![]
    } else {
        let prev = ws_tokens(s.drop_last());
        let c = s.last();
        if is_ws(c) {
            prev
        } else if s.len() >= 2 && !is_ws(s[s.len() - 2]) {
            prev.update(prev.len() - 1, prev.last().push(c))
        } else {
            prev.push(seq![c])
        }
    }
}

/// Tokens of a line of a format whose comments start with `'#'`.
pub open spec fn comment_line_tokens(line: Seq<char>) -> Seq<Seq<char>> {
    ws_tokens(before_hash(line))
}

/// The views of a sequence of character vectors.
pub open spec fn chars_view(v: Seq<Vec<char>>) -> Seq<Seq<char>> {
    Seq::new(v.len(), |i: int| v[i]@)
}

/// The views of a sequence of strings.
pub open spec fn strings_view(v: Seq<String>) -> Seq<Seq<char>> {
    Seq::new(v.len(), |i: int| v[i]@)
}

/// Tokens joined by single spaces.
pub open spec fn join_space(toks: Seq<Seq<char>>) -> Seq<char>
    decreases toks.len(),
{
    if toks.len() == 0 {
        seq![]
    } else if toks.len() == 1 {
        toks[0]
    } else {
        join_space(toks.drop_last()) + seq![' '] + toks.last()
    }
}

pub proof fn lemma_first_index_bound(s: Seq<char>, c: char)
    ensures
        first_index(s, c) <= s.len(),
        first_index(s, c) < s.len() ==> s[first_index(s, c) as int] == c,
        forall|i: int| 0 <= i < first_index(s, c) ==> s[i] != c,
    decreases s.len(),
{
    if s.len() > 0 && s[0] != c {
        lemma_first_index_bound(s.drop_first(), c);
        assert forall|i: int| 0 <= i < first_index(s, c) implies s[i] != c by {
            if i > 0 {
                assert(s[i] == s.drop_first()[i - 1]);
            }
        }
    }
}

/// `first_index` is determined by the first occurrence.
pub proof fn lemma_first_index_at(s: Seq<char>, c: char, k: int)
    requires
        0 <= k <= s.len(),
        k < s.len() ==> s[k] == c,
        forall|i: int| 0 <= i < k ==> s[i] != c,
    ensures
        first_index(s, c) == k,
    decreases s.len(),
{
    if s.len() > 0 && k > 0 {
        assert(s[0] != c);
        assert forall|i: int| 0 <= i < k - 1 implies s.drop_first()[i] != c by {
            assert(s.drop_first()[i] == s[i + 1]);
        }
        if k - 1 < s.drop_first().len() {
            assert(s.drop_first()[k - 1] == s[k]);
        }
        lemma_first_index_at(s.drop_first(), c, k - 1);
    }
}

pub proof fn lemma_split_on_nonempty(s: Seq<char>, c: char)
    ensures
        split_on(s, c).len() >= 1,
        split_on(s, c)[0] == s.take(first_index(s, c) as int),
    decreases s.len(),
{
    lemma_first_index_bound(s, c);
    let k = first_index(s, c);
    if k >= s.len() {
        assert(s.take(k as int) =~= s);
    }
}

/// Splitting at the first separator: the first piece, then the split of the rest.
pub proof fn lemma_split_on_unfold(s: Seq<char>, c: char)
    ensures
        first_index(s, c) < s.len() ==> split_on(s, c) == seq![s.take(first_index(s, c) as int)]
            + split_on(s.skip(first_index(s, c) + 1 as int), c),
        first_index(s, c) >= s.len() ==> split_on(s, c) == seq![s],
{
}

pub proof fn lemma_ws_tokens_nonempty(s: Seq<char>)
    requires
        s.len() > 0,
        !is_ws(s.last()),
    ensures
        ws_tokens(s).len() > 0,
    decreases s.len(),
{
    if s.len() >= 2 && !is_ws(s[s.len() - 2]) {
        assert(s.drop_last().last() == s[s.len() - 2]);
        lemma_ws_tokens_nonempty(s.drop_last());
    }
}

pub proof fn lemma_join_space_len(toks: Seq<Seq<char>>)
    ensures
        toks.len() > 0 && toks[0].len() > 0 ==> join_space(toks).len() > 0,
    decreases toks.len(),
{
    if toks.len() > 1 {
        lemma_join_space_len(toks.drop_last());
    }
}

/// `str::chars`, collected into a vector: the characters of the string, in
/// order. A vector never holds more than `isize::MAX` elements.
#[verifier::external_body]
pub(crate) fn chars_of(s: &str) -> (v: Vec<char>)
    ensures
        v@ == s@,
        v.len() <= isize::MAX,
{
    s.chars().collect()
}

/// `String: FromIterator<&char>`: the string made of the given characters, in
/// order.
#[verifier::external_body]
pub(crate) fn string_of(cs: &[char]) -> (s: String)
    ensures
        s@ == cs@,
{
    cs.iter().collect()
}

/// Whether `c` is a Unicode whitespace character.
pub fn is_whitespace(c: char) -> (b: bool)
    ensures
        b == is_ws(c),
{
    let v = c as u32;
    (9 <= v && v <= 13) || v == 32 || v == 0x85 || v == 0xa0 || v == 0x1680 || (0x2000 <= v && v
        <= 0x200a) || v == 0x2028 || v == 0x2029 || v == 0x202f || v == 0x205f || v == 0x3000
}

/// Position of the first `c` in `text[from..to]`, or `to` when absent.
pub fn find_char(text: &Vec<char>, from: usize, to: usize, c: char) -> (k: usize)
    requires
        from <= to <= text.len(),
    ensures
        from <= k <= to,
        k - from == first_index(text@.subrange(from as int, to as int), c),
{
    let mut j = from;
    while j < to && text[j] != c
        invariant
            from <= j <= to <= text.len(),
            forall|i: int| from <= i < j ==> text@[i] != c,
        decreases to - j,
    {
        j += 1;
    }
    proof {
        let s = text@.subrange(from as int, to as int);
        assert forall|i: int| 0 <= i < j - from implies s[i] != c by {
            assert(s[i] == text@[from + i]);
        }
        lemma_first_index_at(s, c, j - from);
    }
    j
}

/// Whitespace-separated tokens of `text[from..to]`.
pub fn tokens_between(text: &Vec<char>, from: usize, to: usize) -> (toks: Vec<Vec<char>>)
    requires
        from <= to <= text.len(),
    ensures
        chars_view(toks@) == ws_tokens(text@.subrange(from as int, to as int)),
{
    let mut toks: Vec<Vec<char>> = Vec::new();
    let mut j = from;
    assert(text@.subrange(from as int, from as int) =~= Seq::<char>::empty());
    assert(chars_view(toks@) =~= Seq::<Seq<char>>::empty());
    while j < to
        invariant
            from <= j <= to <= text.len(),
            chars_view(toks@) == ws_tokens(text@.subrange(from as int, j as int)),
        decreases to - j,
    {
        let c = text[j];
        let ghost s = text@.subrange(from as int, j + 1);
        proof {
            assert(s.drop_last() =~= text@.subrange(from as int, j as int));
            assert(s.last() == c);
        }
        if is_whitespace(c) {
        } else if j > from && !is_whitespace(text[j - 1]) {
            proof {
                assert(s[s.len() - 2] == text@[j - 1]);
                let p = text@.subrange(from as int, j as int);
                assert(p.last() == text@[j - 1]);
                lemma_ws_tokens_nonempty(p);
            }
            let mut last = toks.pop().unwrap();
            last.push(c);
            toks.push(last);
            proof {
                let prev = ws_tokens(text@.subrange(from as int, j as int));
                assert(chars_view(toks@) =~= prev.update(prev.len() - 1, prev.last().push(c)));
            }
        } else {
            let mut single: Vec<char> = Vec::new();
            single.push(c);
            toks.push(single);
            proof {
                let prev = ws_tokens(text@.subrange(from as int, j as int));
                assert(single@ =~= seq![c]);
                assert(chars_view(toks@) =~= prev.push(seq![c]));
            }
        }
        j += 1;
    }
    toks
}

/// Whether the characters `a` spell exactly the string `w`.
pub fn chars_eq_str(a: &Vec<char>, w: &str) -> (b: bool)
    ensures
        b == (a@ == w@),
{
    let n = w.unicode_len();
    if a.len() != n {
        return false;
    }
    let mut i: usize = 0;
    while i < n
        invariant
            i <= n,
            n == w@.len(),
            a.len() == n,
            forall|k: int| 0 <= k < i ==> a@[k] == w@[k],
        decreases n - i,
    {
        if a[i] != w.get_char(i) {
            return false;
        }
        i += 1;
    }
    assert(a@ =~= w@);
    true
}

/// Tokens `toks[from..]` joined by single spaces.
pub fn join_tokens(toks: &Vec<Vec<char>>, from: usize) -> (out: Vec<char>)
    requires
        from <= toks.len(),
    ensures
        out@ == join_space(chars_view(toks@).skip(from as int)),
{
    let mut out: Vec<char> = Vec::new();
    let mut i = from;
    proof {
        assert(chars_view(toks@).skip(from as int).take(0) =~= Seq::<Seq<char>>::empty());
    }
    while i < toks.len()
        invariant
            from <= i <= toks.len(),
            out@ == join_space(chars_view(toks@).skip(from as int).take(i - from)),
        decreases toks.len() - i,
    {
        let ghost all = chars_view(toks@).skip(from as int);
        let ghost before = out@;
        if i > from {
            out.push(' ');
        }
        let t = &toks[i];
        let mut j: usize = 0;
        while j < t.len()
            invariant
                j <= t.len(),
                i > from ==> out@ == before + seq![' '] + t@.take(j as int),
                i == from ==> out@ == before + t@.take(j as int),
            decreases t.len() - j,
        {
            out.push(t[j]);
            j += 1;
            proof {
                assert(t@.take(j as int) =~= t@.take(j - 1).push(t@[j - 1]));
            }
        }
        proof {
            let next = all.take(i + 1 - from);
            assert(next.drop_last() =~= all.take(i - from));
            assert(next.last() == t@);
            assert(t@.take(t.len() as int) =~= t@);
            if i == from {
                assert(all.take(0) =~= Seq::<Seq<char>>::empty());
                assert(before =~= Seq::<char>::empty());
                assert(out@ =~= t@);
            }
        }
        i += 1;
    }
    proof {
        let all = chars_view(toks@).skip(from as int);
        assert(all.take(toks.len() - from) =~= all);
    }
    out
}


/// An ASCII decimal digit.
pub open spec fn is_digit(c: char) -> bool {
    48 <= c as u32 <= 57
}

pub open spec fn all_digits(s: Seq<char>) -> bool {
    forall|i: int| 0 <= i < s.len() ==> is_digit(#[trigger] s[i])
}

pub open spec fn is_sign(c: char) -> bool {
    c == '+' || c == '-'
}

/// `s` without one leading sign character.
pub open spec fn unsigned_part(s: Seq<char>) -> Seq<char> {
    if s.len() > 0 && is_sign(s[0]) {
        s.skip(1)
    } else {
        s
    }
}

/// `c` equals the lowercase ASCII letter `w`, ignoring ASCII case.
pub open spec fn ci_char(c: char, w: char) -> bool {
    c == w || (65 <= c as u32 <= 90 && c as u32 + 32 == w as u32)
}

/// `s` spells the lowercase word `w`, ignoring ASCII case.
pub open spec fn ci_eq(s: Seq<char>, w: Seq<char>) -> bool {
    s.len() == w.len() && forall|i: int| 0 <= i < s.len() ==> ci_char(#[trigger] s[i], w[i])
}

/// `Digit+ | Digit+ '.' Digit* | Digit* '.' Digit+`
pub open spec fn is_mantissa(s: Seq<char>) -> bool {
    (s.len() > 0 && all_digits(s)) || (s.len() >= 2 && exists|k: int|
        0 <= k < s.len() && #[trigger] s[k] == '.' && all_digits(s.take(k)) && all_digits(
            s.skip(k + 1),
        ))
}

/// `Sign? Digit+`
pub open spec fn is_exponent(t: Seq<char>) -> bool {
    (t.len() > 0 && all_digits(t)) || (t.len() > 1 && is_sign(t[0]) && all_digits(t.skip(1)))
}

/// `Mantissa Exp?` where `Exp ::= ('e' | 'E') Sign? Digit+`
pub open spec fn is_decimal(s: Seq<char>) -> bool {
    is_mantissa(s) || exists|e: int|
        0 <= e < s.len() && (#[trigger] s[e] == 'e' || s[e] == 'E') && is_mantissa(s.take(e))
            && is_exponent(s.skip(e + 1))
}

/// The grammar that `f32::from_str` accepts:
/// `Sign? ('inf' | 'infinity' | 'nan' | Number)`, with the words and the exponent
/// marker matched without regard to ASCII case.
pub open spec fn is_float_literal(s: Seq<char>) -> bool {
    let b = unsigned_part(s);
    ci_eq(b, seq!['i', 'n', 'f']) || ci_eq(b, seq!['i', 'n', 'f', 'i', 'n', 'i', 't', 'y']) || ci_eq(
        b,
        seq!['n', 'a', 'n'],
    ) || is_decimal(b)
}

/// Value of a run of ASCII digits.
pub open spec fn digits_value(s: Seq<char>) -> int
    decreases s.len(),
{
    if s.len() == 0 {
        0
    } else {
        digits_value(s.drop_last()) * 10 + (s.last() as u32 - 48)
    }
}

/// What `isize::from_str` accepts: an optional sign, at least one digit, and a
/// value in the range of `isize`.
pub open spec fn parse_isize_spec(s: Seq<char>) -> Option<int> {
    let d = unsigned_part(s);
    if d.len() == 0 || !all_digits(d) {
        None
    } else {
        let v = if s[0] == '-' {
            -digits_value(d)
        } else {
            digits_value(d)
        };
        if isize::MIN <= v <= isize::MAX {
            Some(v)
        } else {
            None
        }
    }
}

pub proof fn lemma_digits_value_nonneg(s: Seq<char>)
    requires
        all_digits(s),
    ensures
        digits_value(s) >= 0,
    decreases s.len(),
{
    if s.len() > 0 {
        assert(all_digits(s.drop_last())) by {
            assert forall|i: int| 0 <= i < s.drop_last().len() implies is_digit(
                #[trigger] s.drop_last()[i],
            ) by {
                assert(s.drop_last()[i] == s[i]);
            }
        }
        lemma_digits_value_nonneg(s.drop_last());
        assert(is_digit(s[s.len() - 1]));
    }
}

fn is_digit_char(c: char) -> (b: bool)
    ensures
        b == is_digit(c),
{
    let v = c as u32;
    48 <= v && v <= 57
}

/// Whether `t[from..]` spells the lowercase word `w`, ignoring ASCII case.
pub fn ci_matches(t: &Vec<char>, from: usize, w: &str) -> (b: bool)
    requires
        from <= t.len(),
    ensures
        b == ci_eq(t@.skip(from as int), w@),
{
    let n = w.unicode_len();
    if t.len() - from != n {
        return false;
    }
    let mut i: usize = 0;
    while i < n
        invariant
            i <= n,
            n == w@.len(),
            t.len() - from == n,
            from <= t.len(),
            forall|k: int| 0 <= k < i ==> ci_char(#[trigger] t@.skip(from as int)[k], w@[k]),
        decreases n - i,
    {
        let c = t[from + i];
        let lw = w.get_char(i);
        let v = c as u32;
        let ok = c == lw || (65 <= v && v <= 90 && v + 32 == lw as u32);
        assert(t@.skip(from as int)[i as int] == c);
        if !ok {
            return false;
        }
        i += 1;
    }
    true
}

/// The shape that the scan of [`is_float_token`] finds: an integer digit run
/// ending at `int_end`, an optional `'.'` with a fraction run, ending at `mant_end`.
pub open spec fn scanned_mantissa(
    t: Seq<char>,
    start: int,
    int_end: int,
    has_dot: bool,
    mant_end: int,
) -> bool {
    &&& 0 <= start <= int_end <= t.len()
    &&& forall|k: int| start <= k < int_end ==> is_digit(#[trigger] t[k])
    &&& int_end < t.len() ==> !is_digit(t[int_end])
    &&& has_dot == (int_end < t.len() && t[int_end] == '.')
    &&& has_dot ==> int_end < mant_end <= t.len()
    &&& has_dot ==> forall|k: int| int_end < k < mant_end ==> is_digit(#[trigger] t[k])
    &&& has_dot ==> (mant_end < t.len() ==> !is_digit(t[mant_end]))
    &&& !has_dot ==> mant_end == int_end
}

/// A prefix of `t[start..]` that stops at the end or at an exponent marker is a
/// mantissa exactly when it is the scanned one and holds a digit.
proof fn lemma_mantissa_prefix(
    t: Seq<char>,
    start: int,
    int_end: int,
    has_dot: bool,
    mant_end: int,
    e: int,
)
    requires
        scanned_mantissa(t, start, int_end, has_dot, mant_end),
        0 <= e <= t.len() - start,
        e < t.len() - start ==> (t[start + e] == 'e' || t[start + e] == 'E'),
    ensures
        is_mantissa(t.skip(start).take(e)) == (e == mant_end - start && (if has_dot {
            mant_end - start - 1
        } else {
            mant_end - start
        }) > 0),
{
    let b = t.skip(start);
    let p = b.take(e);
    let m = mant_end - start;
    let dc = if has_dot {
        mant_end - start - 1
    } else {
        mant_end - start
    };
    assert forall|i: int| 0 <= i < e implies p[i] == t[start + i] by {}
    if is_mantissa(p) {
        if p.len() > 0 && all_digits(p) {
            if int_end - start < e {
                assert(is_digit(p[int_end - start]));
            }
            if int_end - start > e {
                assert(is_digit(t[start + e]));
            }
            assert(int_end - start == e);
            assert(!has_dot);
        } else {
            let k = choose|k: int|
                0 <= k < p.len() && #[trigger] p[k] == '.' && all_digits(p.take(k)) && all_digits(
                    p.skip(k + 1),
                );
            assert forall|i: int| 0 <= i < k implies is_digit(#[trigger] t[start + i]) by {
                assert(p.take(k)[i] == p[i]);
            }
            assert forall|i: int| k < i < e implies is_digit(#[trigger] t[start + i]) by {
                assert(p.skip(k + 1)[i - k - 1] == p[i]);
            }
            if int_end - start < k {
                assert(is_digit(t[start + (int_end - start)]));
            }
            if int_end - start > k {
                assert(is_digit(t[start + k]));
            }
            assert(int_end - start == k);
            assert(has_dot);
            if mant_end - start < e {
                assert(is_digit(t[start + (mant_end - start)]));
            }
            if mant_end - start > e {
                assert(is_digit(t[start + e]));
            }
        }
    }
    if e == m && dc > 0 {
        if has_dot {
            let k = int_end - start;
            assert(p[k] == '.');
            assert(all_digits(p.take(k))) by {
                assert forall|i: int| 0 <= i < p.take(k).len() implies is_digit(
                    #[trigger] p.take(k)[i],
                ) by {
                    assert(p.take(k)[i] == t[start + i]);
                }
            }
            assert(all_digits(p.skip(k + 1))) by {
                assert forall|i: int| 0 <= i < p.skip(k + 1).len() implies is_digit(
                    #[trigger] p.skip(k + 1)[i],
                ) by {
                    assert(p.skip(k + 1)[i] == t[start + k + 1 + i]);
                }
            }
        } else {
            assert(all_digits(p)) by {
                assert forall|i: int| 0 <= i < p.len() implies is_digit(#[trigger] p[i]) by {
                    assert(p[i] == t[start + i]);
                }
            }
        }
    }
}

proof fn lemma_decimal_shape(t: Seq<char>, start: int, int_end: int, has_dot: bool, mant_end: int)
    requires
        scanned_mantissa(t, start, int_end, has_dot, mant_end),
    ensures
        ({
            let dc = if has_dot {
                mant_end - start - 1
            } else {
                mant_end - start
            };
            is_decimal(t.skip(start)) == (dc > 0 && (mant_end == t.len() || ((t[mant_end] == 'e'
                || t[mant_end] == 'E') && is_exponent(t.skip(mant_end + 1)))))
        }),
{
    let b = t.skip(start);
    let m = mant_end - start;
    lemma_mantissa_prefix(t, start, int_end, has_dot, mant_end, b.len() as int);
    assert(b.take(b.len() as int) =~= b);
    if mant_end < t.len() && (t[mant_end] == 'e' || t[mant_end] == 'E') {
        lemma_mantissa_prefix(t, start, int_end, has_dot, mant_end, m);
        assert(b.skip(m + 1) =~= t.skip(mant_end + 1));
        assert(b[m] == t[mant_end]);
    }
    if exists|e: int|
        0 <= e < b.len() && (#[trigger] b[e] == 'e' || b[e] == 'E') && is_mantissa(b.take(e))
            && is_exponent(b.skip(e + 1)) {
        let e = choose|e: int|
            0 <= e < b.len() && (#[trigger] b[e] == 'e' || b[e] == 'E') && is_mantissa(b.take(e))
                && is_exponent(b.skip(e + 1));
        assert(b[e] == t[start + e]);
        lemma_mantissa_prefix(t, start, int_end, has_dot, mant_end, e);
        assert(b.skip(m + 1) =~= t.skip(mant_end + 1));
    }
}

proof fn lemma_exponent_shape(t: Seq<char>, mark: int, digits_from: int, end: int)
    requires
        0 <= mark < t.len(),
        mark + 1 <= digits_from <= mark + 2,
        digits_from == mark + 2 <==> (mark + 1 < t.len() && is_sign(t[mark + 1])),
        digits_from <= end <= t.len(),
        forall|k: int| digits_from <= k < end ==> is_digit(#[trigger] t[k]),
        end < t.len() ==> !is_digit(t[end]),
    ensures
        is_exponent(t.skip(mark + 1)) == (end > digits_from && end == t.len()),
{
    let x = t.skip(mark + 1);
    if end > digits_from && end == t.len() {
        if digits_from == mark + 2 {
            assert forall|i: int| 0 <= i < x.skip(1).len() implies is_digit(
                #[trigger] x.skip(1)[i],
            ) by {
                assert(x.skip(1)[i] == t[mark + 2 + i]);
            }
        } else {
            assert forall|i: int| 0 <= i < x.len() implies is_digit(#[trigger] x[i]) by {
                assert(x[i] == t[mark + 1 + i]);
            }
        }
    }
    if is_exponent(x) {
        if x.len() > 0 && all_digits(x) {
            assert(is_digit(x[0]));
            assert(x[0] == t[mark + 1]);
            assert(!is_sign(t[mark + 1]));
            if end < t.len() {
                assert(is_digit(x[end - mark - 1]));
            }
        } else {
            assert(is_sign(x[0]));
            assert(x[0] == t[mark + 1]);
            assert(is_digit(x.skip(1)[0]));
            if end < t.len() {
                assert(is_digit(x.skip(1)[end - mark - 2]));
            }
        }
    }
}

/// Whether the token is accepted by `f32::from_str` (see [`is_float_literal`]).
pub fn is_float_token(t: &Vec<char>) -> (b: bool)
    ensures
        b == is_float_literal(t@),
{
    let n = t.len();
    let start: usize = if n > 0 && (t[0] == '+' || t[0] == '-') {
        1
    } else {
        0
    };
    let ghost bs = unsigned_part(t@);
    proof {
        reveal_strlit("inf");
        reveal_strlit("infinity");
        reveal_strlit("nan");
        assert(bs =~= t@.skip(start as int));
        assert("inf"@ =~= seq!['i', 'n', 'f']);
        assert("infinity"@ =~= seq!['i', 'n', 'f', 'i', 'n', 'i', 't', 'y']);
        assert("nan"@ =~= seq!['n', 'a', 'n']);
    }
    if ci_matches(t, start, "inf") || ci_matches(t, start, "infinity") || ci_matches(
        t,
        start,
        "nan",
    ) {
        return true;
    }
    let mut i = start;
    while i < n && is_digit_char(t[i])
        invariant
            start <= i <= n == t.len(),
            forall|k: int| start <= k < i ==> is_digit(#[trigger] t@[k]),
        decreases n - i,
    {
        i += 1;
    }
    let int_end = i;
    let has_dot = i < n && t[i] == '.';
    if has_dot {
        i += 1;
        while i < n && is_digit_char(t[i])
            invariant
                int_end < i <= n == t.len(),
                forall|k: int| int_end < k < i ==> is_digit(#[trigger] t@[k]),
            decreases n - i,
        {
            i += 1;
        }
    }
    let mant_end = i;
    let digit_count = if has_dot {
        mant_end - start - 1
    } else {
        mant_end - start
    };
    proof {
        assert(scanned_mantissa(t@, start as int, int_end as int, has_dot, mant_end as int));
        lemma_decimal_shape(t@, start as int, int_end as int, has_dot, mant_end as int);
    }
    if digit_count == 0 {
        return false;
    }
    if i == n {
        return true;
    }
    if t[i] != 'e' && t[i] != 'E' {
        return false;
    }
    i += 1;
    if i < n && (t[i] == '+' || t[i] == '-') {
        i += 1;
    }
    let exp_digits = i;
    while i < n && is_digit_char(t[i])
        invariant
            exp_digits <= i <= n == t.len(),
            forall|k: int| exp_digits <= k < i ==> is_digit(#[trigger] t@[k]),
        decreases n - i,
    {
        i += 1;
    }
    proof {
        lemma_exponent_shape(t@, mant_end as int, exp_digits as int, i as int);
    }
    i > exp_digits && i == n
}


/// `isize::from_str` on `t[from..to]`: `None` exactly when the text is not an
/// optionally signed run of digits or its value does not fit in `isize`.
pub fn parse_isize_chars(t: &Vec<char>, from: usize, to: usize) -> (r: Option<isize>)
    requires
        from <= to <= t.len(),
    ensures
        r matches Some(v) ==> parse_isize_spec(t@.subrange(from as int, to as int)) == Some(
            v as int,
        ),
        r is None ==> parse_isize_spec(t@.subrange(from as int, to as int)) is None,
{
    let ghost s = t@.subrange(from as int, to as int);
    let neg = from < to && t[from] == '-';
    let start = if from < to && (t[from] == '+' || t[from] == '-') {
        from + 1
    } else {
        from
    };
    let ghost d = unsigned_part(s);
    proof {
        assert(d =~= t@.subrange(start as int, to as int));
    }
    if start == to {
        return None;
    }
    // One past the magnitude of `isize::MIN`; larger values are held at this bound.
    let cap: u128 = isize::MAX as u128 + 2;
    let mut acc: u128 = 0;
    let mut i = start;
    proof {
        assert(t@.subrange(start as int, start as int) =~= Seq::<char>::empty());
    }
    while i < to
        invariant
            start <= i <= to <= t.len(),
            cap == isize::MAX as u128 + 2,
            acc <= cap,
            all_digits(t@.subrange(start as int, i as int)),
            acc < cap ==> acc == digits_value(t@.subrange(start as int, i as int)),
            acc == cap ==> digits_value(t@.subrange(start as int, i as int)) >= cap,
            d == t@.subrange(start as int, to as int),
            s == t@.subrange(from as int, to as int),
            d == unsigned_part(s),
        decreases to - i,
    {
        let c = t[i];
        if !is_digit_char(c) {
            proof {
                assert(d[i - start] == c);
                assert(!all_digits(d));
            }
            return None;
        }
        let ghost prev = t@.subrange(start as int, i as int);
        let ghost next = t@.subrange(start as int, i + 1);
        proof {
            assert(next.drop_last() =~= prev);
            assert(next.last() == c);
            assert(all_digits(next)) by {
                assert forall|k: int| 0 <= k < next.len() implies is_digit(#[trigger] next[k]) by {
                    if k < prev.len() {
                        assert(next[k] == prev[k]);
                    }
                }
            }
            lemma_digits_value_nonneg(prev);
        }
        let digit = (c as u32 - 48) as u128;
        if acc < cap {
            let grown = acc * 10 + digit;
            acc = if grown >= cap {
                cap
            } else {
                grown
            };
        }
        i += 1;
    }
    proof {
        assert(t@.subrange(start as int, to as int) =~= d);
        lemma_digits_value_nonneg(d);
    }
    if neg {
        assert(s[0] == '-');
        if acc <= isize::MAX as u128 + 1 {
            let v: i128 = -(acc as i128);
            Some(v as isize)
        } else {
            None
        }
    } else {
        if from < to {
            assert(s[0] == t@[from as int]);
        }
        if acc <= isize::MAX as u128 {
            Some(acc as isize)
        } else {
            None
        }
    }
}

/// Every token is a float literal.
pub open spec fn all_floats(toks: Seq<Seq<char>>) -> bool {
    forall|i: int| 0 <= i < toks.len() ==> is_float_literal(#[trigger] toks[i])
}

/// Strings of the tokens `toks[from..from + count]`.
pub fn token_strings(toks: &Vec<Vec<char>>, from: usize, count: usize) -> (r: Vec<String>)
    requires
        from + count <= toks.len(),
    ensures
        strings_view(r@) == chars_view(toks@).subrange(from as int, from + count),
{
    let mut r: Vec<String> = Vec::new();
    let mut i: usize = 0;
    while i < count
        invariant
            i <= count,
            from + count <= toks.len(),
            r@.len() == i,
            forall|k: int| 0 <= k < i ==> (#[trigger] r@[k])@ == toks@[from + k]@,
        decreases count - i,
    {
        let t = &toks[from + i];
        let s = string_of(t.as_slice());
        r.push(s);
        i += 1;
    }
    assert(strings_view(r@) =~= chars_view(toks@).subrange(from as int, from + count));
    r
}

/// Whether every token of `toks[from..]` is a float literal.
pub fn all_float_tokens(toks: &Vec<Vec<char>>, from: usize) -> (b: bool)
    requires
        from <= toks.len(),
    ensures
        b == all_floats(chars_view(toks@).skip(from as int)),
{
    let mut i = from;
    while i < toks.len()
        invariant
            from <= i <= toks.len(),
            forall|k: int| from <= k < i ==> is_float_literal(#[trigger] toks@[k]@),
        decreases toks.len() - i,
    {
        if !is_float_token(&toks[i]) {
            proof {
                assert(chars_view(toks@).skip(from as int)[i - from] == toks@[i as int]@);
            }
            return false;
        }
        i += 1;
    }
    proof {
        let args = chars_view(toks@).skip(from as int);
        assert forall|k: int| 0 <= k < args.len() implies is_float_literal(#[trigger] args[k]) by {
            assert(args[k] == toks@[from + k]@);
        }
    }
    true
}

/// The pieces of `s[from..]` around the first `c`.
pub proof fn lemma_split_from(s: Seq<char>, c: char, from: int, k: int)
    requires
        0 <= from <= k <= s.len(),
        k - from == first_index(s.subrange(from, s.len() as int), c),
    ensures
        split_on(s.subrange(from, s.len() as int), c).len() >= 1,
        split_on(s.subrange(from, s.len() as int), c)[0] == s.subrange(from, k),
        k < s.len() ==> split_on(s.subrange(from, s.len() as int), c).drop_first() == split_on(
            s.subrange(k + 1, s.len() as int),
            c,
        ),
        k == s.len() ==> split_on(s.subrange(from, s.len() as int), c).len() == 1,
{
    let t = s.subrange(from, s.len() as int);
    lemma_split_on_nonempty(t, c);
    lemma_split_on_unfold(t, c);
    assert(t.take(k - from) =~= s.subrange(from, k));
    if k < s.len() {
        assert(t.skip(k - from + 1) =~= s.subrange(k + 1, s.len() as int));
        let rest = split_on(t.skip(k - from + 1), c);
        assert((seq![t.take(k - from)] + rest).drop_first() =~= rest);
    }
}

/// One line's tokens: the line ends at `k`, its comment starts at `h`.
pub proof fn lemma_line_tokens(text: Seq<char>, pos: int, k: int, h: int)
    requires
        0 <= pos <= k <= text.len(),
        k - pos == first_index(text.subrange(pos, text.len() as int), '\n'),
        pos <= h <= k,
        h - pos == first_index(text.subrange(pos, k), '#'),
    ensures
        lines_of(text.skip(pos)).len() >= 1,
        comment_line_tokens(lines_of(text.skip(pos))[0]) == ws_tokens(text.subrange(pos, h)),
        k < text.len() ==> lines_of(text.skip(pos)).drop_first() == lines_of(text.skip(k + 1)),
        k == text.len() ==> lines_of(text.skip(pos)).len() == 1,
{
    assert(text.skip(pos) =~= text.subrange(pos, text.len() as int));
    if k < text.len() {
        assert(text.skip(k + 1) =~= text.subrange(k + 1, text.len() as int));
    }
    lemma_split_from(text, '\n', pos, k);
    let line = text.subrange(pos, k);
    assert(before_hash(line) =~= text.subrange(pos, h));
}

/// The decimal digit character for `d < 10`.
pub open spec fn digit_char(d: nat) -> char {
    (48 + d) as char
}

/// The decimal representation of `n`, without leading zeros.
pub open spec fn decimal(n: nat) -> Seq<char>
    decreases n,
{
    if n < 10 {
        seq![digit_char(n)]
    } else {
        decimal(n / 10).push(digit_char(n % 10))
    }
}

/// The decimal representation of `n`.
pub fn decimal_chars(n: usize) -> (v: Vec<char>)
    ensures
        v@ == decimal(n as nat),
    decreases n,
{
    let d = (n % 10) as u8;
    let c = (48u8 + d) as char;
    assert(c == digit_char((n % 10) as nat));
    if n < 10 {
        let mut v: Vec<char> = Vec::new();
        v.push(c);
        assert(v@ =~= seq![c]);
        v
    } else {
        let mut v = decimal_chars(n / 10);
        v.push(c);
        v
    }
}

} // verus!
