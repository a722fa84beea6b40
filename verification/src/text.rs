//! Verified text utilities: character-level string comparison, trailing
//! whitespace trimming, final path segment extraction, substring search and
//! splitting, and joining with a separator.

use vstd::prelude::*;

verus! {

/// Whether `c` has the Unicode `White_Space` property, the set of characters
/// that trimming removes.
pub open spec fn is_space(c: char) -> bool {
    c == ' ' || c == '\t' || c == '\n' || c == '\u{b}' || c == '\u{c}' || c == '\r' || c == '\u{85}'
        || c == '\u{a0}' || c == '\u{1680}' || (0x2000 <= c as int && c as int <= 0x200a) || c
        == '\u{2028}' || c == '\u{2029}' || c == '\u{202f}' || c == '\u{205f}' || c == '\u{3000}'
}

/// Decides `is_space`.
pub fn is_space_char(c: char) -> (r: bool)
    ensures
        r == is_space(c),
{
    let u = c as u32;
    u == 0x20 || u == 0x9 || u == 0xa || u == 0xb || u == 0xc || u == 0xd || u == 0x85 || u == 0xa0
        || u == 0x1680 || (0x2000 <= u && u <= 0x200a) || u == 0x2028 || u == 0x2029 || u == 0x202f
        || u == 0x205f || u == 0x3000
}

/// Compares two string slices character by character.
pub fn str_eq(a: &str, b: &str) -> (r: bool)
    ensures
        r == (a@ == b@),
{
    let an = a.unicode_len();
    let bn = b.unicode_len();
    if an != bn {
        return false;
    }
    let mut i: usize = 0;
    while i < an
        invariant
            an == a@.len(),
            bn == b@.len(),
            an == bn,
            i <= an,
            forall|j: int| 0 <= j < i ==> a@[j] == b@[j],
        decreases an - i,
    {
        if a.get_char(i) != b.get_char(i) {
            return false;
        }
        i += 1;
    }
    proof {
        assert(a@ =~= b@);
    }
    true
}

/// `s` with every trailing whitespace character removed.
pub open spec fn trim_trailing(s: Seq<char>) -> Seq<char>
    decreases s.len(),
{
    if s.len() > 0 && is_space(s.last()) {
        trim_trailing(s.drop_last())
    } else {
        s
    }
}

proof fn lemma_trim_trailing_take(s: Seq<char>, i: int)
    requires
        0 <= i <= s.len(),
        forall|j: int| i <= j < s.len() ==> is_space(s[j]),
        i == 0 || !is_space(s[i - 1]),
    ensures
        trim_trailing(s) == s.take(i),
    decreases s.len(),
{
    if i == s.len() {
        assert(s.take(i) =~= s);
    } else {
        lemma_trim_trailing_take(s.drop_last(), i);
        assert(s.drop_last().take(i) =~= s.take(i));
    }
}

/// Returns `s` without its trailing whitespace.
pub fn trim_trailing_spaces<'a>(s: &'a str) -> (r: &'a str)
    ensures
        r@ == trim_trailing(s@),
{
    let n = s.unicode_len();
    let mut end: usize = n;
    while end > 0 && is_space_char(s.get_char(end - 1))
        invariant
            end <= n,
            n == s@.len(),
            forall|j: int| end <= j < n ==> is_space(s@[j]),
        decreases end,
    {
        end = end - 1;
    }
    proof {
        lemma_trim_trailing_take(s@, end as int);
    }
    s.substring_char(0, end)
}

/// `s` with every trailing `/` removed.
pub open spec fn strip_trailing_slashes(s: Seq<char>) -> Seq<char>
    decreases s.len(),
{
    if s.len() > 0 && s.last() == '/' {
        strip_trailing_slashes(s.drop_last())
    } else {
        s
    }
}

proof fn lemma_strip_trailing_slashes_take(s: Seq<char>, i: int)
    requires
        0 <= i <= s.len(),
        forall|j: int| i <= j < s.len() ==> s[j] == '/',
        i == 0 || s[i - 1] != '/',
    ensures
        strip_trailing_slashes(s) == s.take(i),
    decreases s.len(),
{
    if i == s.len() {
        assert(s.take(i) =~= s);
    } else {
        lemma_strip_trailing_slashes_take(s.drop_last(), i);
        assert(s.drop_last().take(i) =~= s.take(i));
    }
}

/// The characters after the last `/` (the whole sequence when none occurs).
pub open spec fn after_last_slash(s: Seq<char>) -> Seq<char>
    decreases s.len(),
{
    if s.len() == 0 {
        s
    } else if s.last() == '/' {
        Seq::empty()
    } else {
        after_last_slash(s.drop_last()).push(s.last())
    }
}

proof fn lemma_after_last_slash_skip(s: Seq<char>, i: int)
    requires
        0 <= i <= s.len(),
        forall|j: int| i <= j < s.len() ==> s[j] != '/',
        i == 0 || s[i - 1] == '/',
    ensures
        after_last_slash(s) == s.skip(i),
    decreases s.len(),
{
    if i == s.len() {
        if i == 0 {
            assert(s.skip(0) =~= s);
        } else {
            assert(s.skip(i) =~= Seq::<char>::empty());
        }
    } else {
        lemma_after_last_slash_skip(s.drop_last(), i);
        assert(s.skip(i) =~= s.drop_last().skip(i).push(s.last()));
    }
}

/// The final path segment: the last non-empty `/`-separated component, or
/// `None` when the path holds nothing but separators (or is empty).
pub open spec fn last_segment(path: Seq<char>) -> Option<Seq<char>> {
    let t = strip_trailing_slashes(path);
    if t.len() == 0 {
        None
    } else {
        Some(after_last_slash(t))
    }
}

/// Extracts the final path segment of `path`, ignoring trailing separators.
pub fn file_name<'a>(path: &'a str) -> (r: Option<&'a str>)
    ensures
        r is Some <==> last_segment(path@) is Some,
        r matches Some(seg) ==> last_segment(path@) == Some(seg@),
{
    let n = path.unicode_len();
    let mut end: usize = n;
    while end > 0 && path.get_char(end - 1) == '/'
        invariant
            end <= n,
            n == path@.len(),
            forall|j: int| end <= j < n ==> path@[j] == '/',
        decreases end,
    {
        end = end - 1;
    }
    proof {
        lemma_strip_trailing_slashes_take(path@, end as int);
    }
    if end == 0 {
        return None;
    }
    let mut start: usize = end;
    while start > 0 && path.get_char(start - 1) != '/'
        invariant
            start <= end,
            end <= n,
            n == path@.len(),
            forall|j: int| start <= j < end ==> path@[j] != '/',
        decreases start,
    {
        start = start - 1;
    }
    proof {
        let t = path@.take(end as int);
        lemma_after_last_slash_skip(t, start as int);
        assert(t.skip(start as int) =~= path@.subrange(start as int, end as int));
    }
    Some(path.substring_char(start, end))
}

/// Whether `p` stands at the start of `s`.
pub open spec fn has_prefix(s: Seq<char>, p: Seq<char>) -> bool {
    p.len() <= s.len() && s.subrange(0, p.len() as int) == p
}

/// Whether `d` occurs in `s` at position `at`.
fn match_at(s: &str, d: &str, at: usize) -> (r: bool)
    requires
        at + d@.len() <= s@.len(),
    ensures
        r == (s@.subrange(at as int, at + d@.len()) == d@),
{
    let n = s.unicode_len();
    let m = d.unicode_len();
    let mut j: usize = 0;
    while j < m
        invariant
            j <= m,
            n == s@.len(),
            m == d@.len(),
            at + m <= n,
            forall|k: int| 0 <= k < j ==> s@[at + k] == d@[k],
        decreases m - j,
    {
        if s.get_char(at + j) != d.get_char(j) {
            proof {
                assert(s@.subrange(at as int, at + d@.len())[j as int] == s@[at + j]);
            }
            return false;
        }
        j += 1;
    }
    proof {
        assert(s@.subrange(at as int, at + d@.len()) =~= d@);
    }
    true
}

/// Decides whether `s` starts with `p`.
pub fn starts_with_str(s: &str, p: &str) -> (r: bool)
    ensures
        r == has_prefix(s@, p@),
{
    let n = s.unicode_len();
    let m = p.unicode_len();
    if m > n {
        return false;
    }
    match_at(s, p, 0)
}

/// The smallest position at or after `from` where `d` occurs in `s`, if any.
/// An empty `d` occurs at every position.
pub open spec fn find_from(s: Seq<char>, d: Seq<char>, from: int) -> Option<int>
    decreases s.len() - from,
{
    if d.len() == 0 {
        if 0 <= from <= s.len() {
            Some(from)
        } else {
            None
        }
    } else if from + d.len() > s.len() {
        None
    } else if s.subrange(from, from + d.len()) == d {
        Some(from)
    } else {
        find_from(s, d, from + 1)
    }
}

proof fn lemma_find_from_bounds(s: Seq<char>, d: Seq<char>, from: int)
    ensures
        find_from(s, d, from) matches Some(i) ==> from <= i && i + d.len() <= s.len(),
    decreases s.len() - from,
{
    if d.len() == 0 {
    } else if from + d.len() > s.len() {
    } else if s.subrange(from, from + d.len()) == d {
    } else {
        lemma_find_from_bounds(s, d, from + 1);
    }
}

/// Finds the first occurrence of `d` in `s` at or after position `from`.
pub fn find_at(s: &str, d: &str, from: usize) -> (r: Option<usize>)
    requires
        from <= s@.len(),
    ensures
        r is Some <==> find_from(s@, d@, from as int) is Some,
        r matches Some(i) ==> find_from(s@, d@, from as int) == Some(i as int),
{
    let n = s.unicode_len();
    let m = d.unicode_len();
    if m == 0 {
        return Some(from);
    }
    let mut i: usize = from;
    while i <= n && m <= n - i
        invariant
            from <= i <= n,
            n == s@.len(),
            m == d@.len(),
            m >= 1,
            find_from(s@, d@, from as int) == find_from(s@, d@, i as int),
        decreases n - i,
    {
        if match_at(s, d, i) {
            return Some(i);
        }
        i += 1;
    }
    None
}

/// The pieces of `s` separated by the occurrences of `d`, scanning for the
/// leftmost occurrence from position `from` on.
pub open spec fn split_from(s: Seq<char>, d: Seq<char>, from: int) -> Seq<Seq<char>>
    decreases s.len() - from,
        when d.len() >= 1
        via lemma_split_from_decreases
{
    match find_from(s, d, from) {
        None => seq![s.skip(from)],
        Some(i) => seq![s.subrange(from, i)] + split_from(s, d, i + d.len()),
    }
}

#[via_fn]
proof fn lemma_split_from_decreases(s: Seq<char>, d: Seq<char>, from: int) {
    lemma_find_from_bounds(s, d, from);
}

/// The pieces of `s` separated by the occurrences of `d`. An empty separator
/// splits between every pair of neighbouring characters, with an empty piece
/// at each end.
pub open spec fn split_spec(s: Seq<char>, d: Seq<char>) -> Seq<Seq<char>> {
    if d.len() == 0 {
        seq![Seq::<char>::empty()] + Seq::new(s.len(), |i: int| seq![s[i]]) + seq![
            Seq::<char>::empty(),
        ]
    } else {
        split_from(s, d, 0)
    }
}

/// Splits `s` on every occurrence of the separator `d`.
pub fn split_str(s: &str, d: &str) -> (parts: Vec<String>)
    ensures
        parts.deep_view() == split_spec(s@, d@),
{
    let n = s.unicode_len();
    let m = d.unicode_len();
    let mut parts: Vec<String> = Vec::new();
    if m == 0 {
        parts.push(String::new());
        let mut i: usize = 0;
        while i < n
            invariant
                i <= n,
                n == s@.len(),
                parts.deep_view() =~= seq![Seq::<char>::empty()] + Seq::new(
                    i as nat,
                    |k: int| seq![s@[k]],
                ),
            decreases n - i,
        {
            let piece = s.substring_char(i, i + 1);
            proof {
                assert(piece@ =~= seq![s@[i as int]]);
            }
            let ghost dv0 = parts.deep_view();
            parts.push(String::from_str(piece));
            proof {
                assert(parts.deep_view() =~= dv0.push(piece@));
                assert(dv0.push(piece@) =~= seq![Seq::<char>::empty()] + Seq::new(
                    (i + 1) as nat,
                    |k: int| seq![s@[k]],
                ));
            }
            i += 1;
        }
        let ghost dv1 = parts.deep_view();
        parts.push(String::new());
        proof {
            assert(parts.deep_view() =~= dv1.push(Seq::<char>::empty()));
            assert(parts.deep_view() =~~= split_spec(s@, d@));
        }
        return parts;
    }
    let mut from: usize = 0;
    loop
        invariant
            from <= n,
            n == s@.len(),
            m == d@.len(),
            m >= 1,
            split_spec(s@, d@) == parts.deep_view() + split_from(s@, d@, from as int),
        decreases n - from,
    {
        proof {
            lemma_find_from_bounds(s@, d@, from as int);
        }
        match find_at(s, d, from) {
            Some(i) => {
                let ghost dv0 = parts.deep_view();
                parts.push(String::from_str(s.substring_char(from, i)));
                proof {
                    assert(parts.deep_view() =~= dv0.push(s@.subrange(from as int, i as int)));
                    assert(split_from(s@, d@, from as int) == seq![
                        s@.subrange(from as int, i as int),
                    ] + split_from(s@, d@, i + m));
                    assert(parts.deep_view() + split_from(s@, d@, i + m) =~~= dv0 + split_from(
                        s@,
                        d@,
                        from as int,
                    ));
                }
                from = i + m;
            },
            None => {
                let ghost dv0 = parts.deep_view();
                parts.push(String::from_str(s.substring_char(from, n)));
                proof {
                    assert(s@.subrange(from as int, n as int) =~= s@.skip(from as int));
                    assert(parts.deep_view() =~= dv0.push(s@.skip(from as int)));
                    assert(parts.deep_view() =~~= dv0 + split_from(s@, d@, from as int));
                }
                return parts;
            },
        }
    }
}

/// The parts joined with `sep` between neighbours.
pub open spec fn join_with(parts: Seq<Seq<char>>, sep: Seq<char>) -> Seq<char>
    decreases parts.len(),
{
    if parts.len() == 0 {
        Seq::empty()
    } else if parts.len() == 1 {
        parts[0]
    } else {
        parts[0] + sep + join_with(parts.drop_first(), sep)
    }
}

proof fn lemma_join_with_push(parts: Seq<Seq<char>>, sep: Seq<char>, x: Seq<char>)
    ensures
        join_with(parts.push(x), sep) == if parts.len() == 0 {
            x
        } else {
            join_with(parts, sep) + sep + x
        },
    decreases parts.len(),
{
    if parts.len() == 0 {
        assert(parts.push(x)[0] == x);
    } else if parts.len() == 1 {
        assert(parts.push(x).drop_first() =~= seq![x]);
        assert(join_with(seq![x], sep) == x);
        assert(parts.push(x)[0] + sep + x =~= join_with(parts, sep) + sep + x);
    } else {
        lemma_join_with_push(parts.drop_first(), sep, x);
        assert(parts.push(x).drop_first() =~= parts.drop_first().push(x));
        assert(parts.push(x)[0] == parts[0]);
        assert(parts[0] + sep + (join_with(parts.drop_first(), sep) + sep + x) =~= (parts[0] + sep
            + join_with(parts.drop_first(), sep)) + sep + x);
    }
}

/// Joins the parts with `sep` between neighbours.
pub fn join_strings(parts: &Vec<String>, sep: &str) -> (r: String)
    ensures
        r@ == join_with(parts.deep_view(), sep@),
{
    let mut r = String::new();
    let mut i: usize = 0;
    while i < parts.len()
        invariant
            i <= parts.deep_view().len(),
            parts.deep_view().len() == parts@.len(),
            r@ == join_with(parts.deep_view().take(i as int), sep@),
        decreases parts@.len() - i,
    {
        if i > 0 {
            r.append(sep);
        }
        r.append(parts[i].as_str());
        proof {
            let dv = parts.deep_view();
            lemma_join_with_push(dv.take(i as int), sep@, dv[i as int]);
            assert(dv.take(i as int).push(dv[i as int]) =~= dv.take(i + 1));
        }
        i += 1;
    }
    proof {
        assert(parts.deep_view().take(parts.deep_view().len() as int) =~= parts.deep_view());
    }
    r
}

/// What `str::to_lowercase` returns: a function of the characters alone.
pub uninterp spec fn lower_of(s: Seq<char>) -> Seq<char>;

/// Relies on `str::to_lowercase`: the result depends only on the characters
/// of the input, and an empty string stays empty.
#[verifier::external_body]
pub(crate) fn lowercase(s: &str) -> (r: String)
    ensures
        r@ == lower_of(s@),
        s@.len() == 0 ==> r@.len() == 0,
{
    s.to_lowercase()
}

} // verus!
