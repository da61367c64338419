//! Line-level org syntax: keyword declarations, headline star lines, title
//! tokens, and property drawers.

use vstd::prelude::*;
use crate::strutil::{
    find_from,
    has_prefix,
    is_space,
    lemma_find_from_bounds,
    lemma_skip_spaces_bounds,
    seq_eq_ci,
    skip_spaces,
    trim_spec,
};

verus! {

/// A `#+KEY: value` declaration: the key between `#+` and the first colon of
/// the trimmed line, and the trimmed value after it.
pub open spec fn kw_line(line: Seq<char>) -> Option<(Seq<char>, Seq<char>)> {
    let t = trim_spec(line);
    if has_prefix(t, "#+"@) {
        let j = find_from(t, ':', 2);
        if j < t.len() {
            Some((t.subrange(2, j), trim_spec(t.subrange(j + 1, t.len() as int))))
        } else {
            None
        }
    } else {
        None
    }
}

/// Parse a `#+KEY: value` declaration from a line.
pub fn kw_line_exec(line: &str) -> (r: Option<(String, String)>)
    ensures
        match r {
            Some(kv) => kw_line(line@) == Some((kv.0@, kv.1@)),
            None => kw_line(line@) is None,
        },
{
    let t = crate::strutil::trim(line);
    proof {
        reveal_strlit("#+");
    }
    if !crate::strutil::starts_with(t, "#+") {
        return None;
    }
    let tlen = t.unicode_len();
    assert(2 <= tlen);
    let j = crate::strutil::find_char_from(t, ':', 2);
    proof {
        lemma_find_from_bounds(t@, ':', 2);
    }
    if j >= tlen {
        return None;
    }
    let key = t.substring_char(2, j).to_owned();
    let value = crate::strutil::trim(t.substring_char(j + 1, tlen)).to_owned();
    Some((key, value))
}

/// The number of leading stars on a line.
pub open spec fn star_count(line: Seq<char>) -> int {
    star_count_from(line, 0)
}

pub open spec fn star_count_from(line: Seq<char>, i: int) -> int
    decreases line.len() - i,
{
    if i < 0 || i >= line.len() {
        i
    } else if line[i] == '*' {
        star_count_from(line, i + 1)
    } else {
        i
    }
}

pub proof fn lemma_star_count_bounds(line: Seq<char>, i: int)
    requires
        0 <= i <= line.len(),
    ensures
        i <= star_count_from(line, i) <= line.len(),
        forall|j: int| i <= j < star_count_from(line, i) ==> line[j] == '*',
        star_count_from(line, i) < line.len() ==> line[star_count_from(line, i)] != '*',
    decreases line.len() - i,
{
    if i < line.len() && line[i] == '*' {
        lemma_star_count_bounds(line, i + 1);
    }
}

/// A headline line: one or more stars, then a space.
pub open spec fn is_headline_line(line: Seq<char>) -> bool {
    let k = star_count(line);
    k >= 1 && k < line.len() && line[k] == ' '
}

/// Count the stars that begin a line.
pub fn star_count_exec(line: &str) -> (r: usize)
    ensures
        r == star_count(line@),
{
    let n = line.unicode_len();
    let mut i: usize = 0;
    while i < n
        invariant
            n == line@.len(),
            0 <= i <= n,
            forall|j: int| 0 <= j < i ==> line@[j] == '*',
        decreases n - i,
    {
        if line.get_char(i) != '*' {
            proof {
                lemma_star_count_at(line@, 0, i as int);
            }
            return i;
        }
        i = i + 1;
    }
    proof {
        lemma_star_count_at(line@, 0, n as int);
    }
    n
}

proof fn lemma_star_count_at(line: Seq<char>, from: int, k: int)
    requires
        0 <= from <= k <= line.len(),
        forall|j: int| from <= j < k ==> line[j] == '*',
        k < line.len() ==> line[k] != '*',
    ensures
        star_count_from(line, from) == k,
    decreases k - from,
{
    if from < k {
        lemma_star_count_at(line, from + 1, k);
    }
}

/// Whether a line opens a headline.
pub fn is_headline_line_exec(line: &str) -> (r: bool)
    ensures
        r == is_headline_line(line@),
{
    let k = star_count_exec(line);
    let n = line.unicode_len();
    k >= 1 && k < n && line.get_char(k) == ' '
}

/// The index of the first whitespace character at or after `i`, or the length.
pub open spec fn token_end(s: Seq<char>, i: int) -> int
    decreases s.len() - i,
{
    if i < 0 || i >= s.len() {
        s.len() as int
    } else if is_space(s[i]) {
        i
    } else {
        token_end(s, i + 1)
    }
}

pub proof fn lemma_token_end_bounds(s: Seq<char>, i: int)
    requires
        0 <= i <= s.len(),
    ensures
        i <= token_end(s, i) <= s.len(),
        forall|j: int| i <= j < token_end(s, i) ==> !is_space(s[j]),
        token_end(s, i) < s.len() ==> is_space(s[token_end(s, i)]),
    decreases s.len() - i,
{
    if i < s.len() && !is_space(s[i]) {
        lemma_token_end_bounds(s, i + 1);
    }
}

proof fn lemma_token_end_at(s: Seq<char>, from: int, k: int)
    requires
        0 <= from <= k <= s.len(),
        forall|j: int| from <= j < k ==> !is_space(s[j]),
        k < s.len() ==> is_space(s[k]),
    ensures
        token_end(s, from) == k,
    decreases k - from,
{
    if from < k {
        lemma_token_end_at(s, from + 1, k);
    }
}

/// Find the end of the token starting at `from`.
pub fn token_end_exec(s: &str, from: usize) -> (r: usize)
    requires
        from <= s@.len(),
    ensures
        r == token_end(s@, from as int),
{
    let n = s.unicode_len();
    let mut i: usize = from;
    while i < n
        invariant
            n == s@.len(),
            from <= i <= n,
            forall|j: int| from <= j < i ==> !is_space(s@[j]),
        decreases n - i,
    {
        let c = s.get_char(i);
        if c == ' ' || c == '\t' || c == '\r' || c == '\n' {
            proof {
                lemma_token_end_at(s@, from as int, i as int);
            }
            return i;
        }
        i = i + 1;
    }
    proof {
        lemma_token_end_at(s@, from as int, n as int);
    }
    n
}

/// Find the first non-whitespace position at or after `from`.
pub fn skip_spaces_exec(s: &str, from: usize) -> (r: usize)
    requires
        from <= s@.len(),
    ensures
        r == skip_spaces(s@, from as int),
{
    let n = s.unicode_len();
    let mut i: usize = from;
    while i < n
        invariant
            n == s@.len(),
            from <= i <= n,
            forall|j: int| from <= j < i ==> is_space(s@[j]),
        decreases n - i,
    {
        let c = s.get_char(i);
        if !(c == ' ' || c == '\t' || c == '\r' || c == '\n') {
            proof {
                lemma_skip_spaces_shifted(s@, from as int, i as int);
            }
            return i;
        }
        i = i + 1;
    }
    proof {
        lemma_skip_spaces_shifted(s@, from as int, n as int);
    }
    n
}

proof fn lemma_skip_spaces_shifted(s: Seq<char>, from: int, k: int)
    requires
        0 <= from <= k <= s.len(),
        forall|j: int| from <= j < k ==> is_space(s[j]),
        k < s.len() ==> !is_space(s[k]),
    ensures
        skip_spaces(s, from) == k,
    decreases k - from,
{
    if from < k {
        lemma_skip_spaces_shifted(s, from + 1, k);
    }
}

/// The whitespace-separated tokens of `s`, from position `i` on.
pub open spec fn tokens_from(s: Seq<char>, i: int) -> Seq<Seq<char>>
    decreases s.len() - i via tokens_from_dec
{
    if !(0 <= i <= s.len()) {
        Seq::empty()
    } else {
        let a = skip_spaces(s, i);
        if a >= s.len() {
            Seq::empty()
        } else {
            let b = token_end(s, a);
            seq![s.subrange(a, b)] + tokens_from(s, b)
        }
    }
}

#[via_fn]
proof fn tokens_from_dec(s: Seq<char>, i: int) {
    if 0 <= i <= s.len() {
        lemma_skip_spaces_bounds(s, i);
        let a = skip_spaces(s, i);
        if a < s.len() {
            lemma_token_end_bounds(s, a);
        }
    }
}

/// The whitespace-separated tokens of `s`.
pub open spec fn tokens_spec(s: Seq<char>) -> Seq<Seq<char>> {
    tokens_from(s, 0)
}

/// Split a string into whitespace-separated tokens.
pub fn tokens_exec(s: &str) -> (r: Vec<String>)
    ensures
        r.deep_view() == tokens_spec(s@),
{
    let n = s.unicode_len();
    let mut out: Vec<String> = Vec::new();
    let mut i: usize = 0;
    loop
        invariant
            n == s@.len(),
            0 <= i <= n,
            tokens_spec(s@) =~= out.deep_view() + tokens_from(s@, i as int),
        ensures
            out.deep_view() == tokens_spec(s@),
        decreases n - i,
    {
        let a = skip_spaces_exec(s, i);
        proof {
            lemma_skip_spaces_bounds(s@, i as int);
        }
        if a >= n {
            assert(tokens_from(s@, i as int) =~= Seq::<Seq<char>>::empty());
            assert(out.deep_view() + tokens_from(s@, i as int) =~= out.deep_view());
            break ;
        }
        let b = token_end_exec(s, a);
        proof {
            lemma_token_end_bounds(s@, a as int);
        }
        let ghost before = out.deep_view();
        out.push(s.substring_char(a, b).to_owned());
        proof {
            assert(out.deep_view() =~= before + seq![s@.subrange(a as int, b as int)]);
            assert(tokens_spec(s@) =~= out.deep_view() + tokens_from(s@, b as int));
        }
        i = b;
    }
    out
}

/// A token with any parenthesized shortcut suffix stripped: the part before
/// the first `(`.
pub open spec fn strip_shortcut(tok: Seq<char>) -> Seq<char> {
    tok.subrange(0, find_from(tok, '(', 0))
}

/// The keywords of a declaration segment: its tokens, shortcut suffixes
/// stripped, empty results dropped.
pub open spec fn keywords_in(toks: Seq<Seq<char>>) -> Seq<Seq<char>>
    decreases toks.len(),
{
    if toks.len() == 0 {
        Seq::empty()
    } else {
        let w = strip_shortcut(toks[0]);
        if w.len() > 0 {
            seq![w] + keywords_in(toks.drop_first())
        } else {
            keywords_in(toks.drop_first())
        }
    }
}

/// The keywords named by one side of a `#+TODO:` declaration.
pub open spec fn segment_keywords(s: Seq<char>) -> Seq<Seq<char>> {
    keywords_in(tokens_spec(s))
}

/// Extract the keywords of one declaration segment.
pub fn segment_keywords_exec(s: &str) -> (r: Vec<String>)
    ensures
        r.deep_view() == segment_keywords(s@),
{
    let toks = tokens_exec(s);
    let n = toks.len();
    let mut out: Vec<String> = Vec::new();
    let mut i: usize = 0;
    assert(tokens_spec(s@).skip(0) =~= tokens_spec(s@));
    while i < n
        invariant
            n == toks@.len(),
            toks.deep_view() == tokens_spec(s@),
            0 <= i <= n,
            keywords_in(tokens_spec(s@)) =~= out.deep_view() + keywords_in(
                tokens_spec(s@).skip(i as int),
            ),
        decreases n - i,
    {
        let tok = &toks[i];
        let tlen = tok.as_str().unicode_len();
        let j = crate::strutil::find_char_from(tok.as_str(), '(', 0);
        proof {
            lemma_find_from_bounds(tok@, '(', 0);
            assert(tok@ == tokens_spec(s@).skip(i as int)[0]);
            assert(tokens_spec(s@).skip(i as int).drop_first() =~= tokens_spec(s@).skip(i + 1));
        }
        if j > 0 {
            let ghost before = out.deep_view();
            out.push(tok.as_str().substring_char(0, j).to_owned());
            proof {
                assert(out.deep_view() =~= before + seq![strip_shortcut(tok@)]);
            }
        } else {
            assert(strip_shortcut(tok@).len() == 0);
        }
        proof {
            assert(keywords_in(tokens_spec(s@)) =~= out.deep_view() + keywords_in(
                tokens_spec(s@).skip(i + 1),
            ));
        }
        i = i + 1;
    }
    assert(tokens_spec(s@).skip(n as int) =~= Seq::<Seq<char>>::empty());
    assert(out.deep_view() =~= segment_keywords(s@));
    out
}

/// A `:KEY: value` drawer property line: the key between the first two colons
/// of the trimmed line, and the trimmed value after the second.
pub open spec fn prop_line(line: Seq<char>) -> Option<(Seq<char>, Seq<char>)> {
    let t = trim_spec(line);
    if t.len() >= 2 && t[0] == ':' {
        let j = find_from(t, ':', 1);
        if j < t.len() && j > 1 {
            Some((t.subrange(1, j), trim_spec(t.subrange(j + 1, t.len() as int))))
        } else {
            None
        }
    } else {
        None
    }
}

/// Parse a `:KEY: value` drawer property line.
pub fn prop_line_exec(line: &str) -> (r: Option<(String, String)>)
    ensures
        match r {
            Some(kv) => prop_line(line@) == Some((kv.0@, kv.1@)),
            None => prop_line(line@) is None,
        },
{
    let t = crate::strutil::trim(line);
    let tlen = t.unicode_len();
    if tlen < 2 || t.get_char(0) != ':' {
        return None;
    }
    let j = crate::strutil::find_char_from(t, ':', 1);
    proof {
        lemma_find_from_bounds(t@, ':', 1);
    }
    if j >= tlen || j <= 1 {
        return None;
    }
    let key = t.substring_char(1, j).to_owned();
    let value = crate::strutil::trim(t.substring_char(j + 1, tlen)).to_owned();
    Some((key, value))
}

/// Case-insensitive equality against an expected name.
pub fn name_is(s: &str, name: &str) -> (r: bool)
    ensures
        r == seq_eq_ci(s@, name@),
{
    crate::strutil::str_eq_ci(s, name)
}

} // verus!
