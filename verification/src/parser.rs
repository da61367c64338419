//! The document parser: scan `#+KEY:` declarations, resolve the effective
//! TODO keywords, extract the flat headline sequence with drawer properties
//! and body content, build the hierarchy, and assemble the document.

use vstd::prelude::*;
use crate::document::{DocumentV, OrgDocument};
use crate::headline::{hview, HeadlineV, OrgHeadline};
use crate::hierarchy::{build_headline_hierarchy, hier_all, level_of, with_doc_id_all, with_tags_all};
use crate::orgline::{
    is_headline_line,
    kw_line,
    prop_line,
    segment_keywords,
    star_count,
    token_end,
};
use crate::props::{props_set, Properties};
use crate::strutil::{
    dec_digits,
    find_from,
    has_prefix,
    is_space,
    lines_spec,
    seq_eq_ci,
    split_spec,
    trim_spec,
};
use crate::title::{OrgTitle, TitleV};
use crate::todo::TodoConfiguration;

verus! {

/// An error of the parsing layer.
#[derive(Debug)]
pub enum OrgError {
    /// The content could not be interpreted as a document.
    ParseError(String),
    /// A file could not be read.
    FileError(String),
}

impl OrgError {
    /// A readable description of the error.
    pub fn message(&self) -> (r: String)
        ensures
            match self {
                OrgError::ParseError(m) => r@ == "Failed to parse org document: "@ + m@,
                OrgError::FileError(m) => r@ == "File error: "@ + m@,
            },
    {
        match self {
            OrgError::ParseError(m) => {
                let mut s = String::from_str("Failed to parse org document: ");
                s.append(m.as_str());
                s
            },
            OrgError::FileError(m) => {
                let mut s = String::from_str("File error: ");
                s.append(m.as_str());
                s
            },
        }
    }
}

/// Relies on uuid's `Uuid::new_v4` and its hyphenated `Display` form: a fresh
/// random identifier, 36 characters long.
#[verifier::external_body]
fn random_uuid_string() -> (r: String)
    ensures
        r@.len() == 36,
{
    uuid::Uuid::new_v4().to_string()
}

/// Relies on chrono's `Utc::now` and `to_rfc3339`: the current time rendered
/// as text. The result depends on the clock, so nothing is claimed of it.
#[verifier::external_body]
pub(crate) fn now_rfc3339() -> String {
    chrono::Utc::now().to_rfc3339()
}

/// The value of the first `#+KEY:` line whose key is `name`, compared
/// case-insensitively.
pub open spec fn first_kw_value(lines: Seq<Seq<char>>, name: Seq<char>) -> Option<Seq<char>>
    decreases lines.len(),
{
    if lines.len() == 0 {
        None
    } else {
        match kw_line(lines[0]) {
            Some(kv) => if seq_eq_ci(kv.0, name) {
                Some(kv.1)
            } else {
                first_kw_value(lines.drop_first(), name)
            },
            None => first_kw_value(lines.drop_first(), name),
        }
    }
}

proof fn lemma_first_kw_value_at(lines: Seq<Seq<char>>, name: Seq<char>, i: int)
    requires
        0 <= i < lines.len(),
        kw_line(lines[i]) matches Some(kv) && seq_eq_ci(kv.0, name),
        forall|j: int|
            0 <= j < i ==> !(kw_line(#[trigger] lines[j]) matches Some(kv) && seq_eq_ci(
                kv.0,
                name,
            )),
    ensures
        first_kw_value(lines, name) == Some(kw_line(lines[i])->Some_0.1),
    decreases i,
{
    if i > 0 {
        lemma_first_kw_value_at(lines.drop_first(), name, i - 1);
    }
}

proof fn lemma_first_kw_value_none(lines: Seq<Seq<char>>, name: Seq<char>)
    requires
        forall|j: int|
            0 <= j < lines.len() ==> !(kw_line(#[trigger] lines[j]) matches Some(kv) && seq_eq_ci(
                kv.0,
                name,
            )),
    ensures
        first_kw_value(lines, name) is None,
    decreases lines.len(),
{
    if lines.len() > 0 {
        lemma_first_kw_value_none(lines.drop_first(), name);
    }
}

/// Find the value of the first declaration named `name` among the lines.
fn first_kw_value_exec(lines: &Vec<String>, name: &str) -> (r: Option<String>)
    ensures
        match r {
            Some(v) => first_kw_value(lines.deep_view(), name@) == Some(v@),
            None => first_kw_value(lines.deep_view(), name@) is None,
        },
{
    let n = lines.len();
    let mut i: usize = 0;
    while i < n
        invariant
            n == lines@.len(),
            0 <= i <= n,
            forall|j: int|
                0 <= j < i ==> !(kw_line(#[trigger] lines.deep_view()[j]) matches Some(kv)
                    && seq_eq_ci(kv.0, name@)),
        decreases n - i,
    {
        match crate::orgline::kw_line_exec(lines[i].as_str()) {
            Some(kv) => {
                if crate::orgline::name_is(kv.0.as_str(), name) {
                    proof {
                        lemma_first_kw_value_at(lines.deep_view(), name@, i as int);
                    }
                    return Some(kv.1);
                }
            },
            None => {},
        }
        i = i + 1;
    }
    proof {
        lemma_first_kw_value_none(lines.deep_view(), name@);
    }
    None
}

/// The document title: the first `#+TITLE:` value, or `Untitled Document`.
pub open spec fn document_title_spec(content: Seq<char>) -> Seq<char> {
    match first_kw_value(lines_spec(content), "TITLE"@) {
        Some(v) => v,
        None => "Untitled Document"@,
    }
}

/// Extract the document title from the content.
pub fn extract_document_title(lines: &Vec<String>) -> (r: String)
    ensures
        match first_kw_value(lines.deep_view(), "TITLE"@) {
            Some(v) => r@ == v,
            None => r@ == "Untitled Document"@,
        },
{
    match first_kw_value_exec(lines, "TITLE") {
        Some(v) => v,
        None => String::from_str("Untitled Document"),
    }
}

/// The document category: the first `#+CATEGORY:` value, or empty.
pub open spec fn document_category_spec(content: Seq<char>) -> Seq<char> {
    match first_kw_value(lines_spec(content), "CATEGORY"@) {
        Some(v) => v,
        None => Seq::empty(),
    }
}

/// Extract the document category from the content.
pub fn extract_category(lines: &Vec<String>) -> (r: String)
    ensures
        match first_kw_value(lines.deep_view(), "CATEGORY"@) {
            Some(v) => r@ == v,
            None => r@.len() == 0,
        },
{
    match first_kw_value_exec(lines, "CATEGORY") {
        Some(v) => v,
        None => String::new(),
    }
}

/// Index of the first character at or after `i` that is not `c`.
pub open spec fn skip_eq(s: Seq<char>, i: int, c: char) -> int
    decreases s.len() - i,
{
    if i < 0 || i >= s.len() {
        s.len() as int
    } else if s[i] == c {
        skip_eq(s, i + 1, c)
    } else {
        i
    }
}

/// One past the last character before `i` that is not `c`.
pub open spec fn rskip_eq(s: Seq<char>, i: int, c: char) -> int
    decreases i,
{
    if i <= 0 || i > s.len() {
        0
    } else if s[i - 1] == c {
        rskip_eq(s, i - 1, c)
    } else {
        i
    }
}

proof fn lemma_skip_eq_at(s: Seq<char>, from: int, k: int, c: char)
    requires
        0 <= from <= k <= s.len(),
        forall|j: int| from <= j < k ==> s[j] == c,
        k < s.len() ==> s[k] != c,
    ensures
        skip_eq(s, from, c) == k,
    decreases k - from,
{
    if from < k {
        lemma_skip_eq_at(s, from + 1, k, c);
    }
}

proof fn lemma_rskip_eq_at(s: Seq<char>, from: int, k: int, c: char)
    requires
        0 <= k <= from <= s.len(),
        forall|j: int| k <= j < from ==> s[j] == c,
        k > 0 ==> s[k - 1] != c,
    ensures
        rskip_eq(s, from, c) == k,
    decreases from - k,
{
    if k < from {
        lemma_rskip_eq_at(s, from - 1, k, c);
    }
}

/// A filetags value of the form `:tag1:tag2:`: leading and trailing colons
/// stripped, the rest split at colons. A value missing either colon yields no
/// tags.
pub open spec fn filetags_of_value(v: Seq<char>) -> Seq<Seq<char>> {
    if v.len() >= 1 && v[0] == ':' && v.last() == ':' {
        let a = skip_eq(v, 0, ':');
        if a == v.len() {
            split_spec(Seq::empty(), ':')
        } else {
            split_spec(v.subrange(a, rskip_eq(v, v.len() as int, ':')), ':')
        }
    } else {
        Seq::empty()
    }
}

/// All file tags: the tags of every `#+FILETAGS:` line, in order.
pub open spec fn filetags_spec_lines(lines: Seq<Seq<char>>) -> Seq<Seq<char>>
    decreases lines.len(),
{
    if lines.len() == 0 {
        Seq::empty()
    } else {
        let head: Seq<Seq<char>> = match kw_line(lines[0]) {
            Some(kv) => if seq_eq_ci(kv.0, "FILETAGS"@) {
                filetags_of_value(kv.1)
            } else {
                Seq::empty()
            },
            None => Seq::empty(),
        };
        head + filetags_spec_lines(lines.drop_first())
    }
}

/// The file tags of a document's content.
pub open spec fn filetags_spec(content: Seq<char>) -> Seq<Seq<char>> {
    filetags_spec_lines(lines_spec(content))
}

/// The tags of one filetags value.
fn filetags_of_value_exec(v: &str) -> (r: Vec<String>)
    ensures
        r.deep_view() == filetags_of_value(v@),
{
    let vlen = v.unicode_len();
    if vlen == 0 || v.get_char(0) != ':' || v.get_char(vlen - 1) != ':' {
        let r: Vec<String> = Vec::new();
        assert(r.deep_view() =~= filetags_of_value(v@));
        return r;
    }
    let mut a: usize = 0;
    while a < vlen && v.get_char(a) == ':'
        invariant
            vlen == v@.len(),
            0 <= a <= vlen,
            forall|j: int| 0 <= j < a ==> v@[j] == ':',
        decreases vlen - a,
    {
        a = a + 1;
    }
    proof {
        lemma_skip_eq_at(v@, 0, a as int, ':');
    }
    if a == vlen {
        let r = crate::strutil::split_on_char(v.substring_char(0, 0), ':');
        assert(v@.subrange(0, 0) =~= Seq::<char>::empty());
        return r;
    }
    let mut b: usize = vlen;
    while b > a && v.get_char(b - 1) == ':'
        invariant
            vlen == v@.len(),
            0 <= a < vlen,
            a <= b <= vlen,
            v@[a as int] != ':',
            forall|j: int| b <= j < vlen ==> v@[j] == ':',
        decreases b,
    {
        b = b - 1;
    }
    proof {
        assert(b > a ==> v@[b - 1] != ':');
        assert(b == a ==> b > 0 && v@[b - 1] != ':');
        lemma_rskip_eq_at(v@, vlen as int, b as int, ':');
    }
    crate::strutil::split_on_char(v.substring_char(a, b), ':')
}

/// Extract the file tags from the content's lines.
pub fn extract_filetags(lines: &Vec<String>) -> (r: Vec<String>)
    ensures
        r.deep_view() == filetags_spec_lines(lines.deep_view()),
{
    let n = lines.len();
    let mut out: Vec<String> = Vec::new();
    let mut i: usize = 0;
    assert(lines.deep_view().skip(0) =~= lines.deep_view());
    while i < n
        invariant
            n == lines@.len(),
            0 <= i <= n,
            filetags_spec_lines(lines.deep_view()) =~= out.deep_view() + filetags_spec_lines(
                lines.deep_view().skip(i as int),
            ),
        decreases n - i,
    {
        proof {
            assert(lines.deep_view().skip(i as int)[0] == lines.deep_view()[i as int]);
            assert(lines.deep_view().skip(i as int).drop_first() =~= lines.deep_view().skip(
                i + 1,
            ));
        }
        match crate::orgline::kw_line_exec(lines[i].as_str()) {
            Some(kv) => {
                if crate::orgline::name_is(kv.0.as_str(), "FILETAGS") {
                    let tags = filetags_of_value_exec(kv.1.as_str());
                    let m = tags.len();
                    let mut k: usize = 0;
                    let ghost out0 = out.deep_view();
                    while k < m
                        invariant
                            m == tags@.len(),
                            0 <= k <= m,
                            out.deep_view() =~= out0 + tags.deep_view().subrange(0, k as int),
                        decreases m - k,
                    {
                        let ghost before = out.deep_view();
                        out.push(tags[k].clone());
                        proof {
                            assert(out.deep_view() =~= before + seq![tags.deep_view()[k as int]]);
                            assert(tags.deep_view().subrange(0, k as int) + seq![
                                tags.deep_view()[k as int],
                            ] =~= tags.deep_view().subrange(0, k + 1));
                        }
                        k = k + 1;
                    }
                    assert(tags.deep_view().subrange(0, m as int) =~= tags.deep_view());
                }
            },
            None => {},
        }
        proof {
            assert(filetags_spec_lines(lines.deep_view()) =~= out.deep_view()
                + filetags_spec_lines(lines.deep_view().skip(i + 1)));
        }
        i = i + 1;
    }
    proof {
        assert(filetags_spec_lines(lines.deep_view().skip(n as int)) =~= Seq::<Seq<char>>::empty());
        assert(out.deep_view() =~= filetags_spec_lines(lines.deep_view()));
    }
    out
}

/// Whether a key is one of the specially handled declarations.
pub open spec fn is_special_key(k: Seq<char>) -> bool {
    seq_eq_ci(k, "TITLE"@) || seq_eq_ci(k, "FILETAGS"@) || seq_eq_ci(k, "CATEGORY"@) || seq_eq_ci(
        k,
        "TODO"@,
    )
}

/// The remaining `#+KEY: value` declarations gathered as document properties,
/// later lines overriding earlier ones with the same key.
pub open spec fn doc_props_from(
    lines: Seq<Seq<char>>,
    i: int,
    acc: Seq<(Seq<char>, Seq<char>)>,
) -> Seq<(Seq<char>, Seq<char>)>
    decreases lines.len() - i,
{
    if !(0 <= i < lines.len()) {
        acc
    } else {
        match kw_line(lines[i]) {
            Some(kv) => if is_special_key(kv.0) {
                doc_props_from(lines, i + 1, acc)
            } else {
                doc_props_from(lines, i + 1, props_set(acc, kv.0, kv.1))
            },
            None => doc_props_from(lines, i + 1, acc),
        }
    }
}

/// The document properties of a content.
pub open spec fn doc_props_spec(content: Seq<char>) -> Seq<(Seq<char>, Seq<char>)> {
    doc_props_from(lines_spec(content), 0, Seq::empty())
}

/// Extract the document-level properties from the content's lines.
pub fn extract_document_properties(lines: &Vec<String>) -> (r: Properties)
    ensures
        r@ == doc_props_from(lines.deep_view(), 0, Seq::empty()),
{
    let n = lines.len();
    let mut props = Properties::new();
    let mut i: usize = 0;
    while i < n
        invariant
            n == lines@.len(),
            0 <= i <= n,
            doc_props_from(lines.deep_view(), 0, Seq::empty()) == doc_props_from(
                lines.deep_view(),
                i as int,
                props@,
            ),
        decreases n - i,
    {
        match crate::orgline::kw_line_exec(lines[i].as_str()) {
            Some(kv) => {
                let special = crate::orgline::name_is(kv.0.as_str(), "TITLE")
                    || crate::orgline::name_is(kv.0.as_str(), "FILETAGS")
                    || crate::orgline::name_is(kv.0.as_str(), "CATEGORY")
                    || crate::orgline::name_is(kv.0.as_str(), "TODO");
                if !special {
                    props.set(kv.0, kv.1);
                }
            },
            None => {},
        }
        i = i + 1;
    }
    props
}

/// The values of the `#+TODO:` declarations, in order.
pub open spec fn todo_values_spec(lines: Seq<Seq<char>>) -> Seq<Seq<char>>
    decreases lines.len(),
{
    if lines.len() == 0 {
        Seq::empty()
    } else {
        let head: Seq<Seq<char>> = match kw_line(lines[0]) {
            Some(kv) => if seq_eq_ci(kv.0, "TODO"@) {
                seq![kv.1]
            } else {
                Seq::empty()
            },
            None => Seq::empty(),
        };
        head + todo_values_spec(lines.drop_first())
    }
}

/// Collect the values of the `#+TODO:` declarations.
fn todo_values_exec(lines: &Vec<String>) -> (r: Vec<String>)
    ensures
        r.deep_view() == todo_values_spec(lines.deep_view()),
{
    let n = lines.len();
    let mut out: Vec<String> = Vec::new();
    let mut i: usize = 0;
    assert(lines.deep_view().skip(0) =~= lines.deep_view());
    while i < n
        invariant
            n == lines@.len(),
            0 <= i <= n,
            todo_values_spec(lines.deep_view()) =~= out.deep_view() + todo_values_spec(
                lines.deep_view().skip(i as int),
            ),
        decreases n - i,
    {
        proof {
            assert(lines.deep_view().skip(i as int)[0] == lines.deep_view()[i as int]);
            assert(lines.deep_view().skip(i as int).drop_first() =~= lines.deep_view().skip(
                i + 1,
            ));
        }
        match crate::orgline::kw_line_exec(lines[i].as_str()) {
            Some(kv) => {
                if crate::orgline::name_is(kv.0.as_str(), "TODO") {
                    let ghost before = out.deep_view();
                    out.push(kv.1);
                    assert(out.deep_view() =~= before + seq![
                        kw_line(lines.deep_view()[i as int])->Some_0.1,
                    ]);
                }
            },
            None => {},
        }
        proof {
            assert(todo_values_spec(lines.deep_view()) =~= out.deep_view() + todo_values_spec(
                lines.deep_view().skip(i + 1),
            ));
        }
        i = i + 1;
    }
    proof {
        assert(todo_values_spec(lines.deep_view().skip(n as int)) =~= Seq::<Seq<char>>::empty());
        assert(out.deep_view() =~= todo_values_spec(lines.deep_view()));
    }
    out
}

/// The effective TODO keyword lists declared by the content: the first
/// `#+TODO:` or `#+SEQ_TODO:` line whose value holds a `|` supplies them, an
/// empty side keeping its default; without such a line the defaults are
/// `TODO` and `DONE`.
pub open spec fn todo_keywords_spec(lines: Seq<Seq<char>>, i: int) -> (
    Seq<Seq<char>>,
    Seq<Seq<char>>,
)
    decreases lines.len() - i,
{
    if !(0 <= i < lines.len()) {
        (seq!["TODO"@], seq!["DONE"@])
    } else {
        let t = trim_spec(lines[i]);
        if has_prefix(t, "#+TODO:"@) || has_prefix(t, "#+SEQ_TODO:"@) {
            let ci = find_from(t, ':', 0);
            let definition = if ci < t.len() {
                trim_spec(t.subrange(ci + 1, t.len() as int))
            } else {
                Seq::empty()
            };
            let p = find_from(definition, '|', 0);
            if p < definition.len() {
                let aw = segment_keywords(definition.subrange(0, p));
                let cw = segment_keywords(definition.subrange(p + 1, definition.len() as int));
                (
                    if aw.len() > 0 {
                        aw
                    } else {
                        seq!["TODO"@]
                    },
                    if cw.len() > 0 {
                        cw
                    } else {
                        seq!["DONE"@]
                    },
                )
            } else {
                todo_keywords_spec(lines, i + 1)
            }
        } else {
            todo_keywords_spec(lines, i + 1)
        }
    }
}

/// Extract the effective TODO keyword lists from the content: scan for a
/// `#+TODO:` or `#+SEQ_TODO:` declaration whose value splits on `|` into
/// open and completed keywords, any parenthesized shortcut stripped.
pub fn extract_todo_keywords_from_content(content: &str) -> (r: (Vec<String>, Vec<String>))
    ensures
        (r.0.deep_view(), r.1.deep_view()) == todo_keywords_spec(lines_spec(content@), 0),
{
    let lines = crate::strutil::split_lines(content);
    let n = lines.len();
    let mut i: usize = 0;
    while i < n
        invariant
            n == lines@.len(),
            lines.deep_view() == lines_spec(content@),
            0 <= i <= n,
            todo_keywords_spec(lines.deep_view(), 0) == todo_keywords_spec(
                lines.deep_view(),
                i as int,
            ),
        decreases n - i,
    {
        let t = crate::strutil::trim(lines[i].as_str());
        proof {
            reveal_strlit("#+TODO:");
            reveal_strlit("#+SEQ_TODO:");
        }
        if crate::strutil::starts_with(t, "#+TODO:") || crate::strutil::starts_with(
            t,
            "#+SEQ_TODO:",
        ) {
            let tlen = t.unicode_len();
            let ci = crate::strutil::find_char_from(t, ':', 0);
            proof {
                crate::strutil::lemma_find_from_bounds(t@, ':', 0);
                if has_prefix(t@, "#+TODO:"@) {
                    assert(t@[6] == "#+TODO:"@.index(6)) by {
                        assert(t@.subrange(0, 7)[6] == t@[6]);
                    };
                } else {
                    assert(t@[10] == "#+SEQ_TODO:"@.index(10)) by {
                        assert(t@.subrange(0, 11)[10] == t@[10]);
                    };
                }
            }
            assert(ci < tlen);
            let definition = crate::strutil::trim(t.substring_char(ci + 1, tlen));
            let dlen = definition.unicode_len();
            let p = crate::strutil::find_char_from(definition, '|', 0);
            proof {
                crate::strutil::lemma_find_from_bounds(definition@, '|', 0);
            }
            if p < dlen {
                let aw = crate::orgline::segment_keywords_exec(definition.substring_char(0, p));
                let cw = crate::orgline::segment_keywords_exec(
                    definition.substring_char(p + 1, dlen),
                );
                let active = if aw.len() > 0 {
                    aw
                } else {
                    let mut d: Vec<String> = Vec::new();
                    d.push(String::from_str("TODO"));
                    assert(d.deep_view() =~= seq!["TODO"@]);
                    d
                };
                let closed = if cw.len() > 0 {
                    cw
                } else {
                    let mut d: Vec<String> = Vec::new();
                    d.push(String::from_str("DONE"));
                    assert(d.deep_view() =~= seq!["DONE"@]);
                    d
                };
                return (active, closed);
            }
        }
        i = i + 1;
    }
    let mut a: Vec<String> = Vec::new();
    a.push(String::from_str("TODO"));
    let mut c: Vec<String> = Vec::new();
    c.push(String::from_str("DONE"));
    assert(a.deep_view() =~= seq!["TODO"@]);
    assert(c.deep_view() =~= seq!["DONE"@]);
    (a, c)
}

/// The index of the first headline line at or after `i`, or the length.
pub open spec fn next_headline(lines: Seq<Seq<char>>, i: int) -> int
    decreases lines.len() - i,
{
    if i < 0 || i >= lines.len() {
        lines.len() as int
    } else if is_headline_line(lines[i]) {
        i
    } else {
        next_headline(lines, i + 1)
    }
}

pub proof fn lemma_next_headline_bounds(lines: Seq<Seq<char>>, i: int)
    requires
        0 <= i <= lines.len(),
    ensures
        i <= next_headline(lines, i) <= lines.len(),
        next_headline(lines, i) < lines.len() ==> is_headline_line(
            lines[next_headline(lines, i)],
        ),
        forall|j: int| i <= j < next_headline(lines, i) ==> !is_headline_line(lines[j]),
    decreases lines.len() - i,
{
    if i < lines.len() && !is_headline_line(lines[i]) {
        lemma_next_headline_bounds(lines, i + 1);
    }
}

proof fn lemma_next_headline_at(lines: Seq<Seq<char>>, from: int, k: int)
    requires
        0 <= from <= k <= lines.len(),
        forall|j: int| from <= j < k ==> !is_headline_line(lines[j]),
        k < lines.len() ==> is_headline_line(lines[k]),
    ensures
        next_headline(lines, from) == k,
    decreases k - from,
{
    if from < k {
        lemma_next_headline_at(lines, from + 1, k);
    }
}

/// Find the first headline line at or after `from`.
fn next_headline_exec(lines: &Vec<String>, from: usize) -> (r: usize)
    requires
        from <= lines@.len(),
    ensures
        r == next_headline(lines.deep_view(), from as int),
{
    let n = lines.len();
    let mut i: usize = from;
    while i < n
        invariant
            n == lines@.len(),
            from <= i <= n,
            forall|j: int| from <= j < i ==> !is_headline_line(lines.deep_view()[j]),
        decreases n - i,
    {
        if crate::orgline::is_headline_line_exec(lines[i].as_str()) {
            proof {
                lemma_next_headline_at(lines.deep_view(), from as int, i as int);
            }
            return i;
        }
        i = i + 1;
    }
    proof {
        lemma_next_headline_at(lines.deep_view(), from as int, n as int);
    }
    n
}

/// Whether `x` occurs in `list`.
pub open spec fn contains_seq(list: Seq<Seq<char>>, x: Seq<char>) -> bool {
    exists|i: int| 0 <= i < list.len() && list[i] == x
}

/// Whether the token occurs in the list.
fn list_contains(list: &Vec<String>, tok: &str) -> (r: bool)
    ensures
        r == contains_seq(list.deep_view(), tok@),
{
    let n = list.len();
    let mut i: usize = 0;
    while i < n
        invariant
            n == list@.len(),
            0 <= i <= n,
            forall|j: int| 0 <= j < i ==> list.deep_view()[j] != tok@,
        decreases n - i,
    {
        if crate::strutil::str_eq(list[i].as_str(), tok) {
            assert(list.deep_view()[i as int] == tok@);
            return true;
        }
        i = i + 1;
    }
    false
}

/// The start of the last whitespace-separated token before `i`: scanning
/// backwards, the position after the first whitespace met.
pub open spec fn last_token_start(s: Seq<char>, i: int) -> int
    decreases i,
{
    if i <= 0 || i > s.len() {
        0
    } else if is_space(s[i - 1]) {
        i
    } else {
        last_token_start(s, i - 1)
    }
}

proof fn lemma_last_token_start_at(s: Seq<char>, from: int, k: int)
    requires
        0 <= k <= from <= s.len(),
        forall|j: int| k <= j < from ==> !is_space(s[j]),
        k > 0 ==> is_space(s[k - 1]),
    ensures
        last_token_start(s, from) == k,
    decreases from - k,
{
    if k < from {
        lemma_last_token_start_at(s, from - 1, k);
    }
}

/// Find the start of the trailing token of `s`.
fn last_token_start_exec(s: &str) -> (r: usize)
    ensures
        r == last_token_start(s@, s@.len() as int),
{
    let n = s.unicode_len();
    let mut i: usize = n;
    loop
        invariant
            n == s@.len(),
            0 <= i <= n,
            forall|j: int| i <= j < n ==> !is_space(s@[j]),
        ensures
            0 <= i <= n,
            forall|j: int| i <= j < n ==> !is_space(s@[j]),
            i > 0 ==> is_space(s@[i - 1]),
        decreases i,
    {
        if i == 0 {
            break ;
        }
        let c = s.get_char(i - 1);
        if c == ' ' || c == '\t' || c == '\r' || c == '\n' {
            break ;
        }
        i = i - 1;
    }
    proof {
        lemma_last_token_start_at(s@, n as int, i as int);
    }
    i
}

/// The nonempty pieces of a split.
pub open spec fn nonempty_pieces(ps: Seq<Seq<char>>) -> Seq<Seq<char>>
    decreases ps.len(),
{
    if ps.len() == 0 {
        Seq::empty()
    } else {
        let rest = nonempty_pieces(ps.drop_first());
        if ps[0].len() > 0 {
            seq![ps[0]] + rest
        } else {
            rest
        }
    }
}

/// Keep the nonempty pieces of a split.
fn nonempty_pieces_exec(ps: Vec<String>) -> (r: Vec<String>)
    ensures
        r.deep_view() == nonempty_pieces(ps.deep_view()),
{
    let n = ps.len();
    let mut out: Vec<String> = Vec::new();
    let mut i: usize = 0;
    assert(ps.deep_view().skip(0) =~= ps.deep_view());
    while i < n
        invariant
            n == ps@.len(),
            0 <= i <= n,
            nonempty_pieces(ps.deep_view()) =~= out.deep_view() + nonempty_pieces(
                ps.deep_view().skip(i as int),
            ),
        decreases n - i,
    {
        proof {
            assert(ps.deep_view().skip(i as int)[0] == ps.deep_view()[i as int]);
            assert(ps.deep_view().skip(i as int).drop_first() =~= ps.deep_view().skip(i + 1));
        }
        if ps[i].as_str().unicode_len() > 0 {
            let ghost before = out.deep_view();
            out.push(ps[i].clone());
            assert(out.deep_view() =~= before + seq![ps.deep_view()[i as int]]);
        }
        proof {
            assert(nonempty_pieces(ps.deep_view()) =~= out.deep_view() + nonempty_pieces(
                ps.deep_view().skip(i + 1),
            ));
        }
        i = i + 1;
    }
    assert(nonempty_pieces(ps.deep_view().skip(n as int)) =~= Seq::<Seq<char>>::empty());
    assert(out.deep_view() =~= nonempty_pieces(ps.deep_view()));
    out
}

/// A count clipped into the machine range; a count beyond it falls back to
/// the top level.
pub open spec fn clip_level(k: int) -> usize {
    if 0 <= k <= usize::MAX {
        k as usize
    } else {
        1
    }
}

/// The parsed title of a headline line: level from the stars; a leading token
/// that names a configured keyword becomes the TODO keyword; a `[#X]` cookie
/// becomes the priority; a trailing `:tag:tag:` token becomes the tags; what
/// remains, trimmed, is the display text.
pub open spec fn title_line_spec(line: Seq<char>, aws: Seq<Seq<char>>, cws: Seq<Seq<char>>) -> TitleV {
    let k = star_count(line);
    let rest = trim_spec(line.skip(k));
    let lvl = clip_level(k);
    let te = token_end(rest, 0);
    let tok = rest.subrange(0, te);
    let has_kw = te > 0 && (contains_seq(aws, tok) || contains_seq(cws, tok));
    let rest2 = if has_kw {
        trim_spec(rest.skip(te))
    } else {
        rest
    };
    let has_pri = rest2.len() >= 4 && rest2[0] == '[' && rest2[1] == '#' && rest2[3] == ']';
    let rest3 = if has_pri {
        trim_spec(rest2.skip(4))
    } else {
        rest2
    };
    let ts = last_token_start(rest3, rest3.len() as int);
    let lt = rest3.skip(ts);
    let has_tags = lt.len() >= 2 && lt[0] == ':' && lt.last() == ':';
    TitleV {
        raw: if has_tags {
            trim_spec(rest3.subrange(0, ts))
        } else {
            rest3
        },
        level: lvl,
        priority: if has_pri {
            Some(rest2[2])
        } else {
            None
        },
        tags: if has_tags {
            nonempty_pieces(split_spec(lt.subrange(1, lt.len() - 1), ':'))
        } else {
            Seq::empty()
        },
        todo_keyword: if has_kw {
            Some(tok)
        } else {
            None
        },
        properties: Seq::empty(),
        planning: None,
    }
}

/// Parse the title of a headline line under the given keyword lists.
fn parse_title_line(line: &str, aws: &Vec<String>, cws: &Vec<String>) -> (r: OrgTitle)
    ensures
        r@ == title_line_spec(line@, aws.deep_view(), cws.deep_view()),
{
    let ghost spec_t = title_line_spec(line@, aws.deep_view(), cws.deep_view());
    let n = line.unicode_len();
    let k = crate::orgline::star_count_exec(line);
    proof {
        crate::orgline::lemma_star_count_bounds(line@, 0);
    }
    let rest = crate::strutil::trim(line.substring_char(k, n));
    assert(line@.subrange(k as int, n as int) =~= line@.skip(k as int));
    let rlen = rest.unicode_len();
    let te = crate::orgline::token_end_exec(rest, 0);
    proof {
        crate::orgline::lemma_token_end_bounds(rest@, 0);
    }
    let tok = rest.substring_char(0, te);
    let has_kw = te > 0 && (list_contains(aws, tok) || list_contains(cws, tok));
    let rest2 = if has_kw {
        let r2 = crate::strutil::trim(rest.substring_char(te, rlen));
        assert(rest@.subrange(te as int, rlen as int) =~= rest@.skip(te as int));
        r2
    } else {
        rest
    };
    let r2len = rest2.unicode_len();
    let has_pri = r2len >= 4 && rest2.get_char(0) == '[' && rest2.get_char(1) == '#'
        && rest2.get_char(3) == ']';
    let priority = if has_pri {
        Some(rest2.get_char(2))
    } else {
        None
    };
    let rest3 = if has_pri {
        let r3 = crate::strutil::trim(rest2.substring_char(4, r2len));
        assert(rest2@.subrange(4, r2len as int) =~= rest2@.skip(4));
        r3
    } else {
        rest2
    };
    let r3len = rest3.unicode_len();
    let ts = last_token_start_exec(rest3);
    proof {
        lemma_last_token_start_at_bounds(rest3@, r3len as int);
    }
    let lt = rest3.substring_char(ts, r3len);
    assert(rest3@.subrange(ts as int, r3len as int) =~= rest3@.skip(ts as int));
    let ltlen = lt.unicode_len();
    let has_tags = ltlen >= 2 && lt.get_char(0) == ':' && lt.get_char(ltlen - 1) == ':';
    let tags: Vec<String> = if has_tags {
        nonempty_pieces_exec(crate::strutil::split_on_char(lt.substring_char(1, ltlen - 1), ':'))
    } else {
        Vec::new()
    };
    let raw: String = if has_tags {
        crate::strutil::trim(rest3.substring_char(0, ts)).to_owned()
    } else {
        rest3.to_owned()
    };
    let todo_keyword: Option<String> = if has_kw {
        Some(tok.to_owned())
    } else {
        None
    };
    let r = OrgTitle {
        raw,
        level: k,
        priority,
        tags,
        todo_keyword,
        properties: Properties::new(),
        planning: None,
    };
    proof {
        if !has_tags {
            assert(r@.tags =~= spec_t.tags);
        }
        assert(r@.properties =~= spec_t.properties);
        assert(r@ == spec_t);
    }
    r
}

proof fn lemma_last_token_start_at_bounds(s: Seq<char>, i: int)
    requires
        0 <= i <= s.len(),
    ensures
        0 <= last_token_start(s, i) <= i,
    decreases i,
{
    if 0 < i && !is_space(s[i - 1]) {
        lemma_last_token_start_at_bounds(s, i - 1);
    }
}

/// A line that opens a property drawer.
pub open spec fn is_drawer_start(l: Seq<char>) -> bool {
    seq_eq_ci(trim_spec(l), ":PROPERTIES:"@)
}

/// A line that closes a property drawer.
pub open spec fn is_drawer_end(l: Seq<char>) -> bool {
    seq_eq_ci(trim_spec(l), ":END:"@)
}

/// The index of the first drawer-closing line at or after `i`, or the length.
pub open spec fn end_index(seg: Seq<Seq<char>>, i: int) -> int
    decreases seg.len() - i,
{
    if i < 0 || i >= seg.len() {
        seg.len() as int
    } else if is_drawer_end(seg[i]) {
        i
    } else {
        end_index(seg, i + 1)
    }
}

proof fn lemma_end_index_at(seg: Seq<Seq<char>>, from: int, k: int)
    requires
        0 <= from <= k <= seg.len(),
        forall|j: int| from <= j < k ==> !is_drawer_end(seg[j]),
        k < seg.len() ==> is_drawer_end(seg[k]),
    ensures
        end_index(seg, from) == k,
    decreases k - from,
{
    if from < k {
        lemma_end_index_at(seg, from + 1, k);
    }
}

/// The drawer properties among lines `i..e` of `seg`, later lines overriding
/// earlier ones with the same key.
pub open spec fn drawer_props_from(
    seg: Seq<Seq<char>>,
    i: int,
    e: int,
    acc: Seq<(Seq<char>, Seq<char>)>,
) -> Seq<(Seq<char>, Seq<char>)>
    decreases e - i,
{
    if !(0 <= i < e) || i >= seg.len() {
        acc
    } else {
        match prop_line(seg[i]) {
            Some(kv) => drawer_props_from(seg, i + 1, e, props_set(acc, kv.0, kv.1)),
            None => drawer_props_from(seg, i + 1, e, acc),
        }
    }
}

/// The drawer properties of a headline body: from a `:PROPERTIES:` drawer at
/// its first line, closed by an `:END:` line; none otherwise.
pub open spec fn body_props(seg: Seq<Seq<char>>) -> Seq<(Seq<char>, Seq<char>)> {
    if seg.len() > 0 && is_drawer_start(seg[0]) && end_index(seg, 1) < seg.len() {
        drawer_props_from(seg, 1, end_index(seg, 1), Seq::empty())
    } else {
        Seq::empty()
    }
}

/// The body lines left after removing the drawer, if one is present.
pub open spec fn content_lines(seg: Seq<Seq<char>>) -> Seq<Seq<char>> {
    if seg.len() > 0 && is_drawer_start(seg[0]) && end_index(seg, 1) < seg.len() {
        seg.subrange(end_index(seg, 1) + 1, seg.len() as int)
    } else {
        seg
    }
}

/// Lines joined back into a text with a newline between each two.
pub open spec fn join_lines(ls: Seq<Seq<char>>) -> Seq<char>
    decreases ls.len(),
{
    if ls.len() == 0 {
        Seq::empty()
    } else if ls.len() == 1 {
        ls[0]
    } else {
        join_lines(ls.drop_last()) + seq!['\n'] + ls.last()
    }
}

/// The body text of a headline: its remaining lines joined by newlines.
pub open spec fn body_content(seg: Seq<Seq<char>>) -> Seq<char> {
    join_lines(content_lines(seg))
}

/// Parse the body of a headline, lines `start..end`: a leading property
/// drawer, then the content text.
fn parse_body(lines: &Vec<String>, start: usize, end: usize) -> (r: (Properties, String))
    requires
        start <= end <= lines@.len(),
    ensures
        r.0@ == body_props(lines.deep_view().subrange(start as int, end as int)),
        r.1@ == body_content(lines.deep_view().subrange(start as int, end as int)),
{
    let ghost seg = lines.deep_view().subrange(start as int, end as int);
    let mut props = Properties::new();
    let mut c_start: usize = start;
    if end > start {
        let t0 = crate::strutil::trim(lines[start].as_str());
        if crate::strutil::str_eq_ci(t0, ":PROPERTIES:") {
            assert(is_drawer_start(seg[0]));
            let mut e: usize = start + 1;
            loop
                invariant
                    start + 1 <= e <= end,
                    end <= lines@.len(),
                    seg == lines.deep_view().subrange(start as int, end as int),
                    forall|j: int| 1 <= j < e - start ==> !is_drawer_end(seg[j]),
                ensures
                    start + 1 <= e <= end,
                    forall|j: int| 1 <= j < e - start ==> !is_drawer_end(seg[j]),
                    e < end ==> is_drawer_end(seg[e - start]),
                decreases end - e,
            {
                if e >= end {
                    break ;
                }
                let t = crate::strutil::trim(lines[e].as_str());
                if crate::strutil::str_eq_ci(t, ":END:") {
                    assert(is_drawer_end(seg[e - start]));
                    break ;
                }
                assert(!is_drawer_end(seg[e - start]));
                e = e + 1;
            }
            proof {
                lemma_end_index_at(seg, 1, e - start);
            }
            if e < end {
                let mut k: usize = start + 1;
                while k < e
                    invariant
                        start + 1 <= k <= e,
                        e < end <= lines@.len(),
                        seg == lines.deep_view().subrange(start as int, end as int),
                        end_index(seg, 1) == e - start,
                        drawer_props_from(seg, 1, e - start, Seq::empty()) == drawer_props_from(
                            seg,
                            k - start,
                            e - start,
                            props@,
                        ),
                    decreases e - k,
                {
                    match crate::orgline::prop_line_exec(lines[k].as_str()) {
                        Some(kv) => {
                            props.set(kv.0, kv.1);
                        },
                        None => {},
                    }
                    k = k + 1;
                }
                c_start = e + 1;
                assert(props@ == body_props(seg));
                assert(seg.subrange(end_index(seg, 1) + 1, seg.len() as int)
                    =~= lines.deep_view().subrange(c_start as int, end as int));
            } else {
                assert(props@ =~= body_props(seg));
                assert(seg =~= lines.deep_view().subrange(c_start as int, end as int));
            }
        } else {
            assert(!is_drawer_start(seg[0]));
            assert(props@ =~= body_props(seg));
        }
    } else {
        assert(props@ =~= body_props(seg));
    }
    let ghost cl = content_lines(seg);
    proof {
        assert(cl =~= lines.deep_view().subrange(c_start as int, end as int));
    }
    if c_start >= end {
        assert(cl.len() == 0);
        return (props, String::new());
    }
    let mut content = lines[c_start].clone();
    assert(content@ == cl[0]);
    assert(content@ == join_lines(cl.subrange(0, 1)));
    let mut k: usize = c_start + 1;
    while k < end
        invariant
            c_start < k <= end,
            end <= lines@.len(),
            cl == content_lines(seg),
            cl =~= lines.deep_view().subrange(c_start as int, end as int),
            content@ == join_lines(cl.subrange(0, k - c_start)),
        decreases end - k,
    {
        content.append("\n");
        content.append(lines[k].as_str());
        proof {
            reveal_strlit("\n");
            assert(cl.subrange(0, k - c_start + 1).drop_last() =~= cl.subrange(0, k - c_start));
            assert(cl.subrange(0, k - c_start + 1).last() == cl[k - c_start]);
            assert(cl[k - c_start] == lines.deep_view()[k as int]);
            assert("\n"@ =~= seq!['\n']);
            assert(content@ =~= join_lines(cl.subrange(0, k - c_start + 1)));
        }
        k = k + 1;
    }
    assert(cl.subrange(0, end - c_start) =~= cl);
    (props, content)
}

/// The flat headline sequence of the lines from `i` on: each headline line
/// yields one childless headline whose id is its one-based ordinal, whose
/// title comes from the line and the configured keywords, and whose properties
/// and body come from the lines before the next headline.
pub open spec fn flat_from(
    lines: Seq<Seq<char>>,
    i: int,
    aws: Seq<Seq<char>>,
    cws: Seq<Seq<char>>,
    ord: int,
) -> Seq<HeadlineV>
    decreases lines.len() - i via flat_from_dec
{
    if !(0 <= i <= lines.len()) {
        Seq::empty()
    } else {
        let j = next_headline(lines, i);
        if j >= lines.len() {
            Seq::empty()
        } else {
            let nxt = next_headline(lines, j + 1);
            let seg = lines.subrange(j + 1, nxt);
            let t0 = title_line_spec(lines[j], aws, cws);
            let hv = HeadlineV {
                id: dec_digits(ord),
                document_id: Seq::empty(),
                title: TitleV { properties: body_props(seg), ..t0 },
                content: body_content(seg),
                children: Seq::empty(),
                etag: Seq::empty(),
            };
            seq![hv] + flat_from(lines, j + 1, aws, cws, ord + 1)
        }
    }
}

#[via_fn]
proof fn flat_from_dec(lines: Seq<Seq<char>>, i: int, aws: Seq<Seq<char>>, cws: Seq<Seq<char>>, ord: int) {
    if 0 <= i <= lines.len() {
        lemma_next_headline_bounds(lines, i);
    }
}

/// The flat headline sequence of a content under the given keyword lists.
pub open spec fn flat_spec(content: Seq<char>, aws: Seq<Seq<char>>, cws: Seq<Seq<char>>) -> Seq<
    HeadlineV,
> {
    flat_from(lines_spec(content), 0, aws, cws, 1)
}

/// Extract the flat headlines from `i` on, numbering them from `ord`.
fn flat_from_exec(
    lines: &Vec<String>,
    i: usize,
    aws: &Vec<String>,
    cws: &Vec<String>,
    ord: u128,
) -> (r: Vec<OrgHeadline>)
    requires
        i <= lines@.len(),
        ord as int + lines@.len() - i <= 0xffffffffffffffffffffffffffffffff,
    ensures
        r.deep_view() == flat_from(
            lines.deep_view(),
            i as int,
            aws.deep_view(),
            cws.deep_view(),
            ord as int,
        ),
    decreases lines@.len() - i,
{
    let n = lines.len();
    let j = next_headline_exec(lines, i);
    proof {
        lemma_next_headline_bounds(lines.deep_view(), i as int);
    }
    if j >= n {
        let r: Vec<OrgHeadline> = Vec::new();
        assert(r.deep_view() =~= flat_from(
            lines.deep_view(),
            i as int,
            aws.deep_view(),
            cws.deep_view(),
            ord as int,
        ));
        return r;
    }
    let nxt = next_headline_exec(lines, j + 1);
    proof {
        lemma_next_headline_bounds(lines.deep_view(), j + 1);
    }
    let mut title = parse_title_line(lines[j].as_str(), aws, cws);
    let pc = parse_body(lines, j + 1, nxt);
    title.properties = pc.0;
    let node = OrgHeadline {
        id: crate::strutil::u128_to_dec(ord),
        document_id: String::new(),
        title,
        content: pc.1,
        children: Vec::new(),
        etag: String::new(),
    };
    let mut rest = flat_from_exec(lines, j + 1, aws, cws, ord + 1);
    rest.insert(0, node);
    proof {
        assert(hview(&node).children =~= Seq::<HeadlineV>::empty());
        assert(hview(&node).etag =~= Seq::<char>::empty());
        assert(hview(&node).document_id =~= Seq::<char>::empty());
        assert(rest.deep_view() =~= flat_from(
            lines.deep_view(),
            i as int,
            aws.deep_view(),
            cws.deep_view(),
            ord as int,
        ));
    }
    rest
}

/// Every headline of the flat sequence is childless, untagged and at least one
/// level deep.
pub proof fn lemma_flat_from_wf(
    lines: Seq<Seq<char>>,
    i: int,
    aws: Seq<Seq<char>>,
    cws: Seq<Seq<char>>,
    ord: int,
)
    ensures
        forall|k: int|
            0 <= k < flat_from(lines, i, aws, cws, ord).len() ==> {
                let h = #[trigger] flat_from(lines, i, aws, cws, ord)[k];
                h.children.len() == 0 && level_of(h) >= 1
            },
    decreases lines.len() - i,
{
    if 0 <= i <= lines.len() {
        let j = next_headline(lines, i);
        lemma_next_headline_bounds(lines, i);
        if j < lines.len() {
            lemma_flat_from_wf(lines, j + 1, aws, cws, ord + 1);
            crate::orgline::lemma_star_count_bounds(lines[j], 0);
        }
    }
}

/// Extract the headline forest of a content under the given keyword lists:
/// the flat sequence, nested by level, every headline tagged.
pub fn extract_headlines(lines: &Vec<String>, aws: &Vec<String>, cws: &Vec<String>) -> (r: Vec<
    OrgHeadline,
>)
    ensures
        r.deep_view() == with_tags_all(
            hier_all(flat_from(lines.deep_view(), 0, aws.deep_view(), cws.deep_view(), 1), 0),
        ),
{
    let n = lines.len();
    assert(lines@.len() == n as int);
    let flat = flat_from_exec(lines, 0, aws, cws, 1);
    proof {
        lemma_flat_from_wf(lines.deep_view(), 0, aws.deep_view(), cws.deep_view(), 1);
    }
    build_headline_hierarchy(flat)
}

/// The TODO configuration model a parse yields: one sequence per in-file
/// `#+TODO:` declaration when the file has any, a configuration built from the
/// effective keyword lists otherwise, and none only when both lists are empty.
pub open spec fn todo_config_spec(
    lines: Seq<Seq<char>>,
    aws: Seq<Seq<char>>,
    cws: Seq<Seq<char>>,
) -> Option<Seq<Seq<crate::todo::StatusV>>> {
    if todo_values_spec(lines).len() > 0 {
        Some(crate::todo::org_config_spec(todo_values_spec(lines)))
    } else if aws.len() == 0 && cws.len() == 0 {
        None
    } else {
        Some(crate::todo::keywords_config_spec(aws, cws))
    }
}

/// Resolve the TODO configuration: in-file `#+TODO:` declarations take
/// precedence and supply its sequences; otherwise the effective keyword lists
/// supply one.
pub fn extract_todo_configuration(lines: &Vec<String>, aws: &Vec<String>, cws: &Vec<String>) -> (r:
    Option<TodoConfiguration>)
    ensures
        match r {
            Some(c) => todo_config_spec(lines.deep_view(), aws.deep_view(), cws.deep_view())
                == Some(c@),
            None => todo_config_spec(lines.deep_view(), aws.deep_view(), cws.deep_view()) is None,
        },
{
    let todo_lines = todo_values_exec(lines);
    if todo_lines.len() > 0 {
        let c = TodoConfiguration::from_org_config(&todo_lines);
        return Some(c);
    }
    if aws.len() == 0 && cws.len() == 0 {
        return None;
    }
    Some(TodoConfiguration::from_keywords(aws, cws))
}

/// What `parse_org_document` promises of its result, relative to the content,
/// the optional file path and the effective keyword lists.
pub open spec fn parsed_document_spec(
    d: DocumentV,
    content: Seq<char>,
    file_path: Option<Seq<char>>,
    aws: Seq<Seq<char>>,
    cws: Seq<Seq<char>>,
) -> bool {
    let lines = lines_spec(content);
    &&& d.title == document_title_spec(content)
    &&& d.content == content
    &&& d.category == document_category_spec(content)
    &&& d.filetags == filetags_spec(content)
    &&& d.properties == doc_props_spec(content)
    &&& d.etag == crate::etag::document_tag_spec(content)
    &&& d.file_path == (match file_path {
        Some(p) => p,
        None => Seq::<char>::empty(),
    })
    &&& (match file_path {
        Some(p) => p.len() > 0 ==> d.id == p,
        None => true,
    })
    &&& (match file_path {
        Some(p) => p.len() > 0 || d.id.len() == 36,
        None => d.id.len() == 36,
    })
    &&& d.headlines == with_doc_id_all(
        with_tags_all(hier_all(flat_from(lines, 0, aws, cws, 1), 0)),
        d.id,
    )
    &&& d.todo_config == todo_config_spec(lines, aws, cws)
}

/// Parse a document under explicit keyword lists.
fn parse_with(content: &str, file_path: Option<&str>, aws: &Vec<String>, cws: &Vec<String>) -> (r:
    OrgDocument)
    ensures
        parsed_document_spec(
            r@,
            content@,
            match file_path {
                Some(p) => Some(p@),
                None => None,
            },
            aws.deep_view(),
            cws.deep_view(),
        ),
{
    let lines = crate::strutil::split_lines(content);
    let title = extract_document_title(&lines);
    let filetags = extract_filetags(&lines);
    let category = extract_category(&lines);
    proof {
        if first_kw_value(lines.deep_view(), "CATEGORY"@) is None {
            assert(category@ =~= Seq::<char>::empty());
        }
    }
    let properties = extract_document_properties(&lines);
    let todo_config = extract_todo_configuration(&lines, aws, cws);
    let mut headlines = extract_headlines(&lines, aws, cws);
    let id: String = match file_path {
        Some(p) => {
            if p.unicode_len() > 0 {
                p.to_owned()
            } else {
                random_uuid_string()
            }
        },
        None => random_uuid_string(),
    };
    crate::hierarchy::update_headline_document_ids(&mut headlines, id.as_str());
    let etag = crate::etag::generate_document_etag(content);
    let parsed_at = now_rfc3339();
    let file_path_string: String = match file_path {
        Some(p) => p.to_owned(),
        None => String::new(),
    };
    let d = OrgDocument {
        id,
        title,
        content: content.to_owned(),
        headlines,
        filetags,
        parsed_at,
        file_path: file_path_string,
        properties,
        category,
        etag,
        todo_config,
    };
    proof {
        assert(d@.file_path =~= (match file_path {
            Some(p) => p@,
            None => Seq::<char>::empty(),
        }));
    }
    d
}

/// Parse an org document. Parsing is permissive and always yields a document:
/// the effective TODO keywords come from the content's own declarations, the
/// document id is the file path when one is given, and every promised field is
/// pinned by `parsed_document_spec`.
pub fn parse_org_document(content: &str, file_path: Option<&str>) -> (r: Result<
    OrgDocument,
    OrgError,
>)
    ensures
        r matches Ok(d) && {
            let kws = todo_keywords_spec(lines_spec(content@), 0);
            parsed_document_spec(
                d@,
                content@,
                match file_path {
                    Some(p) => Some(p@),
                    None => None,
                },
                kws.0,
                kws.1,
            )
        },
{
    let kws = extract_todo_keywords_from_content(content);
    Ok(parse_with(content, file_path, &kws.0, &kws.1))
}

/// Parse an org document under caller-supplied TODO keyword lists, which
/// override the content's own declarations for classifying title tokens.
pub fn parse_org_document_with_keywords(
    content: &str,
    file_path: Option<&str>,
    todo_keywords: (Vec<String>, Vec<String>),
) -> (r: Result<OrgDocument, OrgError>)
    ensures
        r matches Ok(d) && parsed_document_spec(
            d@,
            content@,
            match file_path {
                Some(p) => Some(p@),
                None => None,
            },
            todo_keywords.0.deep_view(),
            todo_keywords.1.deep_view(),
        ),
{
    Ok(parse_with(content, file_path, &todo_keywords.0, &todo_keywords.1))
}

/// The built-in sample document's text.
pub open spec fn sample_content_spec() -> Seq<char> {
    "#+TITLE: Sample Org Document\n#+AUTHOR: John Doe\n#+CATEGORY: Demo\n#+FILETAGS: :demo:sample:\n\n* TODO Shopping List [0/3]                                         :shopping:chores:\n:PROPERTIES:\n:CATEGORY: Shopping\n:DEADLINE: <2025-04-15 Tue>\n:END:\nTo-do list\n- [ ] Milk\n- [ ] Bread\n- [ ] Eggs\n\n* Meeting Notes                                                       :work:\n** DONE Progress Report :important:\n   DEADLINE: <2025-04-15 Tue>\n   - Completed all tasks from last week\n   - No issues encountered\n** TODO Next Steps Planning\n   - [ ] Allocate resources\n   - [ ] Set timeline\n"@
}

/// Parse the built-in sample document, for demonstrations: the result is the
/// parse of `sample_content_spec` under its own declared keywords, with
/// `sample.org` as its path and id.
pub fn parse_sample_org() -> (r: OrgDocument)
    ensures
        ({
            let kws = todo_keywords_spec(lines_spec(sample_content_spec()), 0);
            parsed_document_spec(
                r@,
                sample_content_spec(),
                Some("sample.org"@),
                kws.0,
                kws.1,
            )
        }),
        r@.id == "sample.org"@,
        r@.file_path == "sample.org"@,
{
    let sample_content =
        "#+TITLE: Sample Org Document\n#+AUTHOR: John Doe\n#+CATEGORY: Demo\n#+FILETAGS: :demo:sample:\n\n* TODO Shopping List [0/3]                                         :shopping:chores:\n:PROPERTIES:\n:CATEGORY: Shopping\n:DEADLINE: <2025-04-15 Tue>\n:END:\nTo-do list\n- [ ] Milk\n- [ ] Bread\n- [ ] Eggs\n\n* Meeting Notes                                                       :work:\n** DONE Progress Report :important:\n   DEADLINE: <2025-04-15 Tue>\n   - Completed all tasks from last week\n   - No issues encountered\n** TODO Next Steps Planning\n   - [ ] Allocate resources\n   - [ ] Set timeline\n";
    proof {
        reveal_strlit("sample.org");
    }
    match parse_org_document(sample_content, Some("sample.org")) {
        Ok(doc) => doc,
        Err(_) => {
            proof {
                assert(false);
            }
            OrgDocument {
                id: String::new(),
                title: String::new(),
                content: String::new(),
                headlines: Vec::new(),
                filetags: Vec::new(),
                parsed_at: String::new(),
                file_path: String::new(),
                properties: Properties::new(),
                category: String::new(),
                etag: String::new(),
                todo_config: None,
            }
        },
    }
}

} // verus!
