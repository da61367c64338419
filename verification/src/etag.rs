//! Change-detection tags: a 64-bit fold over characters, rendered in
//! hexadecimal. The same text always yields the same tag; any single change to
//! the hashed text is overwhelmingly likely to change it.

use vstd::prelude::*;
use crate::headline::{HeadlineV, OrgHeadline};
use crate::strutil::hex_digits;
use crate::title::{OrgTitle, TitleV};

verus! {

pub const FNV_BASIS: u64 = 0xcbf29ce484222325;

pub const FNV_PRIME: u64 = 0x100000001b3;

/// One step of the fold: mix a character into the accumulator.
pub open spec fn mix(h: u64, c: char) -> u64 {
    ((((h ^ ((c as u32) as u64)) as u128) * (FNV_PRIME as u128)) % 0x10000000000000000) as u64
}

/// The fold over a whole character sequence, starting from `h`.
pub open spec fn fold_chars(s: Seq<char>, h: u64) -> u64
    decreases s.len(),
{
    if s.len() == 0 {
        h
    } else {
        fold_chars(s.drop_first(), mix(h, s[0]))
    }
}

/// The tag of a character sequence: the fold rendered in hexadecimal.
pub open spec fn tag_of(s: Seq<char>) -> Seq<char> {
    hex_digits(fold_chars(s, FNV_BASIS) as int)
}

/// Mix one character into the running accumulator.
fn mix_exec(h: u64, c: char) -> (r: u64)
    ensures
        r == mix(h, c),
{
    let x: u64 = h ^ ((c as u32) as u64);
    proof {
        vstd::arithmetic::mul::lemma_mul_upper_bound(
            x as int,
            0xffffffffffffffff,
            FNV_PRIME as int,
            0xffffffffffffffff,
        );
    }
    let wide: u128 = (x as u128) * (FNV_PRIME as u128);
    (wide % 0x10000000000000000u128) as u64
}

/// Fold a whole string into an accumulator, starting from `h0`.
pub fn fold_str(s: &str, h0: u64) -> (r: u64)
    ensures
        r == fold_chars(s@, h0),
{
    let slen: usize = s.unicode_len();
    let mut h: u64 = h0;
    let mut i: usize = 0;
    assert(s@.skip(0) =~= s@);
    while i < slen
        invariant
            slen == s@.len(),
            0 <= i <= slen,
            fold_chars(s@, h0) == fold_chars(s@.skip(i as int), h),
        decreases slen - i,
    {
        let c = s.get_char(i);
        proof {
            assert(s@.skip(i as int).drop_first() =~= s@.skip(i + 1));
            assert(s@.skip(i as int)[0] == s@[i as int]);
        }
        h = mix_exec(h, c);
        i = i + 1;
    }
    proof {
        assert(s@.skip(slen as int) =~= Seq::<char>::empty());
    }
    h
}

/// The tag of a string.
pub fn tag_str(s: &str) -> (r: String)
    ensures
        r@ == tag_of(s@),
{
    let h = fold_str(s, FNV_BASIS);
    crate::strutil::u64_to_hex(h)
}

/// The field separator used inside fingerprints.
pub const FP_SEP: char = '\u{1f}';

/// An optional text rendered unambiguously: a presence mark, then the text.
pub open spec fn opt_fp(o: Option<Seq<char>>) -> Seq<char> {
    match o {
        Some(s) => seq!['1'] + s,
        None => seq!['0'],
    }
}

/// An optional priority cookie rendered unambiguously.
pub open spec fn pri_fp(p: Option<char>) -> Seq<char> {
    match p {
        Some(c) => seq!['1', c],
        None => seq!['0'],
    }
}

/// The tags of a title, each followed by the separator.
pub open spec fn tags_fp(tags: Seq<Seq<char>>) -> Seq<char>
    decreases tags.len(),
{
    if tags.len() == 0 {
        Seq::empty()
    } else {
        tags_fp(tags.drop_last()) + tags.last() + seq![FP_SEP]
    }
}

/// The properties of a title, each key and value followed by the separator.
pub open spec fn props_fp(ps: Seq<(Seq<char>, Seq<char>)>) -> Seq<char>
    decreases ps.len(),
{
    if ps.len() == 0 {
        Seq::empty()
    } else {
        props_fp(ps.drop_last()) + ps.last().0 + seq![FP_SEP] + ps.last().1 + seq![FP_SEP]
    }
}

/// The text a title contributes to its headline's tag: display text, level,
/// TODO keyword, priority, tags and properties. The planning block, which this
/// parser leaves empty, does not enter the fingerprint.
pub open spec fn title_fp(t: TitleV) -> Seq<char> {
    t.raw + seq![FP_SEP] + crate::strutil::dec_digits(t.level as int) + seq![FP_SEP] + opt_fp(
        t.todo_keyword,
    ) + seq![FP_SEP] + pri_fp(t.priority) + seq![FP_SEP] + tags_fp(t.tags) + seq![FP_SEP]
        + props_fp(t.properties)
}

/// The tags of each direct child, each followed by the separator. A parent's
/// tag thus changes whenever any descendant's tag does, and with it whenever
/// any descendant's text does.
pub open spec fn children_fp(cs: Seq<HeadlineV>) -> Seq<char>
    decreases cs.len(),
{
    if cs.len() == 0 {
        Seq::empty()
    } else {
        children_fp(cs.drop_last()) + cs.last().etag + seq![FP_SEP]
    }
}

/// The whole text hashed for a headline's tag: its title fingerprint, its body
/// text and its direct children's tags. The headline's id does not enter it.
pub open spec fn headline_tag_input(h: HeadlineV) -> Seq<char> {
    title_fp(h.title) + seq![FP_SEP] + h.content + seq![FP_SEP] + children_fp(h.children)
}

/// The change-detection tag of a headline.
pub open spec fn headline_tag_spec(h: HeadlineV) -> Seq<char> {
    tag_of(headline_tag_input(h))
}

/// The change-detection tag of a whole document text.
pub open spec fn document_tag_spec(s: Seq<char>) -> Seq<char> {
    tag_of(s)
}

/// Two headlines with the same title fields, body text and children tags get
/// the same tag, whatever their ids and document ids.
pub proof fn lemma_tag_ignores_id(a: HeadlineV, b: HeadlineV)
    requires
        a.title == b.title,
        a.content == b.content,
        children_fp(a.children) == children_fp(b.children),
    ensures
        headline_tag_spec(a) == headline_tag_spec(b),
{
}

/// Append one character to a string.
fn push_char(s: &mut String, c: char)
    ensures
        final(s)@ == old(s)@ + seq![c],
{
    let t = char_str(c);
    s.append(t.as_str());
    assert(final(s)@ =~= old(s)@ + seq![c]);
}

/// A one-character string.
fn char_str(c: char) -> (r: String)
    ensures
        r@ =~= seq![c],
{
    let mut v: Vec<char> = Vec::new();
    v.push(c);
    let r = chars_to_string(&v);
    assert(v@ =~= seq![c]);
    r
}

/// Relies on `String::from_iter` over a character slice: the resulting string
/// holds exactly the given characters.
#[verifier::external_body]
fn chars_to_string(v: &Vec<char>) -> (r: String)
    ensures
        r@ == v@,
{
    v.iter().collect()
}

/// The fingerprint of a title, as a string.
fn title_fp_exec(t: &OrgTitle) -> (r: String)
    ensures
        r@ == title_fp(t@),
{
    let mut s = t.raw.clone();
    push_char(&mut s, FP_SEP);
    s.append(crate::strutil::u64_to_dec(t.level as u64).as_str());
    push_char(&mut s, FP_SEP);
    match &t.todo_keyword {
        Some(k) => {
            s.append("1");
            s.append(k.as_str());
            proof {
                reveal_strlit("1");
                assert(s@ =~= t.raw@ + seq![FP_SEP] + crate::strutil::dec_digits(t.level as int)
                    + seq![FP_SEP] + opt_fp(t@.todo_keyword));
            }
        },
        None => {
            s.append("0");
            proof {
                reveal_strlit("0");
                assert(s@ =~= t.raw@ + seq![FP_SEP] + crate::strutil::dec_digits(t.level as int)
                    + seq![FP_SEP] + opt_fp(t@.todo_keyword));
            }
        },
    }
    push_char(&mut s, FP_SEP);
    match t.priority {
        Some(c) => {
            s.append("1");
            push_char(&mut s, c);
            proof {
                reveal_strlit("1");
                assert(s@ =~= t.raw@ + seq![FP_SEP] + crate::strutil::dec_digits(t.level as int)
                    + seq![FP_SEP] + opt_fp(t@.todo_keyword) + seq![FP_SEP] + pri_fp(
                    t@.priority,
                ));
            }
        },
        None => {
            s.append("0");
            proof {
                reveal_strlit("0");
                assert(s@ =~= t.raw@ + seq![FP_SEP] + crate::strutil::dec_digits(t.level as int)
                    + seq![FP_SEP] + opt_fp(t@.todo_keyword) + seq![FP_SEP] + pri_fp(
                    t@.priority,
                ));
            }
        },
    }
    push_char(&mut s, FP_SEP);
    let ghost head = s@;
    let n = t.tags.len();
    let mut i: usize = 0;
    while i < n
        invariant
            n == t.tags@.len(),
            0 <= i <= n,
            s@ =~= head + tags_fp(t@.tags.subrange(0, i as int)),
        decreases n - i,
    {
        s.append(t.tags[i].as_str());
        push_char(&mut s, FP_SEP);
        proof {
            assert(t@.tags.subrange(0, i + 1).drop_last() =~= t@.tags.subrange(0, i as int));
            assert(s@ =~= head + tags_fp(t@.tags.subrange(0, i + 1)));
        }
        i = i + 1;
    }
    assert(t@.tags.subrange(0, n as int) =~= t@.tags);
    push_char(&mut s, FP_SEP);
    let ghost head2 = s@;
    let m = t.properties.entries.len();
    let mut k: usize = 0;
    while k < m
        invariant
            m == t.properties.entries@.len(),
            m == t.properties@.len(),
            0 <= k <= m,
            s@ =~= head2 + props_fp(t@.properties.subrange(0, k as int)),
        decreases m - k,
    {
        s.append(t.properties.entries[k].key.as_str());
        push_char(&mut s, FP_SEP);
        s.append(t.properties.entries[k].value.as_str());
        push_char(&mut s, FP_SEP);
        proof {
            assert(t@.properties.subrange(0, k + 1).drop_last() =~= t@.properties.subrange(
                0,
                k as int,
            ));
            assert(s@ =~= head2 + props_fp(t@.properties.subrange(0, k + 1)));
        }
        k = k + 1;
    }
    assert(t@.properties.subrange(0, m as int) =~= t@.properties);
    assert(s@ =~= title_fp(t@));
    s
}

/// The change-detection tag of a document's raw text.
pub fn generate_document_etag(content: &str) -> (r: String)
    ensures
        r@ == document_tag_spec(content@),
{
    tag_str(content)
}

/// The change-detection tag of a headline: a hash of its title fields, its
/// body text and each direct child's own tag, computed bottom-up after the
/// children's tags are in place. The headline's id does not enter the tag.
pub fn generate_headline_etag(headline: &OrgHeadline) -> (r: String)
    ensures
        r@ == headline_tag_spec(headline@),
{
    let mut input = title_fp_exec(&headline.title);
    push_char(&mut input, FP_SEP);
    input.append(headline.content.as_str());
    push_char(&mut input, FP_SEP);
    let ghost head = input@;
    let n = headline.children.len();
    let mut i: usize = 0;
    while i < n
        invariant
            n == headline.children@.len(),
            0 <= i <= n,
            s_children(headline) == headline@.children,
            input@ =~= head + children_fp(headline@.children.subrange(0, i as int)),
        decreases n - i,
    {
        input.append(headline.children[i].etag.as_str());
        push_char(&mut input, FP_SEP);
        proof {
            assert(headline@.children.subrange(0, i + 1).drop_last()
                =~= headline@.children.subrange(0, i as int));
            assert(crate::headline::hview(&headline.children@[i as int])
                == headline@.children[i as int]);
            assert(input@ =~= head + children_fp(headline@.children.subrange(0, i + 1)));
        }
        i = i + 1;
    }
    assert(headline@.children.subrange(0, n as int) =~= headline@.children);
    assert(input@ =~= headline_tag_input(headline@));
    tag_str(input.as_str())
}

/// The children of a headline's image.
pub open spec fn s_children(h: &OrgHeadline) -> Seq<HeadlineV> {
    h@.children
}

} // verus!
