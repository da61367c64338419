//! The headline hierarchy builder: turn a flat, level-tagged sequence of
//! headlines into a forest, nesting each headline under the nearest preceding
//! headline of strictly smaller level, then give every headline its
//! change-detection tag bottom-up.

use vstd::prelude::*;
use crate::etag::{generate_headline_etag, headline_tag_spec};
use crate::headline::{hview, HeadlineV, OrgHeadline};

verus! {

/// The nesting level a headline carries.
pub open spec fn level_of(h: HeadlineV) -> int {
    h.title.level as int
}

/// The first index at or after `i` whose headline's level is at most `lvl`,
/// or the length of `s`: one past the end of the subtree opened before `i`
/// by a headline of level `lvl`.
pub open spec fn subtree_end(s: Seq<HeadlineV>, i: int, lvl: int) -> int
    decreases s.len() - i,
{
    if i < 0 || i >= s.len() {
        s.len() as int
    } else if level_of(s[i]) <= lvl {
        i
    } else {
        subtree_end(s, i + 1, lvl)
    }
}

pub proof fn lemma_subtree_end_bounds(s: Seq<HeadlineV>, i: int, lvl: int)
    requires
        0 <= i <= s.len(),
    ensures
        i <= subtree_end(s, i, lvl) <= s.len(),
        subtree_end(s, i, lvl) < s.len() ==> level_of(s[subtree_end(s, i, lvl)]) <= lvl,
        forall|j: int| i <= j < subtree_end(s, i, lvl) ==> level_of(s[j]) > lvl,
    decreases s.len() - i,
{
    if i < s.len() && level_of(s[i]) > lvl {
        lemma_subtree_end_bounds(s, i + 1, lvl);
    }
}

/// Shifting the scan start: scanning from `m` in `s` is scanning from 0 in
/// `s.skip(m)`.
pub proof fn lemma_subtree_end_shift(s: Seq<HeadlineV>, m: int, lvl: int)
    requires
        0 <= m <= s.len(),
    ensures
        subtree_end(s, m, lvl) == m + subtree_end(s.skip(m), 0, lvl),
    decreases s.len() - m,
{
    if m == s.len() {
        assert(s.skip(m) =~= Seq::<HeadlineV>::empty());
    } else if level_of(s[m]) <= lvl {
        assert(s.skip(m)[0] == s[m]);
    } else {
        lemma_subtree_end_shift(s, m + 1, lvl);
        assert(s.skip(m)[0] == s[m]);
        lemma_skip_skip(s, m, 1);
        lemma_subtree_end_shift(s.skip(m), 1, lvl);
    }
}

/// Skipping twice is skipping the sum.
pub proof fn lemma_skip_skip(s: Seq<HeadlineV>, a: int, b: int)
    requires
        0 <= a,
        0 <= b,
        a + b <= s.len(),
    ensures
        s.skip(a).skip(b) == s.skip(a + b),
{
    assert(s.skip(a).skip(b) =~= s.skip(a + b));
}

/// The forest grown from the front of `s` out of the headlines that stand
/// deeper than `floor`: the first headline becomes a root and adopts the
/// following deeper headlines as its subtree; its siblings follow; the first
/// headline at level `floor` or shallower ends the forest.
pub open spec fn hier_all(s: Seq<HeadlineV>, floor: int) -> Seq<HeadlineV>
    decreases s.len() via hier_all_dec
{
    if s.len() == 0 || level_of(s[0]) <= floor {
        Seq::empty()
    } else {
        let lvl = level_of(s[0]);
        let k = subtree_end(s, 1, lvl);
        let node = HeadlineV { children: hier_all(s.skip(1), lvl), ..s[0] };
        seq![node] + hier_all(s.skip(k), floor)
    }
}

#[via_fn]
proof fn hier_all_dec(s: Seq<HeadlineV>, floor: int) {
    if !(s.len() == 0 || level_of(s[0]) <= floor) {
        lemma_subtree_end_bounds(s, 1, level_of(s[0]));
    }
}

/// How many headlines the forest consumes: everything up to the first
/// headline at level `floor` or shallower.
pub open spec fn consumed(s: Seq<HeadlineV>, floor: int) -> int {
    subtree_end(s, 0, floor)
}

/// Build the sibling forest at `floor` from the front of `flat`, removing the
/// headlines consumed.
fn build_siblings(flat: &mut Vec<OrgHeadline>, floor: usize) -> (r: Vec<OrgHeadline>)
    ensures
        r.deep_view() == hier_all(old(flat).deep_view(), floor as int),
        final(flat).deep_view() == old(flat).deep_view().skip(
            consumed(old(flat).deep_view(), floor as int),
        ),
    decreases flat@.len(),
{
    let ghost s = flat.deep_view();
    if flat.len() == 0 {
        assert(s.skip(0) =~= s);
        return Vec::new();
    }
    if flat[0].title.level <= floor {
        proof {
            assert(hview(&flat@[0]) == s[0]);
            assert(s.skip(0) =~= s);
        }
        return Vec::new();
    }
    proof {
        assert(hview(&flat@[0]) == s[0]);
    }
    let mut node = flat.remove(0);
    proof {
        assert(flat@ =~= old(flat)@.drop_first());
        assert(flat.deep_view() =~= s.skip(1));
    }
    let lvl = node.title.level;
    let ghost s1 = s.skip(1);
    let kids = build_siblings(flat, lvl);
    let ghost k1 = consumed(s1, lvl as int);
    proof {
        lemma_subtree_end_bounds(s1, 0, lvl as int);
    }
    node.children = kids;
    proof {
        assert(hview(&node) == HeadlineV { children: hier_all(s1, lvl as int), ..s[0] })
            by {
            assert(hview(&node).children =~= kids.deep_view());
        };
    }
    let ghost s2 = s1.skip(k1);
    assert(flat.deep_view() == s2);
    let mut rest = build_siblings(flat, floor);
    let ghost k2 = consumed(s2, floor as int);
    proof {
        lemma_subtree_end_bounds(s2, 0, floor as int);
    }
    rest.insert(0, node);
    proof {
        // The result is the one root with its subtree, then its siblings.
        lemma_subtree_end_shift(s, 1, lvl as int);
        assert(subtree_end(s, 1, lvl as int) == 1 + k1);
        lemma_skip_skip(s, 1, k1);
        assert(s.skip(1 + k1) == s2);
        assert(rest.deep_view() =~= seq![hview(&node)] + hier_all(s2, floor as int));
        assert(rest.deep_view() =~= hier_all(s, floor as int));
        // The consumed count composes across the subtree and the siblings.
        assert(forall|j: int| 0 <= j < k1 ==> level_of(#[trigger] s1[j]) > lvl as int);
        assert(forall|j: int|
            1 <= j < 1 + k1 ==> level_of(#[trigger] s[j]) > floor as int) by {
            assert(forall|j: int| 1 <= j < 1 + k1 ==> s[j] == s1[j - 1]);
        };
        assert(level_of(s[0]) > floor as int);
        lemma_consumed_compose(s, 1 + k1, floor as int);
        assert(consumed(s, floor as int) == 1 + k1 + k2);
        lemma_skip_skip(s, 1 + k1, k2);
        assert(final(flat).deep_view() =~= s.skip(consumed(s, floor as int)));
    }
    rest
}

/// If every headline before `m` stands deeper than `floor`, the consumed
/// count from the start is `m` plus the count from `m` on.
proof fn lemma_consumed_compose(s: Seq<HeadlineV>, m: int, floor: int)
    requires
        0 <= m <= s.len(),
        forall|j: int| 0 <= j < m ==> level_of(#[trigger] s[j]) > floor,
    ensures
        consumed(s, floor) == m + consumed(s.skip(m), floor),
    decreases m,
{
    if m == 0 {
        assert(s.skip(0) =~= s);
    } else {
        lemma_consumed_compose(s.drop_first(), m - 1, floor);
        assert(s.drop_first().skip(m - 1) =~= s.skip(m));
        assert(forall|j: int|
            0 <= j < m - 1 ==> level_of(#[trigger] s.drop_first()[j]) > floor) by {
            assert(forall|j: int| 0 <= j < m - 1 ==> s.drop_first()[j] == s[j + 1]);
        };
        lemma_consumed_drop_first(s, floor);
    }
}

/// Unfolding one scan step of the consumed count.
proof fn lemma_consumed_drop_first(s: Seq<HeadlineV>, floor: int)
    requires
        s.len() > 0,
        level_of(s[0]) > floor,
    ensures
        consumed(s, floor) == 1 + consumed(s.drop_first(), floor),
{
    lemma_subtree_end_shift(s, 1, floor);
    assert(s.skip(1) =~= s.drop_first());
}

/// A tree with its change-detection tags filled in bottom-up: each headline's
/// tag hashes its own title and text and its children's finished tags.
pub open spec fn with_tags(h: HeadlineV) -> HeadlineV
    decreases h,
{
    let kids = Seq::new(
        h.children.len(),
        |i: int|
            if 0 <= i < h.children.len() {
                with_tags(h.children[i])
            } else {
                arbitrary()
            },
    );
    let pre = HeadlineV { children: kids, ..h };
    HeadlineV { etag: headline_tag_spec(pre), ..pre }
}

/// A forest with its tags filled in.
pub open spec fn with_tags_all(hs: Seq<HeadlineV>) -> Seq<HeadlineV> {
    Seq::new(
        hs.len(),
        |i: int|
            if 0 <= i < hs.len() {
                with_tags(hs[i])
            } else {
                arbitrary()
            },
    )
}

/// A copy of the tree with every tag computed, children first.
fn tagged(h: &OrgHeadline) -> (r: OrgHeadline)
    ensures
        r@ == with_tags(h@),
    decreases *h,
{
    let n = h.children.len();
    let mut children: Vec<OrgHeadline> = Vec::new();
    let mut i: usize = 0;
    while i < n
        invariant
            n == h.children@.len(),
            0 <= i <= n,
            children@.len() == i,
            forall|j: int| 0 <= j < i ==> hview(&children@[j]) == with_tags(h@.children[j]),
        decreases n - i,
    {
        children.push(tagged(&h.children[i]));
        proof {
            assert(hview(&h.children@[i as int]) == h@.children[i as int]);
        }
        i = i + 1;
    }
    let mut node = OrgHeadline {
        id: h.id.clone(),
        document_id: h.document_id.clone(),
        title: h.title.copied(),
        content: h.content.clone(),
        children,
        etag: String::new(),
    };
    let tag = generate_headline_etag(&node);
    proof {
        let w = with_tags(h@);
        assert(node@.children =~= w.children);
        let pre_w = HeadlineV { children: w.children, ..h@ };
        assert(crate::etag::headline_tag_input(node@) == crate::etag::headline_tag_input(pre_w));
        assert(tag@ == w.etag);
    }
    node.etag = tag;
    proof {
        let w = with_tags(h@);
        assert(node@.children =~= w.children);
        assert(node@ == w);
    }
    node
}

/// Build the headline forest from a flat, level-tagged sequence: each headline
/// nests under the nearest preceding headline of strictly smaller level, a
/// headline with no such predecessor becomes a root, and every headline then
/// receives its change-detection tag bottom-up.
pub fn build_headline_hierarchy(flat: Vec<OrgHeadline>) -> (r: Vec<OrgHeadline>)
    requires
        forall|i: int|
            0 <= i < flat.deep_view().len() ==> level_of(#[trigger] flat.deep_view()[i]) >= 1,
        forall|i: int|
            0 <= i < flat.deep_view().len() ==> (#[trigger] flat.deep_view()[i]).children.len()
                == 0,
    ensures
        r.deep_view() == with_tags_all(hier_all(flat.deep_view(), 0)),
{
    let ghost s = flat.deep_view();
    let mut rest = flat;
    let forest = build_siblings(&mut rest, 0);
    let n = forest.len();
    let mut out: Vec<OrgHeadline> = Vec::new();
    let mut i: usize = 0;
    while i < n
        invariant
            n == forest@.len(),
            forest.deep_view() == hier_all(s, 0),
            0 <= i <= n,
            out@.len() == i,
            forall|j: int| 0 <= j < i ==> hview(&out@[j]) == with_tags(forest.deep_view()[j]),
        decreases n - i,
    {
        out.push(tagged(&forest[i]));
        proof {
            assert(hview(&forest@[i as int]) == forest.deep_view()[i as int]);
        }
        i = i + 1;
    }
    proof {
        assert(out.deep_view() =~= with_tags_all(hier_all(s, 0)));
    }
    out
}

/// The tree with every headline's document id replaced.
pub open spec fn with_doc_id(h: HeadlineV, id: Seq<char>) -> HeadlineV
    decreases h,
{
    HeadlineV {
        document_id: id,
        children: Seq::new(
            h.children.len(),
            |i: int|
                if 0 <= i < h.children.len() {
                    with_doc_id(h.children[i], id)
                } else {
                    arbitrary()
                },
        ),
        ..h
    }
}

/// A forest with every headline's document id replaced.
pub open spec fn with_doc_id_all(hs: Seq<HeadlineV>, id: Seq<char>) -> Seq<HeadlineV> {
    Seq::new(
        hs.len(),
        |i: int|
            if 0 <= i < hs.len() {
                with_doc_id(hs[i], id)
            } else {
                arbitrary()
            },
    )
}

/// A copy of the tree carrying `document_id` on every headline.
fn reowned(h: &OrgHeadline, document_id: &str) -> (r: OrgHeadline)
    ensures
        r@ == with_doc_id(h@, document_id@),
    decreases *h,
{
    let n = h.children.len();
    let mut children: Vec<OrgHeadline> = Vec::new();
    let mut i: usize = 0;
    while i < n
        invariant
            n == h.children@.len(),
            0 <= i <= n,
            children@.len() == i,
            forall|j: int|
                0 <= j < i ==> hview(&children@[j]) == with_doc_id(h@.children[j], document_id@),
        decreases n - i,
    {
        children.push(reowned(&h.children[i], document_id));
        proof {
            assert(hview(&h.children@[i as int]) == h@.children[i as int]);
        }
        i = i + 1;
    }
    let r = OrgHeadline {
        id: h.id.clone(),
        document_id: document_id.to_owned(),
        title: h.title.copied(),
        content: h.content.clone(),
        children,
        etag: h.etag.clone(),
    };
    assert(r@.children =~= with_doc_id(h@, document_id@).children);
    r
}

/// Every headline of the forest rewritten to carry `document_id`.
pub fn update_headline_document_ids(headlines: &mut Vec<OrgHeadline>, document_id: &str)
    ensures
        final(headlines).deep_view() == with_doc_id_all(old(headlines).deep_view(), document_id@),
{
    let n = headlines.len();
    let mut out: Vec<OrgHeadline> = Vec::new();
    let mut i: usize = 0;
    while i < n
        invariant
            n == headlines@.len(),
            *headlines == *old(headlines),
            0 <= i <= n,
            out@.len() == i,
            forall|j: int|
                0 <= j < i ==> hview(&out@[j]) == with_doc_id(
                    headlines.deep_view()[j],
                    document_id@,
                ),
        decreases n - i,
    {
        out.push(reowned(&headlines[i], document_id));
        proof {
            assert(hview(&headlines@[i as int]) == headlines.deep_view()[i as int]);
        }
        i = i + 1;
    }
    proof {
        assert(out.deep_view() =~= with_doc_id_all(old(headlines).deep_view(), document_id@));
    }
    *headlines = out;
}

} // verus!
