//! A parsed org document: identity, metadata, raw text and its headline
//! forest.

use vstd::prelude::*;
use crate::headline::{hview, HeadlineV, OrgHeadline};
use crate::props::{props_get, Properties};
use crate::todo::TodoConfiguration;

verus! {

/// A parsed document. Its `id` is its repository key: stable across re-parses
/// of the same file, so that upserting a re-parse replaces rather than
/// duplicates.
#[derive(Debug)]
pub struct OrgDocument {
    pub id: String,
    pub title: String,
    pub content: String,
    pub headlines: Vec<OrgHeadline>,
    pub filetags: Vec<String>,
    pub parsed_at: String,
    pub file_path: String,
    pub properties: Properties,
    pub category: String,
    pub etag: String,
    pub todo_config: Option<TodoConfiguration>,
}

/// The mathematical image of a document.
pub struct DocumentV {
    pub id: Seq<char>,
    pub title: Seq<char>,
    pub content: Seq<char>,
    pub headlines: Seq<HeadlineV>,
    pub filetags: Seq<Seq<char>>,
    pub parsed_at: Seq<char>,
    pub file_path: Seq<char>,
    pub properties: Seq<(Seq<char>, Seq<char>)>,
    pub category: Seq<char>,
    pub etag: Seq<char>,
    pub todo_config: Option<Seq<Seq<crate::todo::StatusV>>>,
}

impl View for OrgDocument {
    type V = DocumentV;

    open spec fn view(&self) -> DocumentV {
        DocumentV {
            id: self.id@,
            title: self.title@,
            content: self.content@,
            headlines: self.headlines.deep_view(),
            filetags: self.filetags.deep_view(),
            parsed_at: self.parsed_at@,
            file_path: self.file_path@,
            properties: self.properties@,
            category: self.category@,
            etag: self.etag@,
            todo_config: match &self.todo_config {
                Some(c) => Some(c@),
                None => None,
            },
        }
    }
}

impl DeepView for OrgDocument {
    type V = DocumentV;

    open spec fn deep_view(&self) -> DocumentV {
        self.view()
    }
}

impl OrgDocument {
    /// A copy of this document.
    pub fn copied(&self) -> (r: OrgDocument)
        ensures
            r@ == self@,
    {
        let mut headlines: Vec<OrgHeadline> = Vec::new();
        let n = self.headlines.len();
        let mut i: usize = 0;
        while i < n
            invariant
                n == self.headlines@.len(),
                0 <= i <= n,
                headlines@.len() == i,
                forall|j: int| 0 <= j < i ==> hview(&headlines@[j]) == self@.headlines[j],
            decreases n - i,
        {
            headlines.push(self.headlines[i].copied());
            proof {
                assert(hview(&self.headlines@[i as int]) == self@.headlines[i as int]);
            }
            i = i + 1;
        }
        let mut filetags: Vec<String> = Vec::new();
        let m = self.filetags.len();
        let mut k: usize = 0;
        while k < m
            invariant
                m == self.filetags@.len(),
                0 <= k <= m,
                filetags@.len() == k,
                forall|j: int| 0 <= j < k ==> filetags@[j]@ == self@.filetags[j],
            decreases m - k,
        {
            filetags.push(self.filetags[k].clone());
            k = k + 1;
        }
        let todo_config = match &self.todo_config {
            Some(c) => Some(c.copied()),
            None => None,
        };
        let r = OrgDocument {
            id: self.id.clone(),
            title: self.title.clone(),
            content: self.content.clone(),
            headlines,
            filetags,
            parsed_at: self.parsed_at.clone(),
            file_path: self.file_path.clone(),
            properties: self.properties.copied(),
            category: self.category.clone(),
            etag: self.etag.clone(),
            todo_config,
        };
        assert(r@.headlines =~= self@.headlines);
        assert(r@.filetags =~= self@.filetags);
        r
    }
}

impl Clone for OrgDocument {
    /// Cloning keeps the whole document.
    fn clone(&self) -> (r: OrgDocument)
        ensures
            r@ == self@,
    {
        self.copied()
    }
}

impl OrgHeadline {
    /// The effective category of a headline: its own `CATEGORY` property when
    /// set, its owning document's category otherwise.
    pub fn get_category(&self, document: &OrgDocument) -> (r: String)
        ensures
            r@ == category_spec(self@, document@),
    {
        match self.get_property("CATEGORY") {
            Some(v) => v.to_owned(),
            None => document.category.clone(),
        }
    }
}

/// The effective category of a headline within its document: the headline's
/// own `CATEGORY` property when present, else the document's category.
pub open spec fn category_spec(h: HeadlineV, d: DocumentV) -> Seq<char> {
    match props_get(h.title.properties, "CATEGORY"@) {
        Some(v) => v,
        None => d.category,
    }
}

/// A headline with a direct child of the given id.
pub open spec fn has_direct_child(h: HeadlineV, id: Seq<char>) -> bool {
    exists|j: int| 0 <= j < h.children.len() && h.children[j].id == id
}

/// The parent of the headline with `id` within one tree: the tree's root when
/// a direct child carries the id, else the parent found among the children.
pub open spec fn parent_in_tree(h: HeadlineV, id: Seq<char>) -> Option<HeadlineV>
    decreases h, 0int, 0int,
{
    if has_direct_child(h, id) {
        Some(h)
    } else {
        parent_in_forest(h.children, 0, id)
    }
}

/// The parent of the headline with `id` within a forest: the first tree, in
/// order, that yields one.
pub open spec fn parent_in_forest(hs: Seq<HeadlineV>, i: int, id: Seq<char>) -> Option<HeadlineV>
    decreases hs, 1int, hs.len() - i,
{
    if !(0 <= i < hs.len()) {
        None
    } else {
        match parent_in_tree(hs[i], id) {
            Some(p) => Some(p),
            None => parent_in_forest(hs, i + 1, id),
        }
    }
}

/// Index of the first headline with the given id, or the length.
pub open spec fn position_of(hs: Seq<HeadlineV>, id: Seq<char>) -> int
    decreases hs.len(),
{
    if hs.len() == 0 {
        0
    } else if hs[0].id == id {
        0
    } else {
        1 + position_of(hs.drop_first(), id)
    }
}

pub proof fn lemma_position_of_bounds(hs: Seq<HeadlineV>, id: Seq<char>)
    ensures
        0 <= position_of(hs, id) <= hs.len(),
        position_of(hs, id) < hs.len() ==> hs[position_of(hs, id)].id == id,
        forall|j: int| 0 <= j < position_of(hs, id) ==> hs[j].id != id,
    decreases hs.len(),
{
    if hs.len() > 0 && hs[0].id != id {
        lemma_position_of_bounds(hs.drop_first(), id);
        assert(forall|j: int|
            1 <= j < position_of(hs, id) ==> hs[j] == hs.drop_first()[j - 1]);
    }
}

pub proof fn lemma_position_of_at(hs: Seq<HeadlineV>, id: Seq<char>, i: int)
    requires
        0 <= i < hs.len(),
        hs[i].id == id,
        forall|j: int| 0 <= j < i ==> hs[j].id != id,
    ensures
        position_of(hs, id) == i,
    decreases i,
{
    if i > 0 {
        lemma_position_of_at(hs.drop_first(), id, i - 1);
    }
}

/// The previous sibling of a headline: the one before it among its parent's
/// children, or among the document's roots for a top-level headline.
pub open spec fn previous_spec(doc: DocumentV, h: HeadlineV) -> Option<HeadlineV> {
    match parent_in_forest(doc.headlines, 0, h.id) {
        Some(p) => {
            let i = position_of(p.children, h.id);
            if i < p.children.len() && i > 0 {
                Some(p.children[i - 1])
            } else {
                None
            }
        },
        None => if h.title.level == 1 {
            let i = position_of(doc.headlines, h.id);
            if i < doc.headlines.len() && i > 0 {
                Some(doc.headlines[i - 1])
            } else {
                None
            }
        } else {
            None
        },
    }
}

/// The next sibling of a headline.
pub open spec fn next_spec(doc: DocumentV, h: HeadlineV) -> Option<HeadlineV> {
    match parent_in_forest(doc.headlines, 0, h.id) {
        Some(p) => {
            let i = position_of(p.children, h.id);
            if i < p.children.len() && i + 1 < p.children.len() {
                Some(p.children[i + 1])
            } else {
                None
            }
        },
        None => if h.title.level == 1 {
            let i = position_of(doc.headlines, h.id);
            if i < doc.headlines.len() && i + 1 < doc.headlines.len() {
                Some(doc.headlines[i + 1])
            } else {
                None
            }
        } else {
            None
        },
    }
}

/// Find the parent of the headline with `id` in one tree.
fn find_parent_tree<'a>(h: &'a OrgHeadline, id: &str) -> (r: Option<&'a OrgHeadline>)
    ensures
        match r {
            Some(p) => parent_in_tree(h@, id@) == Some(p@),
            None => parent_in_tree(h@, id@) is None,
        },
    decreases *h,
{
    let n = h.children.len();
    let mut i: usize = 0;
    while i < n
        invariant
            n == h.children@.len(),
            0 <= i <= n,
            forall|j: int| 0 <= j < i ==> (#[trigger] h@.children[j]).id != id@,
        decreases n - i,
    {
        if crate::strutil::str_eq(h.children[i].id.as_str(), id) {
            proof {
                assert(hview(&h.children@[i as int]) == h@.children[i as int]);
                assert(h@.children[i as int].id == id@);
                assert(has_direct_child(h@, id@));
            }
            return Some(h);
        }
        proof {
            assert(hview(&h.children@[i as int]) == h@.children[i as int]);
        }
        i = i + 1;
    }
    assert(!has_direct_child(h@, id@));
    let mut k: usize = 0;
    while k < n
        invariant
            n == h.children@.len(),
            !has_direct_child(h@, id@),
            0 <= k <= n,
            parent_in_forest(h@.children, 0, id@) == parent_in_forest(h@.children, k as int, id@),
        decreases n - k,
    {
        proof {
            assert(hview(&h.children@[k as int]) == h@.children[k as int]);
        }
        match find_parent_tree(&h.children[k], id) {
            Some(p) => {
                return Some(p);
            },
            None => {},
        }
        k = k + 1;
    }
    None
}

impl OrgHeadline {
    /// The parent of this headline within the document's forest, if it has
    /// one; a root headline has none.
    pub fn parent<'a>(&self, document: &'a OrgDocument) -> (r: Option<&'a OrgHeadline>)
        ensures
            match r {
                Some(p) => parent_in_forest(document@.headlines, 0, self@.id) == Some(p@),
                None => parent_in_forest(document@.headlines, 0, self@.id) is None,
            },
    {
        let n = document.headlines.len();
        let mut i: usize = 0;
        while i < n
            invariant
                n == document.headlines@.len(),
                0 <= i <= n,
                parent_in_forest(document@.headlines, 0, self@.id) == parent_in_forest(
                    document@.headlines,
                    i as int,
                    self@.id,
                ),
            decreases n - i,
        {
            proof {
                assert(hview(&document.headlines@[i as int]) == document@.headlines[i as int]);
            }
            match find_parent_tree(&document.headlines[i], self.id.as_str()) {
                Some(p) => {
                    return Some(p);
                },
                None => {},
            }
            i = i + 1;
        }
        None
    }

    /// The sibling right before this headline, under its parent or among the
    /// document's roots.
    pub fn previous<'a>(&self, document: &'a OrgDocument) -> (r: Option<&'a OrgHeadline>)
        ensures
            match r {
                Some(p) => previous_spec(document@, self@) == Some(p@),
                None => previous_spec(document@, self@) is None,
            },
    {
        match self.parent(document) {
            Some(parent) => {
                proof {
                    assert(parent.children.deep_view() =~= parent@.children);
                }
                match sibling_position(&parent.children, self.id.as_str()) {
                    Some(i) => {
                        if i > 0 {
                            proof {
                                assert(hview(&parent.children@[i - 1])
                                    == parent@.children[i - 1]);
                            }
                            Some(&parent.children[i - 1])
                        } else {
                            None
                        }
                    },
                    None => None,
                }
            },
            None => {
                if self.title.level == 1 {
                    match sibling_position(&document.headlines, self.id.as_str()) {
                        Some(i) => {
                            if i > 0 {
                                proof {
                                    assert(hview(&document.headlines@[i - 1])
                                        == document@.headlines[i - 1]);
                                }
                                Some(&document.headlines[i - 1])
                            } else {
                                None
                            }
                        },
                        None => None,
                    }
                } else {
                    None
                }
            },
        }
    }

    /// The sibling right after this headline, under its parent or among the
    /// document's roots.
    pub fn next<'a>(&self, document: &'a OrgDocument) -> (r: Option<&'a OrgHeadline>)
        ensures
            match r {
                Some(p) => next_spec(document@, self@) == Some(p@),
                None => next_spec(document@, self@) is None,
            },
    {
        match self.parent(document) {
            Some(parent) => {
                let n = parent.children.len();
                proof {
                    assert(parent.children.deep_view() =~= parent@.children);
                }
                match sibling_position(&parent.children, self.id.as_str()) {
                    Some(i) => {
                        assert(i < n);
                        if i + 1 < n {
                            proof {
                                assert(hview(&parent.children@[i + 1])
                                    == parent@.children[i + 1]);
                            }
                            Some(&parent.children[i + 1])
                        } else {
                            None
                        }
                    },
                    None => None,
                }
            },
            None => {
                if self.title.level == 1 {
                    let n = document.headlines.len();
                    match sibling_position(&document.headlines, self.id.as_str()) {
                        Some(i) => {
                            assert(i < n);
                            if i + 1 < n {
                                proof {
                                    assert(hview(&document.headlines@[i + 1])
                                        == document@.headlines[i + 1]);
                                }
                                Some(&document.headlines[i + 1])
                            } else {
                                None
                            }
                        },
                        None => None,
                    }
                } else {
                    None
                }
            },
        }
    }
}

/// The index of the headline with `id` among `hs`, if present.
fn sibling_position(hs: &Vec<OrgHeadline>, id: &str) -> (r: Option<usize>)
    ensures
        match r {
            Some(i) => i == position_of(hs.deep_view(), id@) && (i as int) < hs.deep_view().len(),
            None => position_of(hs.deep_view(), id@) >= hs.deep_view().len(),
        },
{
    let n = hs.len();
    let mut i: usize = 0;
    while i < n
        invariant
            n == hs@.len(),
            0 <= i <= n,
            forall|j: int| 0 <= j < i ==> (#[trigger] hs.deep_view()[j]).id != id@,
        decreases n - i,
    {
        if crate::strutil::str_eq(hs[i].id.as_str(), id) {
            proof {
                assert(hview(&hs@[i as int]) == hs.deep_view()[i as int]);
                lemma_position_of_at(hs.deep_view(), id@, i as int);
            }
            return Some(i);
        }
        proof {
            assert(hview(&hs@[i as int]) == hs.deep_view()[i as int]);
        }
        i = i + 1;
    }
    proof {
        lemma_position_of_bounds(hs.deep_view(), id@);
    }
    None
}

} // verus!
