//! Headlines: nodes of the document tree, with task classification,
//! navigation, and change-detection tags.

use vstd::prelude::*;
use crate::props::props_get;
use crate::title::{OrgTitle, TitleV};
use crate::todo::{find_status_spec, TodoConfiguration, TodoStatus};

verus! {

/// One headline with its body text and nested children.
#[derive(Debug)]
pub struct OrgHeadline {
    pub id: String,
    pub document_id: String,
    pub title: OrgTitle,
    pub content: String,
    pub children: Vec<OrgHeadline>,
    pub etag: String,
}

/// The mathematical image of a headline tree.
pub struct HeadlineV {
    pub id: Seq<char>,
    pub document_id: Seq<char>,
    pub title: TitleV,
    pub content: Seq<char>,
    pub children: Seq<HeadlineV>,
    pub etag: Seq<char>,
}

/// The image of a headline, children included.
pub open spec fn hview(h: &OrgHeadline) -> HeadlineV
    decreases *h,
{
    HeadlineV {
        id: h.id@,
        document_id: h.document_id@,
        title: h.title@,
        content: h.content@,
        children: Seq::new(
            h.children@.len(),
            |i: int|
                if 0 <= i < h.children@.len() {
                    hview(&h.children@[i])
                } else {
                    arbitrary()
                },
        ),
        etag: h.etag@,
    }
}

/// The images of a list of headlines.
pub open spec fn hviews(hs: Seq<OrgHeadline>) -> Seq<HeadlineV> {
    Seq::new(
        hs.len(),
        |i: int|
            if 0 <= i < hs.len() {
                hview(&hs[i])
            } else {
                arbitrary()
            },
    )
}

impl View for OrgHeadline {
    type V = HeadlineV;

    open spec fn view(&self) -> HeadlineV {
        hview(self)
    }
}

impl DeepView for OrgHeadline {
    type V = HeadlineV;

    open spec fn deep_view(&self) -> HeadlineV {
        hview(self)
    }
}

/// A headline is a task when its title carries a TODO keyword.
pub open spec fn is_task_spec(h: HeadlineV) -> bool {
    h.title.todo_keyword is Some
}

/// A headline is a note when its title carries no TODO keyword.
pub open spec fn is_note_spec(h: HeadlineV) -> bool {
    h.title.todo_keyword is None
}

/// Every headline is exactly one of task and note.
pub proof fn lemma_task_note_exclusive(h: HeadlineV)
    ensures
        is_task_spec(h) != is_note_spec(h),
{
}

/// The tree rooted at `h` holds a headline with id `id`.
pub open spec fn tree_contains_id(h: HeadlineV, id: Seq<char>) -> bool
    decreases h,
{
    h.id == id || exists|i: int|
        0 <= i < h.children.len() && tree_contains_id(#[trigger] h.children[i], id)
}

/// Some tree in `hs` holds a headline with id `id`.
pub open spec fn forest_contains_id(hs: Seq<HeadlineV>, id: Seq<char>) -> bool {
    exists|i: int| 0 <= i < hs.len() && tree_contains_id(#[trigger] hs[i], id)
}

impl OrgHeadline {
    /// A leaf headline with no children and no tag yet.
    pub fn new(id: String, document_id: String, title: OrgTitle, content: String) -> (r:
        OrgHeadline)
        ensures
            r@ == (HeadlineV {
                id: id@,
                document_id: document_id@,
                title: title@,
                content: content@,
                children: Seq::<HeadlineV>::empty(),
                etag: Seq::<char>::empty(),
            }),
    {
        let r = OrgHeadline {
            id,
            document_id,
            title,
            content,
            children: Vec::new(),
            etag: String::new(),
        };
        assert(r@.children =~= Seq::<HeadlineV>::empty());
        r
    }

    /// Whether this headline is a task: it has a TODO keyword.
    pub fn is_task(&self) -> (r: bool)
        ensures
            r == is_task_spec(self@),
    {
        self.title.todo_keyword.is_some()
    }

    /// Whether this headline is a note: it has no TODO keyword.
    pub fn is_note(&self) -> (r: bool)
        ensures
            r == is_note_spec(self@),
    {
        self.title.todo_keyword.is_none()
    }

    /// The value of a drawer property, if set.
    pub fn get_property(&self, key: &str) -> (r: Option<&str>)
        ensures
            match r {
                Some(v) => props_get(self@.title.properties, key@) == Some(v@),
                None => props_get(self@.title.properties, key@) is None,
            },
    {
        self.title.get_property(key)
    }

    /// The `DEADLINE` property, if set.
    pub fn due_date(&self) -> (r: Option<&str>)
        ensures
            match r {
                Some(v) => props_get(self@.title.properties, "DEADLINE"@) == Some(v@),
                None => props_get(self@.title.properties, "DEADLINE"@) is None,
            },
    {
        self.get_property("DEADLINE")
    }

    /// The `SCHEDULED` property, if set.
    pub fn scheduled_date(&self) -> (r: Option<&str>)
        ensures
            match r {
                Some(v) => props_get(self@.title.properties, "SCHEDULED"@) == Some(v@),
                None => props_get(self@.title.properties, "SCHEDULED"@) is None,
            },
    {
        self.get_property("SCHEDULED")
    }

    /// The resolved status of this headline's TODO keyword under `config`:
    /// the first matching status, or none for a note or an unknown keyword.
    pub fn get_todo_status(&self, config: &TodoConfiguration) -> (r: Option<TodoStatus>)
        ensures
            match &self.title.todo_keyword {
                Some(kw) => match r {
                    Some(s) => find_status_spec(config@, kw@) == Some(s@),
                    None => find_status_spec(config@, kw@) is None,
                },
                None => r is None,
            },
    {
        match &self.title.todo_keyword {
            Some(keyword) => match config.find_status(keyword.as_str()) {
                Some(s) => Some(s.copied()),
                None => None,
            },
            None => None,
        }
    }

    /// All tasks in this tree, in document order: the headline itself first
    /// when it is a task, then every task below each child in turn.
    pub fn find_tasks(&self) -> (r: Vec<&OrgHeadline>)
        ensures
            r.deep_view() == tasks_spec(self@),
        decreases *self,
    {
        let mut out: Vec<&OrgHeadline> = Vec::new();
        if self.title.todo_keyword.is_some() {
            out.push(self);
        }
        let n = self.children.len();
        let mut i: usize = 0;
        while i < n
            invariant
                n == self.children@.len(),
                0 <= i <= n,
                out.deep_view() =~= seq_if(is_task_spec(self@), self@) + tasks_concat(
                    self@.children.subrange(0, i as int),
                ),
            decreases n - i,
        {
            let sub = self.children[i].find_tasks();
            let mut k: usize = 0;
            let m = sub.len();
            let ghost out0 = out.deep_view();
            while k < m
                invariant
                    m == sub.len(),
                    0 <= k <= m,
                    out.deep_view() =~= out0 + sub.deep_view().subrange(0, k as int),
                decreases m - k,
            {
                let ghost before = out.deep_view();
                out.push(sub[k]);
                proof {
                    assert(out.deep_view() =~= before + seq![sub.deep_view()[k as int]]);
                    assert(sub.deep_view().subrange(0, k as int) + seq![
                        sub.deep_view()[k as int],
                    ] =~= sub.deep_view().subrange(0, k + 1));
                }
                k = k + 1;
            }
            assert(sub.deep_view().subrange(0, m as int) =~= sub.deep_view());
            proof {
                assert(self@.children.subrange(0, i + 1).drop_last() =~= self@.children.subrange(
                    0,
                    i as int,
                ));
                lemma_tasks_concat_push(self@.children.subrange(0, i + 1));
                assert(self@.children.subrange(0, i + 1).last() == self@.children[i as int]);
                assert(hview(&self.children@[i as int]) == self@.children[i as int]);
            }
            i = i + 1;
        }
        proof {
            assert(self@.children.subrange(0, n as int) =~= self@.children);
        }
        out
    }

    /// All notes in this tree, in document order.
    pub fn find_notes(&self) -> (r: Vec<&OrgHeadline>)
        ensures
            r.deep_view() == notes_spec(self@),
        decreases *self,
    {
        let mut out: Vec<&OrgHeadline> = Vec::new();
        if self.title.todo_keyword.is_none() {
            out.push(self);
        }
        let n = self.children.len();
        let mut i: usize = 0;
        while i < n
            invariant
                n == self.children@.len(),
                0 <= i <= n,
                out.deep_view() =~= seq_if(is_note_spec(self@), self@) + notes_concat(
                    self@.children.subrange(0, i as int),
                ),
            decreases n - i,
        {
            let sub = self.children[i].find_notes();
            let mut k: usize = 0;
            let m = sub.len();
            let ghost out0 = out.deep_view();
            while k < m
                invariant
                    m == sub.len(),
                    0 <= k <= m,
                    out.deep_view() =~= out0 + sub.deep_view().subrange(0, k as int),
                decreases m - k,
            {
                let ghost before = out.deep_view();
                out.push(sub[k]);
                proof {
                    assert(out.deep_view() =~= before + seq![sub.deep_view()[k as int]]);
                    assert(sub.deep_view().subrange(0, k as int) + seq![
                        sub.deep_view()[k as int],
                    ] =~= sub.deep_view().subrange(0, k + 1));
                }
                k = k + 1;
            }
            assert(sub.deep_view().subrange(0, m as int) =~= sub.deep_view());
            proof {
                assert(self@.children.subrange(0, i + 1).drop_last() =~= self@.children.subrange(
                    0,
                    i as int,
                ));
                lemma_notes_concat_push(self@.children.subrange(0, i + 1));
                assert(self@.children.subrange(0, i + 1).last() == self@.children[i as int]);
                assert(hview(&self.children@[i as int]) == self@.children[i as int]);
            }
            i = i + 1;
        }
        proof {
            assert(self@.children.subrange(0, n as int) =~= self@.children);
        }
        out
    }

    /// Whether this headline's own text changed against another: its body or
    /// its display title differs.
    pub fn content_changed(&self, other: &OrgHeadline) -> (r: bool)
        ensures
            r == (self@.content != other@.content || self@.title.raw != other@.title.raw),
    {
        !crate::strutil::str_eq(self.content.as_str(), other.content.as_str())
            || !crate::strutil::str_eq(self.title.raw.as_str(), other.title.raw.as_str())
    }

    /// Whether the shape of this tree changed against another: some node has a
    /// different number of children.
    pub fn structure_changed(&self, other: &OrgHeadline) -> (r: bool)
        ensures
            r == structure_changed_spec(self@, other@),
        decreases *self,
    {
        let n = self.children.len();
        if n != other.children.len() {
            return true;
        }
        let mut i: usize = 0;
        while i < n
            invariant
                n == self.children@.len(),
                n == other.children@.len(),
                0 <= i <= n,
                forall|j: int|
                    0 <= j < i ==> !structure_changed_spec(
                        #[trigger] self@.children[j],
                        other@.children[j],
                    ),
            decreases n - i,
        {
            if self.children[i].structure_changed(&other.children[i]) {
                proof {
                    assert(hview(&self.children@[i as int]) == self@.children[i as int]);
                    assert(hview(&other.children@[i as int]) == other@.children[i as int]);
                    assert(structure_changed_spec(
                        self@.children[i as int],
                        other@.children[i as int],
                    ));
                }
                return true;
            }
            i = i + 1;
        }
        false
    }

    /// A copy of this whole tree.
    pub fn copied(&self) -> (r: OrgHeadline)
        ensures
            r@ == self@,
        decreases *self,
    {
        let n = self.children.len();
        let mut children: Vec<OrgHeadline> = Vec::new();
        let mut i: usize = 0;
        while i < n
            invariant
                n == self.children@.len(),
                0 <= i <= n,
                children@.len() == i,
                forall|j: int| 0 <= j < i ==> hview(&children@[j]) == self@.children[j],
            decreases n - i,
        {
            children.push(self.children[i].copied());
            i = i + 1;
        }
        let r = OrgHeadline {
            id: self.id.clone(),
            document_id: self.document_id.clone(),
            title: self.title.copied(),
            content: self.content.clone(),
            children,
            etag: self.etag.clone(),
        };
        assert(r@.children =~= self@.children);
        r
    }
}

impl Clone for OrgHeadline {
    /// Cloning keeps the whole tree.
    fn clone(&self) -> (r: OrgHeadline)
        ensures
            r@ == self@,
    {
        self.copied()
    }
}

/// The one-element sequence `h` when `cond` holds, empty otherwise.
pub open spec fn seq_if(cond: bool, h: HeadlineV) -> Seq<HeadlineV> {
    if cond {
        seq![h]
    } else {
        Seq::empty()
    }
}

/// All tasks in a tree, in document order.
pub open spec fn tasks_spec(h: HeadlineV) -> Seq<HeadlineV>
    decreases h,
{
    seq_if(is_task_spec(h), h) + tasks_concat(h.children)
}

/// All tasks below each tree in `hs`, in order.
pub open spec fn tasks_concat(hs: Seq<HeadlineV>) -> Seq<HeadlineV>
    decreases hs,
{
    if hs.len() == 0 {
        Seq::empty()
    } else {
        tasks_concat(hs.drop_last()) + tasks_spec(hs.last())
    }
}

/// All notes in a tree, in document order.
pub open spec fn notes_spec(h: HeadlineV) -> Seq<HeadlineV>
    decreases h,
{
    seq_if(is_note_spec(h), h) + notes_concat(h.children)
}

/// All notes below each tree in `hs`, in order.
pub open spec fn notes_concat(hs: Seq<HeadlineV>) -> Seq<HeadlineV>
    decreases hs,
{
    if hs.len() == 0 {
        Seq::empty()
    } else {
        notes_concat(hs.drop_last()) + notes_spec(hs.last())
    }
}

proof fn lemma_tasks_concat_push(hs: Seq<HeadlineV>)
    requires
        hs.len() > 0,
    ensures
        tasks_concat(hs) == tasks_concat(hs.drop_last()) + tasks_spec(hs.last()),
{
}

proof fn lemma_notes_concat_push(hs: Seq<HeadlineV>)
    requires
        hs.len() > 0,
    ensures
        notes_concat(hs) == notes_concat(hs.drop_last()) + notes_spec(hs.last()),
{
}

/// The shape of two trees differs: at some node reachable by the same path in
/// both, the number of children differs.
pub open spec fn structure_changed_spec(a: HeadlineV, b: HeadlineV) -> bool
    decreases a,
{
    a.children.len() != b.children.len() || exists|i: int|
        0 <= i < a.children.len() && structure_changed_spec(
            #[trigger] a.children[i],
            b.children[i],
        )
}

} // verus!
