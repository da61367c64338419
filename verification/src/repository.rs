//! The in-memory document repository: documents keyed by stable id, with
//! upsert, lookup, removal, headline search and configuration-driven pruning.

use vstd::prelude::*;
use crate::document::{DocumentV, OrgDocument};
use crate::headline::{forest_contains_id, hview, tree_contains_id, OrgHeadline};

verus! {

/// The repository: its documents, in insertion order, with unique ids.
#[derive(Debug)]
pub struct OrgDocumentRepository {
    pub documents: Vec<OrgDocument>,
}

impl View for OrgDocumentRepository {
    type V = Seq<DocumentV>;

    open spec fn view(&self) -> Seq<DocumentV> {
        self.documents.deep_view()
    }
}

/// No two documents share an id.
pub open spec fn ids_unique(docs: Seq<DocumentV>) -> bool {
    forall|i: int, j: int| 0 <= i < j < docs.len() ==> docs[i].id != docs[j].id
}

/// Index of the first document with id `id`, or the length.
pub open spec fn index_of_id(docs: Seq<DocumentV>, id: Seq<char>) -> int
    decreases docs.len(),
{
    if docs.len() == 0 {
        0
    } else if docs[0].id == id {
        0
    } else {
        1 + index_of_id(docs.drop_first(), id)
    }
}

pub proof fn lemma_index_of_id_bounds(docs: Seq<DocumentV>, id: Seq<char>)
    ensures
        0 <= index_of_id(docs, id) <= docs.len(),
        index_of_id(docs, id) < docs.len() ==> docs[index_of_id(docs, id)].id == id,
        forall|j: int| 0 <= j < index_of_id(docs, id) ==> docs[j].id != id,
    decreases docs.len(),
{
    if docs.len() > 0 && docs[0].id != id {
        lemma_index_of_id_bounds(docs.drop_first(), id);
        assert(forall|j: int|
            1 <= j < index_of_id(docs, id) ==> docs[j] == docs.drop_first()[j - 1]);
    }
}

pub proof fn lemma_index_of_id_at(docs: Seq<DocumentV>, id: Seq<char>, i: int)
    requires
        0 <= i < docs.len(),
        docs[i].id == id,
        forall|j: int| 0 <= j < i ==> docs[j].id != id,
    ensures
        index_of_id(docs, id) == i,
    decreases i,
{
    if i == 0 {
    } else {
        lemma_index_of_id_at(docs.drop_first(), id, i - 1);
    }
}

/// The repository after an upsert: the document replaces the one with its id,
/// or is appended when the id is new.
pub open spec fn upsert_model(docs: Seq<DocumentV>, d: DocumentV) -> Seq<DocumentV> {
    let i = index_of_id(docs, d.id);
    if i < docs.len() {
        docs.update(i, d)
    } else {
        docs.push(d)
    }
}

/// Upserting keeps ids unique and never grows the repository by more than the
/// one document; upserting a present id keeps the length.
pub proof fn lemma_upsert_model(docs: Seq<DocumentV>, d: DocumentV)
    requires
        ids_unique(docs),
    ensures
        ids_unique(upsert_model(docs, d)),
        index_of_id(docs, d.id) < docs.len() ==> upsert_model(docs, d).len() == docs.len(),
        index_of_id(docs, d.id) >= docs.len() ==> upsert_model(docs, d).len() == docs.len() + 1,
        index_of_id(upsert_model(docs, d), d.id) < upsert_model(docs, d).len(),
{
    lemma_index_of_id_bounds(docs, d.id);
    let i = index_of_id(docs, d.id);
    let out = upsert_model(docs, d);
    if i < docs.len() {
        lemma_index_of_id_at(out, d.id, i);
    } else {
        lemma_index_of_id_at(out, d.id, docs.len() as int);
    }
}

/// Idempotent re-parse: parsing one unchanged file any number of times and
/// upserting every result into an empty repository leaves exactly one
/// document, because every parse of that file carries the file path as its id.
pub proof fn lemma_idempotent_reparse(
    ds: Seq<DocumentV>,
    content: Seq<char>,
    path: Seq<char>,
    aws: Seq<Seq<char>>,
    cws: Seq<Seq<char>>,
)
    requires
        path.len() > 0,
        ds.len() >= 1,
        forall|i: int|
            0 <= i < ds.len() ==> crate::parser::parsed_document_spec(
                #[trigger] ds[i],
                content,
                Some(path),
                aws,
                cws,
            ),
    ensures
        fold_upserts(Seq::empty(), ds).len() == 1,
{
    assert(forall|i: int| 0 <= i < ds.len() ==> (#[trigger] ds[i]).id == path);
    lemma_repeated_upsert_single(Seq::empty(), ds, path);
}

/// Upserting any run of documents that all carry one id `x` leaves a
/// repository that held no document with other ids with exactly one document.
pub proof fn lemma_repeated_upsert_single(docs: Seq<DocumentV>, ds: Seq<DocumentV>, x: Seq<char>)
    requires
        ids_unique(docs),
        docs.len() <= 1,
        forall|i: int| 0 <= i < docs.len() ==> docs[i].id == x,
        ds.len() >= 1 || docs.len() == 1,
        forall|i: int| 0 <= i < ds.len() ==> ds[i].id == x,
    ensures
        fold_upserts(docs, ds).len() == 1,
        forall|i: int|
            0 <= i < fold_upserts(docs, ds).len() ==> fold_upserts(docs, ds)[i].id == x,
    decreases ds.len(),
{
    if ds.len() == 0 {
    } else {
        let next = upsert_model(docs, ds[0]);
        lemma_upsert_model(docs, ds[0]);
        lemma_index_of_id_bounds(docs, ds[0].id);
        assert(next.len() == 1);
        lemma_repeated_upsert_single(next, ds.drop_first(), x);
    }
}

/// The repository after upserting each document of `ds` in turn.
pub open spec fn fold_upserts(docs: Seq<DocumentV>, ds: Seq<DocumentV>) -> Seq<DocumentV>
    decreases ds.len(),
{
    if ds.len() == 0 {
        docs
    } else {
        fold_upserts(upsert_model(docs, ds[0]), ds.drop_first())
    }
}

/// `b` is an answer the coverage predicate could give for a file path.
pub open spec fn covered_answer<F: Fn(&str) -> bool>(f: F, path: Seq<char>, b: bool) -> bool {
    exists|s: &str| s@ == path && call_ensures(f, (s,), b)
}

/// The documents kept by a run of per-document answers.
pub open spec fn keep_by(docs: Seq<DocumentV>, ans: Seq<bool>) -> Seq<DocumentV>
    decreases docs.len(),
{
    if docs.len() == 0 {
        Seq::empty()
    } else {
        let rest = keep_by(docs.drop_first(), ans.drop_first());
        if ans.len() > 0 && ans[0] {
            seq![docs[0]] + rest
        } else {
            rest
        }
    }
}

/// The ids of the documents dropped by a run of per-document answers.
pub open spec fn dropped_ids_by(docs: Seq<DocumentV>, ans: Seq<bool>) -> Seq<Seq<char>>
    decreases docs.len(),
{
    if docs.len() == 0 {
        Seq::empty()
    } else {
        let rest = dropped_ids_by(docs.drop_first(), ans.drop_first());
        if ans.len() > 0 && ans[0] {
            rest
        } else {
            seq![docs[0].id] + rest
        }
    }
}

/// Keeping every document drops nothing.
pub proof fn lemma_keep_all(docs: Seq<DocumentV>, ans: Seq<bool>)
    requires
        ans.len() == docs.len(),
        forall|i: int| 0 <= i < ans.len() ==> ans[i],
    ensures
        keep_by(docs, ans) == docs,
        dropped_ids_by(docs, ans) == Seq::<Seq<char>>::empty(),
    decreases docs.len(),
{
    if docs.len() > 0 {
        lemma_keep_all(docs.drop_first(), ans.drop_first());
        assert(keep_by(docs, ans) =~= docs);
    }
}

/// Pruning is idempotent on the model: the documents kept by one run of
/// answers are all kept again by a second run that answers `true` for them.
pub proof fn lemma_prune_idempotent(docs: Seq<DocumentV>, ans: Seq<bool>, ans2: Seq<bool>)
    requires
        ans.len() == docs.len(),
        ans2.len() == keep_by(docs, ans).len(),
        forall|i: int| 0 <= i < ans2.len() ==> ans2[i],
    ensures
        keep_by(keep_by(docs, ans), ans2) == keep_by(docs, ans),
        dropped_ids_by(keep_by(docs, ans), ans2) == Seq::<Seq<char>>::empty(),
{
    lemma_keep_all(keep_by(docs, ans), ans2);
}

impl OrgDocumentRepository {
    /// An empty repository.
    pub fn new() -> (r: OrgDocumentRepository)
        ensures
            r@ == Seq::<DocumentV>::empty(),
            ids_unique(r@),
    {
        let r = OrgDocumentRepository { documents: Vec::new() };
        assert(r@ =~= Seq::<DocumentV>::empty());
        r
    }

    /// Insert the document, or replace the one already stored under its id.
    pub fn upsert(&mut self, document: OrgDocument)
        requires
            ids_unique(old(self)@),
        ensures
            final(self)@ == upsert_model(old(self)@, document@),
            ids_unique(final(self)@),
    {
        let ghost docs0 = self@;
        proof {
            lemma_upsert_model(docs0, document@);
        }
        let n = self.documents.len();
        let mut i: usize = 0;
        while i < n
            invariant
                n == self.documents@.len(),
                0 <= i <= n,
                self@ == docs0,
                docs0 == old(self)@,
                ids_unique(docs0),
                forall|j: int| 0 <= j < i ==> self@[j].id != document@.id,
            decreases n - i,
        {
            if crate::strutil::str_eq(self.documents[i].id.as_str(), document.id.as_str()) {
                proof {
                    lemma_index_of_id_at(docs0, document@.id, i as int);
                    lemma_upsert_model(docs0, document@);
                }
                self.documents.remove(i);
                self.documents.insert(i, document);
                proof {
                    assert(self@ =~= upsert_model(docs0, document@));
                }
                return ;
            }
            i = i + 1;
        }
        proof {
            lemma_index_of_id_bounds(docs0, document@.id);
            lemma_upsert_model(docs0, document@);
        }
        self.documents.push(document);
        proof {
            assert(self@ =~= upsert_model(docs0, document@));
        }
    }

    /// The document stored under `id`, if any.
    pub fn get(&self, id: &str) -> (r: Option<&OrgDocument>)
        ensures
            match r {
                Some(d) => index_of_id(self@, id@) < self@.len() && d@ == self@[index_of_id(
                    self@,
                    id@,
                )],
                None => index_of_id(self@, id@) >= self@.len(),
            },
    {
        let n = self.documents.len();
        let mut i: usize = 0;
        while i < n
            invariant
                n == self.documents@.len(),
                0 <= i <= n,
                forall|j: int| 0 <= j < i ==> self@[j].id != id@,
            decreases n - i,
        {
            if crate::strutil::str_eq(self.documents[i].id.as_str(), id) {
                proof {
                    lemma_index_of_id_at(self@, id@, i as int);
                }
                return Some(&self.documents[i]);
            }
            i = i + 1;
        }
        proof {
            lemma_index_of_id_bounds(self@, id@);
        }
        None
    }

    /// All documents, in insertion order.
    pub fn list(&self) -> (r: Vec<&OrgDocument>)
        ensures
            r.deep_view() == self@,
    {
        let n = self.documents.len();
        let mut out: Vec<&OrgDocument> = Vec::new();
        let mut i: usize = 0;
        while i < n
            invariant
                n == self.documents@.len(),
                0 <= i <= n,
                out.deep_view() =~= self@.subrange(0, i as int),
            decreases n - i,
        {
            let ghost before = out.deep_view();
            out.push(&self.documents[i]);
            proof {
                assert(out.deep_view() =~= before + seq![self@[i as int]]);
                assert(out.deep_view() =~= self@.subrange(0, i + 1));
            }
            i = i + 1;
        }
        assert(self@.subrange(0, n as int) =~= self@);
        out
    }

    /// Remove and return the document stored under `id`, if any.
    pub fn remove(&mut self, id: &str) -> (r: Option<OrgDocument>)
        ensures
            match r {
                Some(d) => {
                    let i = index_of_id(old(self)@, id@);
                    &&& i < old(self)@.len()
                    &&& d@ == old(self)@[i]
                    &&& final(self)@ == old(self)@.remove(i)
                },
                None => {
                    &&& index_of_id(old(self)@, id@) >= old(self)@.len()
                    &&& final(self)@ == old(self)@
                },
            },
            ids_unique(old(self)@) ==> ids_unique(final(self)@),
    {
        let ghost docs0 = self@;
        let n = self.documents.len();
        let mut i: usize = 0;
        while i < n
            invariant
                n == self.documents@.len(),
                0 <= i <= n,
                self@ == docs0,
                docs0 == old(self)@,
                forall|j: int| 0 <= j < i ==> self@[j].id != id@,
            decreases n - i,
        {
            if crate::strutil::str_eq(self.documents[i].id.as_str(), id) {
                proof {
                    lemma_index_of_id_at(docs0, id@, i as int);
                }
                let d = self.documents.remove(i);
                assert(self@ =~= docs0.remove(i as int));
                return Some(d);
            }
            i = i + 1;
        }
        proof {
            lemma_index_of_id_bounds(self@, id@);
        }
        None
    }

    /// The first document whose headline tree holds a headline with `headline_id`.
    pub fn get_document_for_headline(&self, headline_id: &str) -> (r: Option<&OrgDocument>)
        ensures
            match r {
                Some(d) => exists|i: int|
                    0 <= i < self@.len() && #[trigger] self@[i] == d@ && forest_contains_id(
                        d@.headlines,
                        headline_id@,
                    ),
                None => forall|i: int|
                    0 <= i < self@.len() ==> !forest_contains_id(
                        (#[trigger] self@[i]).headlines,
                        headline_id@,
                    ),
            },
    {
        let n = self.documents.len();
        let mut i: usize = 0;
        while i < n
            invariant
                n == self.documents@.len(),
                0 <= i <= n,
                forall|j: int|
                    0 <= j < i ==> !forest_contains_id(
                        (#[trigger] self@[j]).headlines,
                        headline_id@,
                    ),
            decreases n - i,
        {
            if forest_find(&self.documents[i].headlines, headline_id) {
                proof {
                    assert(self@[i as int] == self.documents@[i as int].deep_view());
                }
                return Some(&self.documents[i]);
            }
            proof {
                assert(self@[i as int] == self.documents@[i as int].deep_view());
            }
            i = i + 1;
        }
        None
    }

    /// The display title of the document stored under `id`: its title when it
    /// has one, else its file name, else `Untitled`.
    pub fn get_title_by_id(&self, id: &str) -> (r: Option<String>)
        ensures
            r is Some <==> index_of_id(self@, id@) < self@.len(),
            match r {
                Some(t) => t@ == display_title_spec(self@[index_of_id(self@, id@)]),
                None => true,
            },
    {
        match self.get(id) {
            Some(doc) => {
                if doc.title.as_str().unicode_len() > 0 {
                    Some(doc.title.clone())
                } else {
                    let name = file_name_of(doc.file_path.as_str());
                    if name.as_str().unicode_len() > 0 {
                        Some(name)
                    } else {
                        proof {
                            reveal_strlit("Untitled");
                        }
                        Some(String::from_str("Untitled"))
                    }
                }
            },
            None => None,
        }
    }

    /// The file path of the document stored under `id`, if any.
    pub fn get_path_by_id(&self, id: &str) -> (r: Option<String>)
        ensures
            r is Some <==> index_of_id(self@, id@) < self@.len(),
            match r {
                Some(p) => p@ == self@[index_of_id(self@, id@)].file_path,
                None => true,
            },
    {
        match self.get(id) {
            Some(doc) => Some(doc.file_path.clone()),
            None => None,
        }
    }

    /// Remove every document whose file path the coverage predicate rejects;
    /// return the removed ids. The kept documents are exactly those the
    /// predicate accepted, in order.
    pub fn prune_uncovered_documents<F: Fn(&str) -> bool>(&mut self, is_file_covered: F) -> (r:
        Vec<String>)
        requires
            forall|s: &str| is_file_covered.requires((s,)),
        ensures
            exists|ans: Seq<bool>|
                {
                    &&& ans.len() == old(self)@.len()
                    &&& #[trigger] keep_by(old(self)@, ans) == final(self)@
                    &&& dropped_ids_by(old(self)@, ans) == r.deep_view()
                    &&& forall|i: int|
                        0 <= i < ans.len() ==> covered_answer(
                            is_file_covered,
                            old(self)@[i].file_path,
                            #[trigger] ans[i],
                        )
                },
    {
        let ghost docs0 = self@;
        let n = self.documents.len();
        let mut answers: Vec<bool> = Vec::new();
        let mut i: usize = 0;
        while i < n
            invariant
                n == self.documents@.len(),
                self@ == docs0,
                docs0 == old(self)@,
                0 <= i <= n,
                answers@.len() == i,
                forall|s: &str| is_file_covered.requires((s,)),
                forall|j: int|
                    0 <= j < i ==> covered_answer(
                        is_file_covered,
                        self@[j].file_path,
                        #[trigger] answers@[j],
                    ),
            decreases n - i,
        {
            let path_ref = self.documents[i].file_path.as_str();
            let covered = is_file_covered(path_ref);
            answers.push(covered);
            proof {
                assert(call_ensures(is_file_covered, (path_ref,), covered));
                assert(path_ref@ == self@[i as int].file_path);
                assert(answers@[i as int] == covered);
                assert(covered_answer(is_file_covered, self@[i as int].file_path, covered));
            }
            i = i + 1;
        }
        let mut kept: Vec<OrgDocument> = Vec::new();
        let mut removed: Vec<String> = Vec::new();
        let ghost ans = answers@;
        proof {
            assert(docs0.skip(0) =~= docs0);
            assert(ans.skip(0) =~= ans);
        }
        let mut k: usize = 0;
        while k < n
            invariant
                n == self.documents@.len(),
                docs0 == self@,
                docs0 == old(self)@,
                ans == answers@,
                answers@.len() == n,
                0 <= k <= n,
                keep_by(docs0, ans) =~= kept.deep_view() + keep_by(
                    docs0.skip(k as int),
                    ans.skip(k as int),
                ),
                dropped_ids_by(docs0, ans) =~= removed.deep_view() + dropped_ids_by(
                    docs0.skip(k as int),
                    ans.skip(k as int),
                ),
            decreases n - k,
        {
            proof {
                assert(docs0.skip(k as int)[0] == docs0[k as int]);
                assert(docs0.skip(k as int).drop_first() =~= docs0.skip(k + 1));
                assert(ans.skip(k as int).drop_first() =~= ans.skip(k + 1));
            }
            if answers[k] {
                let ghost before = kept.deep_view();
                kept.push(self.documents[k].copied());
                assert(kept.deep_view() =~= before + seq![docs0[k as int]]);
            } else {
                let ghost before = removed.deep_view();
                removed.push(self.documents[k].id.clone());
                assert(removed.deep_view() =~= before + seq![docs0[k as int].id]);
            }
            proof {
                assert(keep_by(docs0, ans) =~= kept.deep_view() + keep_by(
                    docs0.skip(k + 1),
                    ans.skip(k + 1),
                ));
                assert(dropped_ids_by(docs0, ans) =~= removed.deep_view() + dropped_ids_by(
                    docs0.skip(k + 1),
                    ans.skip(k + 1),
                ));
            }
            k = k + 1;
        }
        proof {
            assert(docs0.skip(n as int) =~= Seq::<DocumentV>::empty());
            assert(ans.skip(n as int) =~= Seq::<bool>::empty());
            assert(keep_by(docs0, ans) =~= kept.deep_view());
            assert(dropped_ids_by(docs0, ans) =~= removed.deep_view());
        }
        let ghost kept_view = kept.deep_view();
        self.documents = kept;
        proof {
            assert(self@ =~= kept_view);
            assert(keep_by(docs0, ans) == self@);
            assert(dropped_ids_by(docs0, ans) == removed.deep_view());
            assert(forall|i: int|
                0 <= i < ans.len() ==> covered_answer(
                    is_file_covered,
                    docs0[i].file_path,
                    #[trigger] ans[i],
                ));
        }
        removed
    }
}

/// Whether some tree of the forest holds a headline with the given id.
pub fn forest_find(hs: &Vec<OrgHeadline>, id: &str) -> (r: bool)
    ensures
        r == forest_contains_id(hs.deep_view(), id@),
{
    let n = hs.len();
    let mut i: usize = 0;
    while i < n
        invariant
            n == hs@.len(),
            0 <= i <= n,
            forall|j: int| 0 <= j < i ==> !tree_contains_id(hs.deep_view()[j], id@),
        decreases n - i,
    {
        if tree_find(&hs[i], id) {
            assert(tree_contains_id(hs.deep_view()[i as int], id@));
            return true;
        }
        proof {
            assert(hview(&hs@[i as int]) == hs.deep_view()[i as int]);
        }
        i = i + 1;
    }
    false
}

/// Whether the tree rooted at `h` holds a headline with the given id.
pub fn tree_find(h: &OrgHeadline, id: &str) -> (r: bool)
    ensures
        r == tree_contains_id(h@, id@),
    decreases *h,
{
    if crate::strutil::str_eq(h.id.as_str(), id) {
        return true;
    }
    let n: usize = h.children.len();
    let mut i: usize = 0;
    while i < n
        invariant
            n == h.children@.len(),
            0 <= i <= n,
            h.id@ != id@,
            forall|j: int| 0 <= j < i ==> !tree_contains_id(#[trigger] h@.children[j], id@),
        decreases n - i,
    {
        if tree_find(&h.children[i], id) {
            proof {
                assert(hview(&h.children@[i as int]) == h@.children[i as int]);
            }
            return true;
        }
        proof {
            assert(hview(&h.children@[i as int]) == h@.children[i as int]);
        }
        i = i + 1;
    }
    false
}

/// The last path component: everything after the final `/`.
pub open spec fn file_name_spec(p: Seq<char>) -> Seq<char> {
    p.skip(last_sep_end(p, p.len() as int))
}

/// One past the last `/` before `i`.
pub open spec fn last_sep_end(p: Seq<char>, i: int) -> int
    decreases i,
{
    if i <= 0 || i > p.len() {
        0
    } else if p[i - 1] == '/' {
        i
    } else {
        last_sep_end(p, i - 1)
    }
}

proof fn lemma_last_sep_end_at(p: Seq<char>, from: int, k: int)
    requires
        0 <= k <= from <= p.len(),
        forall|j: int| k <= j < from ==> p[j] != '/',
        k > 0 ==> p[k - 1] == '/',
    ensures
        last_sep_end(p, from) == k,
    decreases from - k,
{
    if k < from {
        lemma_last_sep_end_at(p, from - 1, k);
    }
}

/// The file name of a path: its last component.
pub fn file_name_of(p: &str) -> (r: String)
    ensures
        r@ == file_name_spec(p@),
{
    let n = p.unicode_len();
    let mut i: usize = n;
    loop
        invariant
            n == p@.len(),
            0 <= i <= n,
            forall|j: int| i <= j < n ==> p@[j] != '/',
        ensures
            0 <= i <= n,
            forall|j: int| i <= j < n ==> p@[j] != '/',
            i > 0 ==> p@[i - 1] == '/',
        decreases i,
    {
        if i == 0 {
            break ;
        }
        if p.get_char(i - 1) == '/' {
            break ;
        }
        i = i - 1;
    }
    proof {
        lemma_last_sep_end_at(p@, n as int, i as int);
    }
    let r = p.substring_char(i, n).to_owned();
    assert(r@ =~= file_name_spec(p@));
    r
}

/// The display title of a document: its title when nonempty, else its file
/// name, else `Untitled`.
pub open spec fn display_title_spec(d: DocumentV) -> Seq<char> {
    if d.title.len() > 0 {
        d.title
    } else if file_name_spec(d.file_path).len() > 0 {
        file_name_spec(d.file_path)
    } else {
        "Untitled"@
    }
}

} // verus!
