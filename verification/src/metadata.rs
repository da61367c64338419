//! The tag and category index: occurrence counts and owner lists across all
//! registered documents. Derivable from the repository at any time; kept as an
//! explicitly constructed service rather than hidden global state.

use vstd::prelude::*;
use vstd::seq_lib::group_to_multiset_ensures;
use crate::document::{DocumentV, OrgDocument};
use crate::headline::{hview, HeadlineV, OrgHeadline};
use crate::props::props_get;
use crate::settings::{clone_strings, contains_word};
use crate::strutil::has_prefix;

verus! {

/// Where one tag occurs.
#[derive(Debug)]
pub struct TagInfo {
    pub name: String,
    pub count: usize,
    pub documents: Vec<String>,
    pub headlines: Vec<String>,
}

/// Where one category occurs.
#[derive(Debug)]
pub struct CategoryInfo {
    pub name: String,
    pub count: usize,
    pub documents: Vec<String>,
    pub headlines: Vec<String>,
}

/// The mathematical image of a tag or category entry.
pub struct EntryV {
    pub name: Seq<char>,
    pub count: usize,
    pub documents: Seq<Seq<char>>,
    pub headlines: Seq<Seq<char>>,
}

impl View for TagInfo {
    type V = EntryV;

    open spec fn view(&self) -> EntryV {
        EntryV {
            name: self.name@,
            count: self.count,
            documents: self.documents.deep_view(),
            headlines: self.headlines.deep_view(),
        }
    }
}

impl DeepView for TagInfo {
    type V = EntryV;

    open spec fn deep_view(&self) -> EntryV {
        self.view()
    }
}

impl View for CategoryInfo {
    type V = EntryV;

    open spec fn view(&self) -> EntryV {
        EntryV {
            name: self.name@,
            count: self.count,
            documents: self.documents.deep_view(),
            headlines: self.headlines.deep_view(),
        }
    }
}

impl DeepView for CategoryInfo {
    type V = EntryV;

    open spec fn deep_view(&self) -> EntryV {
        self.view()
    }
}

/// The index: tag entries and category entries, in first-seen order.
#[derive(Debug)]
pub struct GlobalMetadata {
    pub tags: Vec<TagInfo>,
    pub categories: Vec<CategoryInfo>,
    pub last_updated: String,
}

/// The mathematical image of the index; the update stamp is not part of it.
pub struct MetaV {
    pub tags: Seq<EntryV>,
    pub categories: Seq<EntryV>,
}

impl View for GlobalMetadata {
    type V = MetaV;

    open spec fn view(&self) -> MetaV {
        MetaV { tags: self.tags.deep_view(), categories: self.categories.deep_view() }
    }
}

/// A count one higher, held at the machine's ceiling.
pub open spec fn bump(c: usize) -> usize {
    if c < usize::MAX {
        (c + 1) as usize
    } else {
        c
    }
}

/// A list with `x` appended unless already present.
pub open spec fn dedup_push(list: Seq<Seq<char>>, x: Seq<char>) -> Seq<Seq<char>> {
    if contains_word(list, x) {
        list
    } else {
        list.push(x)
    }
}

/// Index of the first entry named `name`, or the length.
pub open spec fn entry_index_of(es: Seq<EntryV>, name: Seq<char>) -> int
    decreases es.len(),
{
    if es.len() == 0 {
        0
    } else if es[0].name == name {
        0
    } else {
        1 + entry_index_of(es.drop_first(), name)
    }
}

pub proof fn lemma_entry_index_of_bounds(es: Seq<EntryV>, name: Seq<char>)
    ensures
        0 <= entry_index_of(es, name) <= es.len(),
        entry_index_of(es, name) < es.len() ==> es[entry_index_of(es, name)].name == name,
        forall|j: int| 0 <= j < entry_index_of(es, name) ==> es[j].name != name,
    decreases es.len(),
{
    if es.len() > 0 && es[0].name != name {
        lemma_entry_index_of_bounds(es.drop_first(), name);
        assert(forall|j: int|
            1 <= j < entry_index_of(es, name) ==> es[j] == es.drop_first()[j - 1]);
    }
}

pub proof fn lemma_entry_index_of_at(es: Seq<EntryV>, name: Seq<char>, i: int)
    requires
        0 <= i < es.len(),
        es[i].name == name,
        forall|j: int| 0 <= j < i ==> es[j].name != name,
    ensures
        entry_index_of(es, name) == i,
    decreases i,
{
    if i > 0 {
        lemma_entry_index_of_at(es.drop_first(), name, i - 1);
    }
}

/// Register one occurrence: the entry's count rises, and the owning document
/// and headline ids join its lists if new; an unseen name opens a fresh entry.
pub open spec fn register_model(
    es: Seq<EntryV>,
    name: Seq<char>,
    doc: Seq<char>,
    hl: Option<Seq<char>>,
) -> Seq<EntryV> {
    let i = entry_index_of(es, name);
    let hl_of = |list: Seq<Seq<char>>|
        match hl {
            Some(h) => dedup_push(list, h),
            None => list,
        };
    if i < es.len() {
        es.update(
            i,
            EntryV {
                name,
                count: bump(es[i].count),
                documents: dedup_push(es[i].documents, doc),
                headlines: hl_of(es[i].headlines),
            },
        )
    } else {
        es.push(
            EntryV {
                name,
                count: 1,
                documents: seq![doc],
                headlines: match hl {
                    Some(h) => seq![h],
                    None => Seq::empty(),
                },
            },
        )
    }
}

/// Push `x` into the list unless it is already there.
fn dedup_push_exec(list: &mut Vec<String>, x: &str)
    ensures
        final(list).deep_view() == dedup_push(old(list).deep_view(), x@),
{
    let ghost l0 = list.deep_view();
    let n = list.len();
    let mut i: usize = 0;
    while i < n
        invariant
            n == list@.len(),
            *list == *old(list),
            list.deep_view() == l0,
            0 <= i <= n,
            forall|j: int| 0 <= j < i ==> l0[j] != x@,
        decreases n - i,
    {
        if crate::strutil::str_eq(list[i].as_str(), x) {
            assert(l0[i as int] == x@);
            return ;
        }
        i = i + 1;
    }
    list.push(x.to_owned());
    proof {
        assert(final(list).deep_view() =~= l0.push(x@));
    }
}

impl GlobalMetadata {
    /// An empty index.
    pub fn new() -> (r: GlobalMetadata)
        ensures
            r@.tags == Seq::<EntryV>::empty(),
            r@.categories == Seq::<EntryV>::empty(),
    {
        let r = GlobalMetadata {
            tags: Vec::new(),
            categories: Vec::new(),
            last_updated: crate::parser::now_rfc3339(),
        };
        assert(r@.tags =~= Seq::<EntryV>::empty());
        assert(r@.categories =~= Seq::<EntryV>::empty());
        r
    }

    /// Register one tag occurrence on a headline.
    pub fn register_tag(&mut self, tag: &str, document_id: &str, headline_id: &str)
        ensures
            final(self)@.tags == register_model(
                old(self)@.tags,
                tag@,
                document_id@,
                Some(headline_id@),
            ),
            final(self)@.categories == old(self)@.categories,
    {
        let ghost ts0 = self@.tags;
        let n = self.tags.len();
        let mut i: usize = 0;
        while i < n
            invariant
                n == self.tags@.len(),
                *self == *old(self),
                self@.tags == ts0,
                ts0 == old(self)@.tags,
                0 <= i <= n,
                forall|j: int| 0 <= j < i ==> ts0[j].name != tag@,
            decreases n - i,
        {
            if crate::strutil::str_eq(self.tags[i].name.as_str(), tag) {
                proof {
                    lemma_entry_index_of_at(ts0, tag@, i as int);
                }
                let mut entry = self.tags.remove(i);
                if entry.count < usize::MAX {
                    entry.count = entry.count + 1;
                }
                dedup_push_exec(&mut entry.documents, document_id);
                dedup_push_exec(&mut entry.headlines, headline_id);
                self.tags.insert(i, entry);
                proof {
                    assert(self@.tags =~= register_model(
                        ts0,
                        tag@,
                        document_id@,
                        Some(headline_id@),
                    ));
                }
                self.last_updated = crate::parser::now_rfc3339();
                return ;
            }
            i = i + 1;
        }
        proof {
            lemma_entry_index_of_bounds(ts0, tag@);
        }
        let mut documents: Vec<String> = Vec::new();
        documents.push(document_id.to_owned());
        let mut headlines: Vec<String> = Vec::new();
        headlines.push(headline_id.to_owned());
        let entry = TagInfo { name: tag.to_owned(), count: 1, documents, headlines };
        proof {
            assert(entry@.documents =~= seq![document_id@]);
            assert(entry@.headlines =~= seq![headline_id@]);
        }
        self.tags.push(entry);
        proof {
            assert(self@.tags =~= register_model(ts0, tag@, document_id@, Some(headline_id@)));
        }
        self.last_updated = crate::parser::now_rfc3339();
    }

    /// Register one category occurrence, on a headline or on the document
    /// itself.
    pub fn register_category(&mut self, category: &str, document_id: &str, headline_id: Option<
        &str,
    >)
        ensures
            final(self)@.categories == register_model(
                old(self)@.categories,
                category@,
                document_id@,
                match headline_id {
                    Some(h) => Some(h@),
                    None => None,
                },
            ),
            final(self)@.tags == old(self)@.tags,
    {
        let ghost cs0 = self@.categories;
        let ghost hlv: Option<Seq<char>> = match headline_id {
            Some(h) => Some(h@),
            None => None,
        };
        let n = self.categories.len();
        let mut i: usize = 0;
        while i < n
            invariant
                n == self.categories@.len(),
                *self == *old(self),
                self@.categories == cs0,
                cs0 == old(self)@.categories,
                hlv == (match headline_id {
                    Some(h) => Some(h@),
                    None => None::<Seq<char>>,
                }),
                0 <= i <= n,
                forall|j: int| 0 <= j < i ==> cs0[j].name != category@,
            decreases n - i,
        {
            if crate::strutil::str_eq(self.categories[i].name.as_str(), category) {
                proof {
                    lemma_entry_index_of_at(cs0, category@, i as int);
                }
                let mut entry = self.categories.remove(i);
                if entry.count < usize::MAX {
                    entry.count = entry.count + 1;
                }
                dedup_push_exec(&mut entry.documents, document_id);
                match headline_id {
                    Some(h) => {
                        dedup_push_exec(&mut entry.headlines, h);
                    },
                    None => {},
                }
                self.categories.insert(i, entry);
                proof {
                    assert(self@.categories =~= register_model(cs0, category@, document_id@, hlv));
                }
                self.last_updated = crate::parser::now_rfc3339();
                return ;
            }
            i = i + 1;
        }
        proof {
            lemma_entry_index_of_bounds(cs0, category@);
        }
        let mut documents: Vec<String> = Vec::new();
        documents.push(document_id.to_owned());
        let mut headlines: Vec<String> = Vec::new();
        match headline_id {
            Some(h) => {
                headlines.push(h.to_owned());
            },
            None => {},
        }
        let entry = CategoryInfo { name: category.to_owned(), count: 1, documents, headlines };
        proof {
            assert(entry@.documents =~= seq![document_id@]);
            match hlv {
                Some(h) => {
                    assert(entry@.headlines =~= seq![h]);
                },
                None => {
                    assert(entry@.headlines =~= Seq::<Seq<char>>::empty());
                },
            }
        }
        self.categories.push(entry);
        proof {
            assert(self@.categories =~= register_model(cs0, category@, document_id@, hlv));
        }
        self.last_updated = crate::parser::now_rfc3339();
    }

    /// The tag entries, most frequent first.
    pub fn get_tags_by_count(&self) -> (r: Vec<&TagInfo>)
        ensures
            r.deep_view().to_multiset() == self@.tags.to_multiset(),
            sorted_desc(r.deep_view()),
    {
        let n = self.tags.len();
        let mut out: Vec<&TagInfo> = Vec::new();
        let mut i: usize = 0;
        proof {
            broadcast use group_to_multiset_ensures;

            assert(out.deep_view().to_multiset() =~= self@.tags.subrange(0, 0).to_multiset())
                by {
                assert(out.deep_view() =~= self@.tags.subrange(0, 0));
            };
        }
        while i < n
            invariant
                n == self.tags@.len(),
                0 <= i <= n,
                out.deep_view().to_multiset() == self@.tags.subrange(0, i as int).to_multiset(),
                sorted_desc(out.deep_view()),
                out@.len() == i,
            decreases n - i,
        {
            let x = &self.tags[i];
            let m = out.len();
            let mut p: usize = 0;
            while p < m && out[p].count >= x.count
                invariant
                    m == out@.len(),
                    0 <= p <= m,
                    forall|j: int| 0 <= j < p ==> out.deep_view()[j].count >= x@.count,
                decreases m - p,
            {
                p = p + 1;
            }
            let ghost before = out.deep_view();
            out.insert(p, x);
            proof {
                broadcast use group_to_multiset_ensures;

                assert(out.deep_view() =~= before.insert(p as int, x@));
                lemma_insert_to_multiset(before, p as int, x@);
                assert(self@.tags.subrange(0, i + 1).drop_last() =~= self@.tags.subrange(
                    0,
                    i as int,
                ));
                assert(self@.tags.subrange(0, i + 1) =~= self@.tags.subrange(0, i as int).push(
                    self@.tags[i as int],
                ));
                assert(hview_entry(&self.tags@[i as int]) == self@.tags[i as int]);
                lemma_sorted_insert(before, p as int, x@);
            }
            i = i + 1;
        }
        proof {
            assert(self@.tags.subrange(0, n as int) =~= self@.tags);
        }
        out
    }

    /// The category entries, most frequent first.
    pub fn get_categories_by_count(&self) -> (r: Vec<&CategoryInfo>)
        ensures
            r.deep_view().to_multiset() == self@.categories.to_multiset(),
            sorted_desc(r.deep_view()),
    {
        let n = self.categories.len();
        let mut out: Vec<&CategoryInfo> = Vec::new();
        let mut i: usize = 0;
        proof {
            broadcast use group_to_multiset_ensures;

            assert(out.deep_view().to_multiset() =~= self@.categories.subrange(
                0,
                0,
            ).to_multiset()) by {
                assert(out.deep_view() =~= self@.categories.subrange(0, 0));
            };
        }
        while i < n
            invariant
                n == self.categories@.len(),
                0 <= i <= n,
                out.deep_view().to_multiset() == self@.categories.subrange(
                    0,
                    i as int,
                ).to_multiset(),
                sorted_desc(out.deep_view()),
                out@.len() == i,
            decreases n - i,
        {
            let x = &self.categories[i];
            let m = out.len();
            let mut p: usize = 0;
            while p < m && out[p].count >= x.count
                invariant
                    m == out@.len(),
                    0 <= p <= m,
                    forall|j: int| 0 <= j < p ==> out.deep_view()[j].count >= x@.count,
                decreases m - p,
            {
                p = p + 1;
            }
            let ghost before = out.deep_view();
            out.insert(p, x);
            proof {
                broadcast use group_to_multiset_ensures;

                assert(out.deep_view() =~= before.insert(p as int, x@));
                lemma_insert_to_multiset(before, p as int, x@);
                assert(self@.categories.subrange(0, i + 1) =~= self@.categories.subrange(
                    0,
                    i as int,
                ).push(self@.categories[i as int]));
                lemma_sorted_insert(before, p as int, x@);
            }
            i = i + 1;
        }
        proof {
            assert(self@.categories.subrange(0, n as int) =~= self@.categories);
        }
        out
    }

    /// The headline ids that carry the tag; an unknown tag has none.
    pub fn find_headlines_with_tag(&self, tag: &str) -> (r: Vec<String>)
        ensures
            r.deep_view() == {
                let i = entry_index_of(self@.tags, tag@);
                if i < self@.tags.len() {
                    self@.tags[i].headlines
                } else {
                    Seq::<Seq<char>>::empty()
                }
            },
    {
        let n = self.tags.len();
        let mut i: usize = 0;
        while i < n
            invariant
                n == self.tags@.len(),
                0 <= i <= n,
                forall|j: int| 0 <= j < i ==> self@.tags[j].name != tag@,
            decreases n - i,
        {
            if crate::strutil::str_eq(self.tags[i].name.as_str(), tag) {
                proof {
                    lemma_entry_index_of_at(self@.tags, tag@, i as int);
                }
                return clone_strings(&self.tags[i].headlines);
            }
            i = i + 1;
        }
        proof {
            lemma_entry_index_of_bounds(self@.tags, tag@);
        }
        let r: Vec<String> = Vec::new();
        assert(r.deep_view() =~= Seq::<Seq<char>>::empty());
        r
    }

    /// The headline ids that carry the category; an unknown category has none.
    pub fn find_headlines_with_category(&self, category: &str) -> (r: Vec<String>)
        ensures
            r.deep_view() == {
                let i = entry_index_of(self@.categories, category@);
                if i < self@.categories.len() {
                    self@.categories[i].headlines
                } else {
                    Seq::<Seq<char>>::empty()
                }
            },
    {
        let n = self.categories.len();
        let mut i: usize = 0;
        while i < n
            invariant
                n == self.categories@.len(),
                0 <= i <= n,
                forall|j: int| 0 <= j < i ==> self@.categories[j].name != category@,
            decreases n - i,
        {
            if crate::strutil::str_eq(self.categories[i].name.as_str(), category) {
                proof {
                    lemma_entry_index_of_at(self@.categories, category@, i as int);
                }
                return clone_strings(&self.categories[i].headlines);
            }
            i = i + 1;
        }
        proof {
            lemma_entry_index_of_bounds(self@.categories, category@);
        }
        let r: Vec<String> = Vec::new();
        assert(r.deep_view() =~= Seq::<Seq<char>>::empty());
        r
    }
}

/// The image of one stored entry.
pub open spec fn hview_entry(t: &TagInfo) -> EntryV {
    t@
}

/// Entries in non-increasing count order.
pub open spec fn sorted_desc(es: Seq<EntryV>) -> bool {
    forall|a: int, b: int| 0 <= a < b < es.len() ==> es[a].count >= es[b].count
}

/// Inserting at a position adds one occurrence to the multiset.
proof fn lemma_insert_to_multiset(s: Seq<EntryV>, p: int, x: EntryV)
    requires
        0 <= p <= s.len(),
    ensures
        s.insert(p, x).to_multiset() == s.to_multiset().insert(x),
{
    broadcast use group_to_multiset_ensures;

    let t = s.insert(p, x);
    assert(t.remove(p) =~= s);
    assert(t.remove(p).to_multiset() == t.to_multiset().remove(t[p]));
    assert(t[p] == x);
    assert(t.contains(x)) by {
        assert(t[p] == x);
    };
    assert(t.to_multiset().count(x) > 0);
    assert(t.to_multiset() =~= s.to_multiset().insert(x)) by {
        assert(forall|y: EntryV|
            #[trigger] t.to_multiset().count(y) == s.to_multiset().insert(x).count(y)) by {
            assert(forall|y: EntryV|
                #[trigger] s.to_multiset().count(y) == t.to_multiset().remove(x).count(y));
        };
    };
}

/// Inserting before the first smaller count keeps the order sorted.
proof fn lemma_sorted_insert(s: Seq<EntryV>, p: int, x: EntryV)
    requires
        0 <= p <= s.len(),
        sorted_desc(s),
        forall|j: int| 0 <= j < p ==> s[j].count >= x.count,
        p < s.len() ==> s[p].count < x.count,
    ensures
        sorted_desc(s.insert(p, x)),
{
    let t = s.insert(p, x);
    assert(forall|j: int| 0 <= j < p ==> t[j] == s[j]);
    assert(t[p] == x);
    assert(forall|j: int| p < j < t.len() ==> t[j] == s[j - 1]);
    assert(forall|a: int, b: int| 0 <= a < b < t.len() ==> t[a].count >= t[b].count) by {
        assert(forall|j: int| p <= j < s.len() ==> s[j].count <= x.count) by {
            if p < s.len() {
                assert(forall|j: int| p < j < s.len() ==> s[p].count >= s[j].count);
            }
        };
    };
}

/// The keeper of the index, handed to whoever needs it.
#[derive(Debug)]
pub struct MetadataManager {
    pub metadata: GlobalMetadata,
}

/// The index after registering every tag of a list on one headline.
pub open spec fn reg_tags_model(
    es: Seq<EntryV>,
    tags: Seq<Seq<char>>,
    doc: Seq<char>,
    hl: Seq<char>,
) -> Seq<EntryV>
    decreases tags.len(),
{
    if tags.len() == 0 {
        es
    } else {
        reg_tags_model(register_model(es, tags[0], doc, Some(hl)), tags.drop_first(), doc, hl)
    }
}

/// The index after registering one headline tree: its tags, its `CATEGORY`
/// property if set, then each child in turn.
pub open spec fn reg_headline_model(m: MetaV, h: HeadlineV, doc: Seq<char>) -> MetaV
    decreases h, 0int, 0int,
{
    let m1 = MetaV { tags: reg_tags_model(m.tags, h.title.tags, doc, h.id), ..m };
    let m2 = match props_get(h.title.properties, "CATEGORY"@) {
        Some(cat) => MetaV {
            categories: register_model(m1.categories, cat, doc, Some(h.id)),
            ..m1
        },
        None => m1,
    };
    reg_headlines_model(m2, h.children, 0, doc)
}

/// The index after registering a forest of headlines, in order.
pub open spec fn reg_headlines_model(m: MetaV, hs: Seq<HeadlineV>, i: int, doc: Seq<char>) -> MetaV
    decreases hs, 1int, hs.len() - i,
{
    if i < 0 || i >= hs.len() {
        m
    } else {
        reg_headlines_model(reg_headline_model(m, hs[i], doc), hs, i + 1, doc)
    }
}

/// The index after a document's own declarations: its file tags, its category
/// when nonempty, and every `CATEGORY_`-prefixed document property's value.
pub open spec fn reg_doc_decls_model(m: MetaV, d: DocumentV) -> MetaV {
    let m1 = MetaV { tags: reg_tags_model(m.tags, d.filetags, d.id, d.id), ..m };
    let m2 = if d.category.len() > 0 {
        MetaV { categories: register_model(m1.categories, d.category, d.id, None), ..m1 }
    } else {
        m1
    };
    reg_doc_props_model(m2, d.properties, 0, d.id)
}

/// The index after the `CATEGORY_`-prefixed document properties.
pub open spec fn reg_doc_props_model(
    m: MetaV,
    props: Seq<(Seq<char>, Seq<char>)>,
    i: int,
    doc: Seq<char>,
) -> MetaV
    decreases props.len() - i,
{
    if i < 0 || i >= props.len() {
        m
    } else {
        let m2 = if has_prefix(props[i].0, "CATEGORY_"@) {
            MetaV { categories: register_model(m.categories, props[i].1, doc, None), ..m }
        } else {
            m
        };
        reg_doc_props_model(m2, props, i + 1, doc)
    }
}

/// The index after registering a whole document.
pub open spec fn reg_document_model(m: MetaV, d: DocumentV) -> MetaV {
    reg_headlines_model(reg_doc_decls_model(m, d), d.headlines, 0, d.id)
}

impl MetadataManager {
    /// A manager over an empty index.
    pub fn new() -> (r: MetadataManager)
        ensures
            r.metadata@.tags == Seq::<EntryV>::empty(),
            r.metadata@.categories == Seq::<EntryV>::empty(),
    {
        MetadataManager { metadata: GlobalMetadata::new() }
    }

    /// Register a document: its file tags and category, its
    /// `CATEGORY_`-prefixed properties, and every headline's tags and
    /// `CATEGORY` property, recursively.
    pub fn register_document(&mut self, document: &OrgDocument)
        ensures
            final(self).metadata@ == reg_document_model(old(self).metadata@, document@),
    {
        let ghost m0 = self.metadata@;
        let ghost d = document@;
        let nft = document.filetags.len();
        let mut i: usize = 0;
        proof {
            assert(d.filetags.skip(0) =~= d.filetags);
        }
        while i < nft
            invariant
                nft == document.filetags@.len(),
                d == document@,
                0 <= i <= nft,
                self.metadata@.categories == m0.categories,
                reg_tags_model(m0.tags, d.filetags, d.id, d.id) == reg_tags_model(
                    self.metadata@.tags,
                    d.filetags.skip(i as int),
                    d.id,
                    d.id,
                ),
            decreases nft - i,
        {
            proof {
                assert(d.filetags.skip(i as int)[0] == d.filetags[i as int]);
                assert(d.filetags.skip(i as int).drop_first() =~= d.filetags.skip(i + 1));
            }
            self.metadata.register_tag(
                document.filetags[i].as_str(),
                document.id.as_str(),
                document.id.as_str(),
            );
            i = i + 1;
        }
        proof {
            assert(d.filetags.skip(nft as int) =~= Seq::<Seq<char>>::empty());
        }
        let ghost m1 = MetaV { tags: reg_tags_model(m0.tags, d.filetags, d.id, d.id), ..m0 };
        assert(self.metadata@ == m1);
        if document.category.as_str().unicode_len() > 0 {
            self.metadata.register_category(
                document.category.as_str(),
                document.id.as_str(),
                None,
            );
        }
        let ghost m2 = if d.category.len() > 0 {
            MetaV { categories: register_model(m1.categories, d.category, d.id, None), ..m1 }
        } else {
            m1
        };
        assert(self.metadata@ == m2);
        let np = document.properties.entries.len();
        let mut k: usize = 0;
        while k < np
            invariant
                np == document.properties.entries@.len(),
                np == d.properties.len(),
                d == document@,
                0 <= k <= np,
                reg_doc_props_model(m2, d.properties, 0, d.id) == reg_doc_props_model(
                    self.metadata@,
                    d.properties,
                    k as int,
                    d.id,
                ),
            decreases np - k,
        {
            proof {
                reveal_strlit("CATEGORY_");
            }
            if crate::strutil::starts_with(
                document.properties.entries[k].key.as_str(),
                "CATEGORY_",
            ) {
                self.metadata.register_category(
                    document.properties.entries[k].value.as_str(),
                    document.id.as_str(),
                    None,
                );
            }
            k = k + 1;
        }
        let ghost m3 = reg_doc_props_model(m2, d.properties, 0, d.id);
        assert(self.metadata@ == m3);
        assert(m3 == reg_doc_decls_model(m0, d));
        let nh = document.headlines.len();
        let mut hidx: usize = 0;
        while hidx < nh
            invariant
                nh == document.headlines@.len(),
                d == document@,
                0 <= hidx <= nh,
                reg_headlines_model(m3, d.headlines, 0, d.id) == reg_headlines_model(
                    self.metadata@,
                    d.headlines,
                    hidx as int,
                    d.id,
                ),
            decreases nh - hidx,
        {
            proof {
                assert(hview(&document.headlines@[hidx as int]) == d.headlines[hidx as int]);
            }
            register_headline(&mut self.metadata, &document.headlines[hidx], &document.id);
            hidx = hidx + 1;
        }
        assert(self.metadata@ == reg_headlines_model(m3, d.headlines, 0, d.id));
    }

    /// The tag entries, most frequent first, as copies.
    pub fn get_all_tags(&self) -> (r: Vec<TagInfo>)
        ensures
            r.deep_view().to_multiset() == self.metadata@.tags.to_multiset(),
            sorted_desc(r.deep_view()),
    {
        let sorted = self.metadata.get_tags_by_count();
        let n = sorted.len();
        let mut out: Vec<TagInfo> = Vec::new();
        let mut i: usize = 0;
        while i < n
            invariant
                n == sorted@.len(),
                0 <= i <= n,
                out@.len() == i,
                forall|j: int| 0 <= j < i ==> out.deep_view()[j] == sorted.deep_view()[j],
            decreases n - i,
        {
            let src = sorted[i];
            out.push(
                TagInfo {
                    name: src.name.clone(),
                    count: src.count,
                    documents: clone_strings(&src.documents),
                    headlines: clone_strings(&src.headlines),
                },
            );
            i = i + 1;
        }
        proof {
            assert(out.deep_view() =~= sorted.deep_view());
        }
        out
    }

    /// The category entries, most frequent first, as copies.
    pub fn get_all_categories(&self) -> (r: Vec<CategoryInfo>)
        ensures
            r.deep_view().to_multiset() == self.metadata@.categories.to_multiset(),
            sorted_desc(r.deep_view()),
    {
        let sorted = self.metadata.get_categories_by_count();
        let n = sorted.len();
        let mut out: Vec<CategoryInfo> = Vec::new();
        let mut i: usize = 0;
        while i < n
            invariant
                n == sorted@.len(),
                0 <= i <= n,
                out@.len() == i,
                forall|j: int| 0 <= j < i ==> out.deep_view()[j] == sorted.deep_view()[j],
            decreases n - i,
        {
            let src = sorted[i];
            out.push(
                CategoryInfo {
                    name: src.name.clone(),
                    count: src.count,
                    documents: clone_strings(&src.documents),
                    headlines: clone_strings(&src.headlines),
                },
            );
            i = i + 1;
        }
        proof {
            assert(out.deep_view() =~= sorted.deep_view());
        }
        out
    }

    /// The headline ids that carry the tag.
    pub fn find_headlines_with_tag(&self, tag: &str) -> (r: Vec<String>)
        ensures
            r.deep_view() == {
                let i = entry_index_of(self.metadata@.tags, tag@);
                if i < self.metadata@.tags.len() {
                    self.metadata@.tags[i].headlines
                } else {
                    Seq::<Seq<char>>::empty()
                }
            },
    {
        self.metadata.find_headlines_with_tag(tag)
    }

    /// The headline ids that carry the category.
    pub fn find_headlines_with_category(&self, category: &str) -> (r: Vec<String>)
        ensures
            r.deep_view() == {
                let i = entry_index_of(self.metadata@.categories, category@);
                if i < self.metadata@.categories.len() {
                    self.metadata@.categories[i].headlines
                } else {
                    Seq::<Seq<char>>::empty()
                }
            },
    {
        self.metadata.find_headlines_with_category(category)
    }
}

/// Register one headline tree: its tags, its `CATEGORY` property, then its
/// children.
fn register_headline(meta: &mut GlobalMetadata, h: &OrgHeadline, document_id: &String)
    ensures
        final(meta)@ == reg_headline_model(old(meta)@, h@, document_id@),
    decreases *h,
{
    let ghost m0 = meta@;
    let ghost hv = h@;
    let nt = h.title.tags.len();
    let mut i: usize = 0;
    proof {
        assert(hv.title.tags.skip(0) =~= hv.title.tags);
    }
    while i < nt
        invariant
            nt == h.title.tags@.len(),
            hv == h@,
            0 <= i <= nt,
            meta@.categories == m0.categories,
            reg_tags_model(m0.tags, hv.title.tags, document_id@, hv.id) == reg_tags_model(
                meta@.tags,
                hv.title.tags.skip(i as int),
                document_id@,
                hv.id,
            ),
        decreases nt - i,
    {
        proof {
            assert(hv.title.tags.skip(i as int)[0] == hv.title.tags[i as int]);
            assert(hv.title.tags.skip(i as int).drop_first() =~= hv.title.tags.skip(i + 1));
        }
        meta.register_tag(h.title.tags[i].as_str(), document_id.as_str(), h.id.as_str());
        i = i + 1;
    }
    proof {
        assert(hv.title.tags.skip(nt as int) =~= Seq::<Seq<char>>::empty());
    }
    let ghost m1 = MetaV {
        tags: reg_tags_model(m0.tags, hv.title.tags, document_id@, hv.id),
        ..m0
    };
    assert(meta@ == m1);
    match h.title.get_property("CATEGORY") {
        Some(cat) => {
            let cat_string = cat.to_owned();
            meta.register_category(cat_string.as_str(), document_id.as_str(), Some(h.id.as_str()));
        },
        None => {},
    }
    let ghost m2 = match props_get(hv.title.properties, "CATEGORY"@) {
        Some(cat) => MetaV {
            categories: register_model(m1.categories, cat, document_id@, Some(hv.id)),
            ..m1
        },
        None => m1,
    };
    assert(meta@ == m2);
    let nc = h.children.len();
    let mut k: usize = 0;
    while k < nc
        invariant
            nc == h.children@.len(),
            hv == h@,
            0 <= k <= nc,
            reg_headlines_model(m2, hv.children, 0, document_id@) == reg_headlines_model(
                meta@,
                hv.children,
                k as int,
                document_id@,
            ),
        decreases nc - k,
    {
        proof {
            assert(hview(&h.children@[k as int]) == hv.children[k as int]);
        }
        register_headline(meta, &h.children[k], document_id);
        k = k + 1;
    }
    assert(meta@ == reg_headlines_model(m2, hv.children, 0, document_id@));
}

} // verus!
