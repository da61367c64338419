//! Key/value properties, kept in insertion order with unique keys.

use vstd::prelude::*;

verus! {

/// One property: a key and its value.
#[derive(Debug, Hash)]
pub struct Prop {
    pub key: String,
    pub value: String,
}

/// An ordered list of properties. Keys are unique: setting an existing key
/// replaces its value in place.
#[derive(Debug, Hash)]
pub struct Properties {
    pub entries: Vec<Prop>,
}

impl View for Prop {
    type V = (Seq<char>, Seq<char>);

    open spec fn view(&self) -> (Seq<char>, Seq<char>) {
        (self.key@, self.value@)
    }
}

impl View for Properties {
    type V = Seq<(Seq<char>, Seq<char>)>;

    open spec fn view(&self) -> Seq<(Seq<char>, Seq<char>)> {
        self.entries@.map_values(|p: Prop| (p.key@, p.value@))
    }
}

/// Index of the first entry with key `k`, or the length if there is none.
pub open spec fn props_index_of(ps: Seq<(Seq<char>, Seq<char>)>, k: Seq<char>) -> int
    decreases ps.len(),
{
    if ps.len() == 0 {
        0
    } else if ps[0].0 == k {
        0
    } else {
        1 + props_index_of(ps.drop_first(), k)
    }
}

/// The value of the first entry with key `k`, if any.
pub open spec fn props_get(ps: Seq<(Seq<char>, Seq<char>)>, k: Seq<char>) -> Option<Seq<char>>
    decreases ps.len(),
{
    if ps.len() == 0 {
        None
    } else if ps[0].0 == k {
        Some(ps[0].1)
    } else {
        props_get(ps.drop_first(), k)
    }
}

/// `ps` after setting key `k` to value `v`: replaced in place if present,
/// appended otherwise.
pub open spec fn props_set(ps: Seq<(Seq<char>, Seq<char>)>, k: Seq<char>, v: Seq<char>) -> Seq<
    (Seq<char>, Seq<char>),
> {
    let i = props_index_of(ps, k);
    if i < ps.len() {
        ps.update(i, (k, v))
    } else {
        ps.push((k, v))
    }
}

pub proof fn lemma_props_index_of_bounds(ps: Seq<(Seq<char>, Seq<char>)>, k: Seq<char>)
    ensures
        0 <= props_index_of(ps, k) <= ps.len(),
        props_index_of(ps, k) < ps.len() ==> ps[props_index_of(ps, k)].0 == k,
        forall|j: int| 0 <= j < props_index_of(ps, k) ==> ps[j].0 != k,
        props_get(ps, k) == if props_index_of(ps, k) < ps.len() {
            Some(ps[props_index_of(ps, k)].1)
        } else {
            None::<Seq<char>>
        },
    decreases ps.len(),
{
    if ps.len() > 0 && ps[0].0 != k {
        lemma_props_index_of_bounds(ps.drop_first(), k);
        assert(forall|j: int|
            1 <= j < props_index_of(ps, k) ==> ps[j] == ps.drop_first()[j - 1]);
    }
}

pub proof fn lemma_props_index_at(ps: Seq<(Seq<char>, Seq<char>)>, k: Seq<char>, i: int)
    requires
        0 <= i < ps.len(),
        ps[i].0 == k,
        forall|j: int| 0 <= j < i ==> ps[j].0 != k,
    ensures
        props_index_of(ps, k) == i,
        props_get(ps, k) == Some(ps[i].1),
    decreases i,
{
    if i == 0 {
        lemma_props_index_of_bounds(ps, k);
    } else {
        lemma_props_index_at(ps.drop_first(), k, i - 1);
        lemma_props_index_of_bounds(ps, k);
    }
}

impl Properties {
    /// An empty property list.
    pub fn new() -> (r: Properties)
        ensures
            r@ == Seq::<(Seq<char>, Seq<char>)>::empty(),
    {
        let r = Properties { entries: Vec::new() };
        assert(r@ =~= Seq::<(Seq<char>, Seq<char>)>::empty());
        r
    }

    /// The number of properties.
    pub fn len(&self) -> (r: usize)
        ensures
            r == self@.len(),
    {
        self.entries.len()
    }

    /// The value stored under `key`, if any.
    pub fn get(&self, key: &str) -> (r: Option<&str>)
        ensures
            match r {
                Some(v) => props_get(self@, key@) == Some(v@),
                None => props_get(self@, key@) is None,
            },
    {
        let n = self.entries.len();
        let mut i: usize = 0;
        while i < n
            invariant
                n == self.entries.len(),
                0 <= i <= n,
                forall|j: int| 0 <= j < i ==> self@[j].0 != key@,
            decreases n - i,
        {
            if crate::strutil::str_eq(self.entries[i].key.as_str(), key) {
                proof {
                    lemma_props_index_at(self@, key@, i as int);
                }
                return Some(self.entries[i].value.as_str());
            }
            i = i + 1;
        }
        proof {
            lemma_props_index_of_bounds(self@, key@);
        }
        None
    }

    /// Whether a value is stored under `key`.
    pub fn contains_key(&self, key: &str) -> (r: bool)
        ensures
            r == (props_get(self@, key@) is Some),
    {
        match self.get(key) {
            Some(_) => true,
            None => false,
        }
    }

    /// Set `key` to `value`, replacing an existing entry in place or appending
    /// a new one.
    pub fn set(&mut self, key: String, value: String)
        ensures
            final(self)@ == props_set(old(self)@, key@, value@),
    {
        let n = self.entries.len();
        let mut i: usize = 0;
        while i < n
            invariant
                n == self.entries.len(),
                0 <= i <= n,
                *self == *old(self),
                forall|j: int| 0 <= j < i ==> self@[j].0 != key@,
            decreases n - i,
        {
            if crate::strutil::str_eq(self.entries[i].key.as_str(), key.as_str()) {
                proof {
                    lemma_props_index_at(self@, key@, i as int);
                }
                let mut entry = self.entries.remove(i);
                entry.key = key;
                entry.value = value;
                self.entries.insert(i, entry);
                assert(final(self)@ =~= props_set(old(self)@, key@, value@));
                return ;
            }
            i = i + 1;
        }
        proof {
            lemma_props_index_of_bounds(self@, key@);
        }
        self.entries.push(Prop { key, value });
        assert(final(self)@ =~= props_set(old(self)@, key@, value@));
    }

    /// A copy of this property list.
    pub fn copied(&self) -> (r: Properties)
        ensures
            r@ == self@,
    {
        let n = self.entries.len();
        let mut out: Vec<Prop> = Vec::new();
        let mut i: usize = 0;
        while i < n
            invariant
                n == self.entries.len(),
                0 <= i <= n,
                out@.len() == i,
                forall|j: int|
                    0 <= j < i ==> out@[j].key@ == self@[j].0 && out@[j].value@ == self@[j].1,
            decreases n - i,
        {
            out.push(
                Prop { key: self.entries[i].key.clone(), value: self.entries[i].value.clone() },
            );
            i = i + 1;
        }
        let r = Properties { entries: out };
        assert(r@ =~= self@);
        r
    }
}

impl Clone for Properties {
    /// Cloning keeps every entry.
    fn clone(&self) -> (r: Properties)
        ensures
            r@ == self@,
    {
        self.copied()
    }
}

} // verus!
