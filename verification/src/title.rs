//! A headline's parsed title line: display text, level, priority cookie,
//! tags, TODO keyword, drawer properties and planning information.

use vstd::prelude::*;
use crate::planning::{OrgPlanning, PlanningV};
use crate::props::{props_get, props_set, Properties};

verus! {

/// A parsed title line.
#[derive(Debug, Hash)]
pub struct OrgTitle {
    pub raw: String,
    pub level: usize,
    pub priority: Option<char>,
    pub tags: Vec<String>,
    pub todo_keyword: Option<String>,
    pub properties: Properties,
    pub planning: Option<Box<OrgPlanning>>,
}

/// The mathematical image of a title.
pub struct TitleV {
    pub raw: Seq<char>,
    pub level: usize,
    pub priority: Option<char>,
    pub tags: Seq<Seq<char>>,
    pub todo_keyword: Option<Seq<char>>,
    pub properties: Seq<(Seq<char>, Seq<char>)>,
    pub planning: Option<PlanningV>,
}

impl View for OrgTitle {
    type V = TitleV;

    open spec fn view(&self) -> TitleV {
        TitleV {
            raw: self.raw@,
            level: self.level,
            priority: self.priority,
            tags: self.tags.deep_view(),
            todo_keyword: self.todo_keyword.deep_view(),
            properties: self.properties@,
            planning: match &self.planning {
                Some(p) => Some(p@),
                None => None,
            },
        }
    }
}

impl DeepView for OrgTitle {
    type V = TitleV;

    open spec fn deep_view(&self) -> TitleV {
        self.view()
    }
}

impl OrgTitle {
    /// A title from its parts, with no properties and no planning block.
    pub fn new(
        raw: String,
        level: usize,
        priority: Option<char>,
        tags: Vec<String>,
        todo_keyword: Option<String>,
    ) -> (r: OrgTitle)
        ensures
            r@ == (TitleV {
                raw: raw@,
                level,
                priority,
                tags: tags.deep_view(),
                todo_keyword: todo_keyword.deep_view(),
                properties: Seq::<(Seq<char>, Seq<char>)>::empty(),
                planning: None,
            }),
    {
        let r = OrgTitle {
            raw,
            level,
            priority,
            tags,
            todo_keyword,
            properties: Properties::new(),
            planning: None,
        };
        assert(r@.properties =~= Seq::<(Seq<char>, Seq<char>)>::empty());
        r
    }

    /// A plain title: only display text and level.
    pub fn simple(raw: &str, level: usize) -> (r: OrgTitle)
        ensures
            r@ == (TitleV {
                raw: raw@,
                level,
                priority: None,
                tags: Seq::<Seq<char>>::empty(),
                todo_keyword: None,
                properties: Seq::<(Seq<char>, Seq<char>)>::empty(),
                planning: None,
            }),
    {
        let r = OrgTitle {
            raw: raw.to_owned(),
            level,
            priority: None,
            tags: Vec::new(),
            todo_keyword: None,
            properties: Properties::new(),
            planning: None,
        };
        assert(r@.tags =~= Seq::<Seq<char>>::empty());
        assert(r@.properties =~= Seq::<(Seq<char>, Seq<char>)>::empty());
        r
    }

    /// A plain title at the top level.
    pub fn simple_with_default_level(raw: &str) -> (r: OrgTitle)
        ensures
            r@ == (TitleV {
                raw: raw@,
                level: 1,
                priority: None,
                tags: Seq::<Seq<char>>::empty(),
                todo_keyword: None,
                properties: Seq::<(Seq<char>, Seq<char>)>::empty(),
                planning: None,
            }),
    {
        OrgTitle::simple(raw, 1)
    }

    /// This title with the given planning block.
    pub fn with_planning(self, planning: Box<OrgPlanning>) -> (r: OrgTitle)
        ensures
            r@ == (TitleV { planning: Some(planning@), ..self@ }),
    {
        OrgTitle { planning: Some(planning), ..self }
    }

    /// This title with its deadline set, keeping any other planning entries.
    pub fn with_deadline(self, deadline: crate::timestamp::OrgTimestamp) -> (r: OrgTitle)
        ensures
            r@.raw == self@.raw,
            r@.level == self@.level,
            r@.priority == self@.priority,
            r@.tags == self@.tags,
            r@.todo_keyword == self@.todo_keyword,
            r@.properties == self@.properties,
            r@.planning matches Some(p) && p.deadline == Some(deadline@) && p.scheduled == (
            match self@.planning {
                Some(q) => q.scheduled,
                None => None,
            }) && p.closed == (match self@.planning {
                Some(q) => q.closed,
                None => None,
            }),
    {
        let mut planning = match self.planning {
            Some(b) => b,
            None => Box::new(OrgPlanning::new()),
        };
        planning.deadline = Some(deadline);
        OrgTitle { planning: Some(planning), ..self }
    }

    /// This title with its scheduled timestamp set, keeping any other planning
    /// entries.
    pub fn with_scheduled(self, scheduled: crate::timestamp::OrgTimestamp) -> (r: OrgTitle)
        ensures
            r@.raw == self@.raw,
            r@.level == self@.level,
            r@.priority == self@.priority,
            r@.tags == self@.tags,
            r@.todo_keyword == self@.todo_keyword,
            r@.properties == self@.properties,
            r@.planning matches Some(p) && p.scheduled == Some(scheduled@) && p.deadline == (
            match self@.planning {
                Some(q) => q.deadline,
                None => None,
            }) && p.closed == (match self@.planning {
                Some(q) => q.closed,
                None => None,
            }),
    {
        let mut planning = match self.planning {
            Some(b) => b,
            None => Box::new(OrgPlanning::new()),
        };
        planning.scheduled = Some(scheduled);
        OrgTitle { planning: Some(planning), ..self }
    }

    /// This title with its closed timestamp set, keeping any other planning
    /// entries.
    pub fn with_closed(self, closed: crate::timestamp::OrgTimestamp) -> (r: OrgTitle)
        ensures
            r@.raw == self@.raw,
            r@.level == self@.level,
            r@.priority == self@.priority,
            r@.tags == self@.tags,
            r@.todo_keyword == self@.todo_keyword,
            r@.properties == self@.properties,
            r@.planning matches Some(p) && p.closed == Some(closed@) && p.deadline == (match self
                @.planning {
                Some(q) => q.deadline,
                None => None,
            }) && p.scheduled == (match self@.planning {
                Some(q) => q.scheduled,
                None => None,
            }),
    {
        let mut planning = match self.planning {
            Some(b) => b,
            None => Box::new(OrgPlanning::new()),
        };
        planning.closed = Some(closed);
        OrgTitle { planning: Some(planning), ..self }
    }

    /// The value of a drawer property, if set.
    pub fn get_property(&self, key: &str) -> (r: Option<&str>)
        ensures
            match r {
                Some(v) => props_get(self@.properties, key@) == Some(v@),
                None => props_get(self@.properties, key@) is None,
            },
    {
        self.properties.get(key)
    }

    /// Set a drawer property.
    pub fn set_property(&mut self, key: String, value: String)
        ensures
            final(self)@ == (TitleV {
                properties: props_set(old(self)@.properties, key@, value@),
                ..old(self)@
            }),
    {
        self.properties.set(key, value);
    }

    /// A copy of this title.
    pub fn copied(&self) -> (r: OrgTitle)
        ensures
            r@ == self@,
    {
        let mut tags: Vec<String> = Vec::new();
        let n = self.tags.len();
        let mut i: usize = 0;
        while i < n
            invariant
                n == self.tags.len(),
                0 <= i <= n,
                tags@.len() == i,
                forall|j: int| 0 <= j < i ==> tags@[j]@ == self.tags@[j]@,
            decreases n - i,
        {
            tags.push(self.tags[i].clone());
            i = i + 1;
        }
        assert(tags.deep_view() =~= self.tags.deep_view());
        let todo_keyword = match &self.todo_keyword {
            Some(k) => Some(k.clone()),
            None => None,
        };
        let planning = match &self.planning {
            Some(p) => Some(Box::new(p.copied())),
            None => None,
        };
        let r = OrgTitle {
            raw: self.raw.clone(),
            level: self.level,
            priority: self.priority,
            tags,
            todo_keyword,
            properties: self.properties.copied(),
            planning,
        };
        assert(r@.todo_keyword =~= self@.todo_keyword);
        r
    }
}

impl Clone for OrgTitle {
    /// Cloning keeps every part of the title.
    fn clone(&self) -> (r: OrgTitle)
        ensures
            r@ == self@,
    {
        self.copied()
    }
}

impl PartialEq for OrgTitle {
    /// Two titles are equal when their display texts are: the reference
    /// behavior compares titles by their raw text alone.
    fn eq(&self, other: &OrgTitle) -> (r: bool)
    {
        crate::strutil::str_eq(self.raw.as_str(), other.raw.as_str())
    }
}

impl vstd::std_specs::cmp::PartialEqSpecImpl for OrgTitle {
    open spec fn obeys_eq_spec() -> bool {
        true
    }

    open spec fn eq_spec(&self, other: &OrgTitle) -> bool {
        self.raw@ == other.raw@
    }
}

impl PartialEq<&str> for OrgTitle {
    /// A title equals a string when its display text does.
    fn eq(&self, other: &&str) -> (r: bool)
    {
        crate::strutil::str_eq(self.raw.as_str(), other)
    }
}

impl vstd::std_specs::cmp::PartialEqSpecImpl<&str> for OrgTitle {
    open spec fn obeys_eq_spec() -> bool {
        true
    }

    open spec fn eq_spec(&self, other: &&str) -> bool {
        self.raw@ == other@
    }
}

impl PartialEq<String> for OrgTitle {
    /// A title equals a string when its display text does.
    fn eq(&self, other: &String) -> (r: bool)
    {
        crate::strutil::str_eq(self.raw.as_str(), other.as_str())
    }
}

impl vstd::std_specs::cmp::PartialEqSpecImpl<String> for OrgTitle {
    open spec fn obeys_eq_spec() -> bool {
        true
    }

    open spec fn eq_spec(&self, other: &String) -> bool {
        self.raw@ == other@
    }
}

impl PartialEq<OrgTitle> for &str {
    /// A string equals a title when the title's display text does.
    fn eq(&self, other: &OrgTitle) -> (r: bool)
    {
        crate::strutil::str_eq(self, other.raw.as_str())
    }
}

impl vstd::std_specs::cmp::PartialEqSpecImpl<OrgTitle> for &str {
    open spec fn obeys_eq_spec() -> bool {
        true
    }

    open spec fn eq_spec(&self, other: &OrgTitle) -> bool {
        self@ == other.raw@
    }
}

impl PartialEq<OrgTitle> for String {
    /// A string equals a title when the title's display text does.
    fn eq(&self, other: &OrgTitle) -> (r: bool)
    {
        crate::strutil::str_eq(self.as_str(), other.raw.as_str())
    }
}

impl vstd::std_specs::cmp::PartialEqSpecImpl<OrgTitle> for String {
    open spec fn obeys_eq_spec() -> bool {
        true
    }

    open spec fn eq_spec(&self, other: &OrgTitle) -> bool {
        self@ == other.raw@
    }
}

} // verus!
