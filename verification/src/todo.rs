//! TODO keyword configuration: keyword sequences, their states and colors,
//! and keyword lookup.

use vstd::prelude::*;
use crate::strutil::find_from;

verus! {

/// Whether a keyword marks an open or a completed task.
#[derive(Debug, Clone, Copy, PartialEq, Eq, Structural)]
pub enum StateType {
    Active,
    Closed,
}

/// One resolved TODO keyword with its state, position and display color.
#[derive(Debug)]
pub struct TodoStatus {
    pub keyword: String,
    pub state_type: StateType,
    pub order: u32,
    pub color: Option<String>,
}

/// A named, ordered sequence of statuses.
#[derive(Debug)]
pub struct TodoSequence {
    pub name: String,
    pub statuses: Vec<TodoStatus>,
}

/// The whole keyword configuration: one or more sequences.
#[derive(Debug)]
pub struct TodoConfiguration {
    pub sequences: Vec<TodoSequence>,
    pub default_sequence: String,
}

/// The mathematical image of a status.
pub struct StatusV {
    pub keyword: Seq<char>,
    pub active: bool,
    pub order: u32,
    pub color: Option<Seq<char>>,
}

impl View for TodoStatus {
    type V = StatusV;

    open spec fn view(&self) -> StatusV {
        StatusV {
            keyword: self.keyword@,
            active: self.state_type is Active,
            order: self.order,
            color: self.color.deep_view(),
        }
    }
}

impl DeepView for TodoStatus {
    type V = StatusV;

    open spec fn deep_view(&self) -> StatusV {
        self.view()
    }
}

impl View for TodoSequence {
    type V = Seq<StatusV>;

    open spec fn view(&self) -> Seq<StatusV> {
        self.statuses@.map_values(|s: TodoStatus| s@)
    }
}

impl View for TodoConfiguration {
    type V = Seq<Seq<StatusV>>;

    open spec fn view(&self) -> Seq<Seq<StatusV>> {
        self.sequences@.map_values(|s: TodoSequence| s@)
    }
}

/// The first status in `ss` whose keyword is `k`, if any.
pub open spec fn find_in_statuses(ss: Seq<StatusV>, k: Seq<char>) -> Option<StatusV>
    decreases ss.len(),
{
    if ss.len() == 0 {
        None
    } else if ss[0].keyword == k {
        Some(ss[0])
    } else {
        find_in_statuses(ss.drop_first(), k)
    }
}

/// The first status across all sequences whose keyword is `k`, if any.
pub open spec fn find_status_spec(seqs: Seq<Seq<StatusV>>, k: Seq<char>) -> Option<StatusV>
    decreases seqs.len(),
{
    if seqs.len() == 0 {
        None
    } else {
        match find_in_statuses(seqs[0], k) {
            Some(s) => Some(s),
            None => find_status_spec(seqs.drop_first(), k),
        }
    }
}

proof fn lemma_find_in_statuses_at(ss: Seq<StatusV>, k: Seq<char>, i: int)
    requires
        0 <= i < ss.len(),
        ss[i].keyword == k,
        forall|j: int| 0 <= j < i ==> ss[j].keyword != k,
    ensures
        find_in_statuses(ss, k) == Some(ss[i]),
    decreases i,
{
    if i > 0 {
        lemma_find_in_statuses_at(ss.drop_first(), k, i - 1);
    }
}

proof fn lemma_find_in_statuses_none(ss: Seq<StatusV>, k: Seq<char>)
    requires
        forall|j: int| 0 <= j < ss.len() ==> ss[j].keyword != k,
    ensures
        find_in_statuses(ss, k) is None,
    decreases ss.len(),
{
    if ss.len() > 0 {
        lemma_find_in_statuses_none(ss.drop_first(), k);
    }
}

proof fn lemma_find_status_spec_at(seqs: Seq<Seq<StatusV>>, k: Seq<char>, i: int)
    requires
        0 <= i < seqs.len(),
        forall|j: int| 0 <= j < i ==> find_in_statuses(seqs[j], k) is None,
    ensures
        find_status_spec(seqs, k) == if find_in_statuses(seqs[i], k) is Some {
            find_in_statuses(seqs[i], k)
        } else {
            find_status_spec(seqs.subrange(i + 1, seqs.len() as int), k)
        },
    decreases i,
{
    if i == 0 {
        assert(seqs.subrange(1, seqs.len() as int) =~= seqs.drop_first());
    } else {
        lemma_find_status_spec_at(seqs.drop_first(), k, i - 1);
        assert(seqs.drop_first().subrange(i as int, seqs.drop_first().len() as int) =~= seqs
            .subrange(i + 1, seqs.len() as int));
    }
}

proof fn lemma_find_status_spec_none(seqs: Seq<Seq<StatusV>>, k: Seq<char>)
    requires
        forall|j: int| 0 <= j < seqs.len() ==> find_in_statuses(seqs[j], k) is None,
    ensures
        find_status_spec(seqs, k) is None,
    decreases seqs.len(),
{
    if seqs.len() > 0 {
        lemma_find_status_spec_none(seqs.drop_first(), k);
    }
}

impl TodoStatus {
    /// An open status is one whose state is `Active`.
    pub fn is_active(&self) -> (r: bool)
        ensures
            r == self@.active,
    {
        self.state_type == StateType::Active
    }

    /// A completed status is one whose state is `Closed`.
    pub fn is_closed(&self) -> (r: bool)
        ensures
            r == !self@.active,
    {
        self.state_type == StateType::Closed
    }

    /// The standard open status: keyword `TODO`, first in order, shown red.
    pub fn todo() -> (r: TodoStatus)
        ensures
            r@.keyword == "TODO"@,
            r@.active,
            r@.order == 0,
            r@.color == Some("#ff0000"@),
    {
        TodoStatus {
            keyword: "TODO".to_owned(),
            state_type: StateType::Active,
            order: 0,
            color: Some("#ff0000".to_owned()),
        }
    }

    /// The standard completed status: keyword `DONE`, shown green.
    pub fn done() -> (r: TodoStatus)
        ensures
            r@.keyword == "DONE"@,
            !r@.active,
            r@.order == 100,
            r@.color == Some("#00ff00"@),
    {
        TodoStatus {
            keyword: "DONE".to_owned(),
            state_type: StateType::Closed,
            order: 100,
            color: Some("#00ff00".to_owned()),
        }
    }

    /// A copy of this status.
    pub fn copied(&self) -> (r: TodoStatus)
        ensures
            r@ == self@,
    {
        let color = match &self.color {
            Some(c) => Some(c.clone()),
            None => None,
        };
        TodoStatus {
            keyword: self.keyword.clone(),
            state_type: self.state_type,
            order: self.order,
            color,
        }
    }
}

impl Clone for TodoStatus {
    /// Cloning keeps every field.
    fn clone(&self) -> (r: TodoStatus)
        ensures
            r@ == self@,
    {
        self.copied()
    }
}

/// The display color the default palette gives the `index`-th open keyword.
pub open spec fn active_color_spec(index: int) -> Seq<char> {
    if index == 0 {
        "#ff0000"@
    } else if index == 1 {
        "#ff9900"@
    } else if index == 2 {
        "#ffff00"@
    } else if index == 3 {
        "#0099ff"@
    } else if index == 4 {
        "#9966cc"@
    } else {
        "#0099ff"@
    }
}

/// The display color the default palette gives the `index`-th completed keyword.
pub open spec fn closed_color_spec(index: int) -> Seq<char> {
    if index == 0 {
        "#00ff00"@
    } else if index == 1 {
        "#999999"@
    } else {
        "#666666"@
    }
}

/// The palette color for the `index`-th open keyword.
pub fn get_color_for_active_status(index: usize) -> (r: String)
    ensures
        r@ == active_color_spec(index as int),
{
    if index == 0 {
        "#ff0000".to_owned()
    } else if index == 1 {
        "#ff9900".to_owned()
    } else if index == 2 {
        "#ffff00".to_owned()
    } else if index == 3 {
        "#0099ff".to_owned()
    } else if index == 4 {
        "#9966cc".to_owned()
    } else {
        "#0099ff".to_owned()
    }
}

/// The palette color for the `index`-th completed keyword.
pub fn get_color_for_closed_status(index: usize) -> (r: String)
    ensures
        r@ == closed_color_spec(index as int),
{
    if index == 0 {
        "#00ff00".to_owned()
    } else if index == 1 {
        "#999999".to_owned()
    } else {
        "#666666".to_owned()
    }
}

/// One sequence's statuses built from explicit keyword lists: open keywords
/// first, then completed ones, orders by position and palette colors by index.
pub open spec fn sequence_statuses_spec(aws: Seq<Seq<char>>, cws: Seq<Seq<char>>) -> Seq<StatusV> {
    Seq::new(
        aws.len() + cws.len(),
        |i: int|
            if 0 <= i < aws.len() {
                StatusV {
                    keyword: aws[i],
                    active: true,
                    order: ((i % 0x100000000) as u32),
                    color: Some(active_color_spec(i)),
                }
            } else if aws.len() <= i < aws.len() + cws.len() {
                StatusV {
                    keyword: cws[i - aws.len()],
                    active: false,
                    order: ((i % 0x100000000) as u32),
                    color: Some(closed_color_spec(i - aws.len())),
                }
            } else {
                arbitrary()
            },
    )
}

/// The single-sequence configuration built from explicit keyword lists.
pub open spec fn keywords_config_spec(aws: Seq<Seq<char>>, cws: Seq<Seq<char>>) -> Seq<
    Seq<StatusV>,
> {
    seq![sequence_statuses_spec(aws, cws)]
}

/// The statuses declared by one `#+TODO:` value: the value splits at its first
/// `|` into the open and the completed keyword segment — a value without one
/// declares open keywords only — and each segment's whitespace-separated
/// tokens, parenthesized shortcuts stripped, become keywords in order.
pub open spec fn line_statuses_spec(v: Seq<char>) -> Seq<StatusV> {
    let p = find_from(v, '|', 0);
    if p < v.len() {
        sequence_statuses_spec(
            crate::orgline::segment_keywords(v.subrange(0, p)),
            crate::orgline::segment_keywords(v.subrange(p + 1, v.len() as int)),
        )
    } else {
        sequence_statuses_spec(crate::orgline::segment_keywords(v), Seq::empty())
    }
}

/// The configuration declared by a list of `#+TODO:` values: one sequence per
/// declaration line, in order.
pub open spec fn org_config_spec(values: Seq<Seq<char>>) -> Seq<Seq<StatusV>> {
    Seq::new(
        values.len(),
        |i: int|
            if 0 <= i < values.len() {
                line_statuses_spec(values[i])
            } else {
                arbitrary()
            },
    )
}

/// The statuses of the default configuration, in order: TODO, IN-PROGRESS and
/// WAITING open; DONE and CANCELLED closed.
pub open spec fn default_statuses_spec() -> Seq<StatusV> {
    seq![
        StatusV { keyword: "TODO"@, active: true, order: 0, color: Some("#ff0000"@) },
        StatusV { keyword: "IN-PROGRESS"@, active: true, order: 10, color: Some("#ff9900"@) },
        StatusV { keyword: "WAITING"@, active: true, order: 20, color: Some("#ffff00"@) },
        StatusV { keyword: "DONE"@, active: false, order: 100, color: Some("#00ff00"@) },
        StatusV { keyword: "CANCELLED"@, active: false, order: 110, color: Some("#999999"@) },
    ]
}

/// One sequence's statuses from explicit keyword lists: open keywords first,
/// then completed ones, orders by position and palette colors by index.
fn statuses_from(active: &Vec<String>, closed: &Vec<String>) -> (r: Vec<TodoStatus>)
    ensures
        r.deep_view() == sequence_statuses_spec(active.deep_view(), closed.deep_view()),
{
    let mut statuses: Vec<TodoStatus> = Vec::new();
    let na = active.len();
    let nc = closed.len();
    let mut i: usize = 0;
    while i < na
        invariant
            na == active@.len(),
            0 <= i <= na,
            statuses@.len() == i,
            forall|j: int|
                0 <= j < i ==> statuses@[j]@ == (StatusV {
                    keyword: active@[j]@,
                    active: true,
                    order: ((j % 0x100000000) as u32),
                    color: Some(active_color_spec(j)),
                }),
        decreases na - i,
    {
        let order = ((i as u128) % 0x100000000) as u32;
        statuses.push(
            TodoStatus {
                keyword: active[i].clone(),
                state_type: StateType::Active,
                order,
                color: Some(get_color_for_active_status(i)),
            },
        );
        i = i + 1;
    }
    let mut k: usize = 0;
    while k < nc
        invariant
            na == active@.len(),
            nc == closed@.len(),
            0 <= k <= nc,
            statuses@.len() == na + k,
            forall|j: int|
                0 <= j < na ==> statuses@[j]@ == (StatusV {
                    keyword: active@[j]@,
                    active: true,
                    order: ((j % 0x100000000) as u32),
                    color: Some(active_color_spec(j)),
                }),
            forall|j: int|
                0 <= j < k ==> statuses@[na + j]@ == (StatusV {
                    keyword: closed@[j]@,
                    active: false,
                    order: (((na + j) % 0x100000000) as u32),
                    color: Some(closed_color_spec(j)),
                }),
        decreases nc - k,
    {
        let order = ((na as u128 + k as u128) % 0x100000000) as u32;
        statuses.push(
            TodoStatus {
                keyword: closed[k].clone(),
                state_type: StateType::Closed,
                order,
                color: Some(get_color_for_closed_status(k)),
            },
        );
        k = k + 1;
    }
    assert(statuses.deep_view() =~= sequence_statuses_spec(
        active.deep_view(),
        closed.deep_view(),
    ));
    statuses
}

impl TodoConfiguration {
    /// The default configuration: one sequence named `default` holding the
    /// default statuses.
    pub fn default() -> (r: TodoConfiguration)
        ensures
            r@.len() == 1,
            r@[0] == default_statuses_spec(),
            r.default_sequence@ == "default"@,
            r.sequences@[0].name@ == "default"@,
    {
        let mut statuses: Vec<TodoStatus> = Vec::new();
        statuses.push(
            TodoStatus {
                keyword: "TODO".to_owned(),
                state_type: StateType::Active,
                order: 0,
                color: Some("#ff0000".to_owned()),
            },
        );
        statuses.push(
            TodoStatus {
                keyword: "IN-PROGRESS".to_owned(),
                state_type: StateType::Active,
                order: 10,
                color: Some("#ff9900".to_owned()),
            },
        );
        statuses.push(
            TodoStatus {
                keyword: "WAITING".to_owned(),
                state_type: StateType::Active,
                order: 20,
                color: Some("#ffff00".to_owned()),
            },
        );
        statuses.push(
            TodoStatus {
                keyword: "DONE".to_owned(),
                state_type: StateType::Closed,
                order: 100,
                color: Some("#00ff00".to_owned()),
            },
        );
        statuses.push(
            TodoStatus {
                keyword: "CANCELLED".to_owned(),
                state_type: StateType::Closed,
                order: 110,
                color: Some("#999999".to_owned()),
            },
        );
        let sequence = TodoSequence { name: "default".to_owned(), statuses };
        let mut sequences: Vec<TodoSequence> = Vec::new();
        assert(sequence@ =~= default_statuses_spec());
        sequences.push(sequence);
        let r = TodoConfiguration { sequences, default_sequence: "default".to_owned() };
        assert(r@ =~= seq![default_statuses_spec()]);
        r
    }

    /// The first status across all sequences matching `keyword`, or none.
    pub fn find_status(&self, keyword: &str) -> (r: Option<&TodoStatus>)
        ensures
            match r {
                Some(s) => find_status_spec(self@, keyword@) == Some(s@),
                None => find_status_spec(self@, keyword@) is None,
            },
    {
        let nseq = self.sequences.len();
        let mut si: usize = 0;
        while si < nseq
            invariant
                nseq == self.sequences.len(),
                0 <= si <= nseq,
                forall|j: int| 0 <= j < si ==> find_in_statuses(self@[j], keyword@) is None,
            decreases nseq - si,
        {
            let seq_ref = &self.sequences[si];
            let nst = seq_ref.statuses.len();
            let mut ti: usize = 0;
            while ti < nst
                invariant
                    nseq == self.sequences.len(),
                    0 <= si < nseq,
                    seq_ref == &self.sequences[si as int],
                    nst == seq_ref.statuses.len(),
                    0 <= ti <= nst,
                    forall|j: int| 0 <= j < si ==> find_in_statuses(self@[j], keyword@) is None,
                    forall|j: int| 0 <= j < ti ==> seq_ref@[j].keyword != keyword@,
                decreases nst - ti,
            {
                if crate::strutil::str_eq(seq_ref.statuses[ti].keyword.as_str(), keyword) {
                    proof {
                        lemma_find_in_statuses_at(seq_ref@, keyword@, ti as int);
                        lemma_find_status_spec_at(self@, keyword@, si as int);
                        assert(self@[si as int] == seq_ref@);
                    }
                    return Some(&self.sequences[si].statuses[ti]);
                }
                ti = ti + 1;
            }
            proof {
                lemma_find_in_statuses_none(seq_ref@, keyword@);
                assert(self@[si as int] == seq_ref@);
            }
            si = si + 1;
        }
        proof {
            lemma_find_status_spec_none(self@, keyword@);
        }
        None
    }

    /// Build a configuration from in-file `#+TODO:` declaration values: one
    /// sequence per line, its value split at the first `|` into open and
    /// completed keywords, shortcut suffixes stripped; without declarations
    /// the default configuration stands.
    pub fn from_org_config(config_lines: &Vec<String>) -> (r: TodoConfiguration)
        ensures
            config_lines@.len() == 0 ==> r@ == seq![default_statuses_spec()],
            config_lines@.len() > 0 ==> r@ == org_config_spec(config_lines.deep_view()),
            r.default_sequence@ == "default"@,
    {
        let n = config_lines.len();
        if n == 0 {
            return TodoConfiguration::default();
        }
        let mut sequences: Vec<TodoSequence> = Vec::new();
        let mut i: usize = 0;
        while i < n
            invariant
                n == config_lines@.len(),
                0 <= i <= n,
                sequences@.len() == i,
                forall|j: int|
                    0 <= j < i ==> (#[trigger] sequences@[j])@ == line_statuses_spec(
                        config_lines.deep_view()[j],
                    ),
            decreases n - i,
        {
            let value = config_lines[i].as_str();
            let vlen = value.unicode_len();
            let p = crate::strutil::find_char_from(value, '|', 0);
            proof {
                crate::strutil::lemma_find_from_bounds(value@, '|', 0);
            }
            let statuses: Vec<TodoStatus> = if p < vlen {
                let aws = crate::orgline::segment_keywords_exec(value.substring_char(0, p));
                let cws = crate::orgline::segment_keywords_exec(value.substring_char(p + 1, vlen));
                statuses_from(&aws, &cws)
            } else {
                let aws = crate::orgline::segment_keywords_exec(value);
                let cws: Vec<String> = Vec::new();
                assert(cws.deep_view() =~= Seq::<Seq<char>>::empty());
                statuses_from(&aws, &cws)
            };
            let sequence = TodoSequence { name: "default".to_owned(), statuses };
            proof {
                assert(value@.subrange(0, value@.len() as int) =~= value@);
                assert(sequence@ =~= line_statuses_spec(config_lines.deep_view()[i as int]));
            }
            sequences.push(sequence);
            i = i + 1;
        }
        let r = TodoConfiguration { sequences, default_sequence: "default".to_owned() };
        assert(r@ =~= org_config_spec(config_lines.deep_view()));
        r
    }

    /// Build a single-sequence configuration from explicit open and completed
    /// keyword lists, assigning palette colors by position.
    pub fn from_keywords(active: &Vec<String>, closed: &Vec<String>) -> (r: TodoConfiguration)
        ensures
            r@ == keywords_config_spec(active.deep_view(), closed.deep_view()),
            r.default_sequence@ == "default"@,
    {
        let statuses = statuses_from(active, closed);
        let sequence = TodoSequence { name: "default".to_owned(), statuses };
        let mut sequences: Vec<TodoSequence> = Vec::new();
        sequences.push(sequence);
        let r = TodoConfiguration { sequences, default_sequence: "default".to_owned() };
        assert(r@ =~= seq![r.sequences@[0]@]);
        assert(r.sequences@[0]@ =~= keywords_config_spec(active.deep_view(), closed.deep_view())[0]);
        assert(r@ =~= keywords_config_spec(active.deep_view(), closed.deep_view()));
        r
    }

    /// A copy of this configuration.
    pub fn copied(&self) -> (r: TodoConfiguration)
        ensures
            r@ == self@,
            r.default_sequence@ == self.default_sequence@,
    {
        let mut sequences: Vec<TodoSequence> = Vec::new();
        let n = self.sequences.len();
        let mut i: usize = 0;
        while i < n
            invariant
                n == self.sequences.len(),
                0 <= i <= n,
                sequences@.len() == i,
                forall|j: int| 0 <= j < i ==> sequences@[j]@ == self@[j],
            decreases n - i,
        {
            let src = &self.sequences[i];
            let m = src.statuses.len();
            let mut statuses: Vec<TodoStatus> = Vec::new();
            let mut k: usize = 0;
            while k < m
                invariant
                    n == self.sequences.len(),
                    0 <= i < n,
                    src == &self.sequences[i as int],
                    m == src.statuses.len(),
                    0 <= k <= m,
                    statuses@.len() == k,
                    forall|j: int| 0 <= j < k ==> statuses@[j]@ == src@[j],
                decreases m - k,
            {
                statuses.push(src.statuses[k].copied());
                k = k + 1;
            }
            let copy = TodoSequence { name: src.name.clone(), statuses };
            assert(copy@ =~= src@);
            sequences.push(copy);
            i = i + 1;
        }
        let r = TodoConfiguration { sequences, default_sequence: self.default_sequence.clone() };
        assert(r@ =~= self@);
        r
    }
}

impl Clone for TodoConfiguration {
    /// Cloning keeps every sequence and status.
    fn clone(&self) -> (r: TodoConfiguration)
        ensures
            r@ == self@,
            r.default_sequence@ == self.default_sequence@,
    {
        self.copied()
    }
}

} // verus!
