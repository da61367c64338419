//! User settings: monitored paths, TODO keyword lists, custom properties and
//! table column layout. Persistence lives outside; this is the data and its
//! rules.

use vstd::prelude::*;

verus! {

/// An error of the settings layer.
#[derive(Debug)]
pub enum SettingsError {
    PathNotFound(String),
    DuplicatePath(String),
    InvalidPathType(String, String),
    StoreError(String),
    SerializationError(String),
    InvalidKeyword(String),
    DuplicateKeyword(String),
    InvalidIndex(usize, usize),
}

/// What kind of filesystem object a monitored path names.
#[derive(Debug, Clone, Copy, PartialEq, Eq, Structural, Hash)]
pub enum PathType {
    File,
    Directory,
}

/// One monitored path with its kind and whether its files are parsed.
#[derive(Debug)]
pub struct MonitoredPath {
    pub path: String,
    pub path_type: PathType,
    pub parse_enabled: bool,
}

/// The mathematical image of a monitored path.
pub struct MonitoredPathV {
    pub path: Seq<char>,
    pub directory: bool,
    pub parse_enabled: bool,
}

impl View for MonitoredPath {
    type V = MonitoredPathV;

    open spec fn view(&self) -> MonitoredPathV {
        MonitoredPathV {
            path: self.path@,
            directory: self.path_type is Directory,
            parse_enabled: self.parse_enabled,
        }
    }
}

impl DeepView for MonitoredPath {
    type V = MonitoredPathV;

    open spec fn deep_view(&self) -> MonitoredPathV {
        self.view()
    }
}

impl MonitoredPath {
    /// A monitored path from its parts.
    pub fn new(path: String, path_type: PathType, parse_enabled: bool) -> (r: MonitoredPath)
        ensures
            r@ == (MonitoredPathV {
                path: path@,
                directory: path_type is Directory,
                parse_enabled,
            }),
    {
        MonitoredPath { path, path_type, parse_enabled }
    }

    /// A monitored file, parsing enabled.
    pub fn file(path: String) -> (r: MonitoredPath)
        ensures
            r@ == (MonitoredPathV { path: path@, directory: false, parse_enabled: true }),
    {
        MonitoredPath::new(path, PathType::File, true)
    }

    /// A monitored directory, parsing enabled; directories are always watched
    /// recursively.
    pub fn directory(path: String) -> (r: MonitoredPath)
        ensures
            r@ == (MonitoredPathV { path: path@, directory: true, parse_enabled: true }),
    {
        MonitoredPath::new(path, PathType::Directory, true)
    }

    /// Whether the path is watched recursively: directories always are, files
    /// never.
    pub fn is_recursive(&self) -> (r: bool)
        ensures
            r == self@.directory,
    {
        self.path_type == PathType::Directory
    }

    /// A copy of this monitored path.
    pub fn copied(&self) -> (r: MonitoredPath)
        ensures
            r@ == self@,
    {
        MonitoredPath {
            path: self.path.clone(),
            path_type: self.path_type,
            parse_enabled: self.parse_enabled,
        }
    }
}

impl Clone for MonitoredPath {
    /// Cloning keeps every field.
    fn clone(&self) -> (r: MonitoredPath)
        ensures
            r@ == self@,
    {
        self.copied()
    }
}

/// Whether `x` occurs among the views of `list`.
pub open spec fn contains_word(list: Seq<Seq<char>>, x: Seq<char>) -> bool {
    exists|i: int| 0 <= i < list.len() && list[i] == x
}

/// Whether the word occurs in the list.
fn word_in(list: &Vec<String>, x: &str) -> (r: bool)
    ensures
        r == contains_word(list.deep_view(), x@),
{
    let n = list.len();
    let mut i: usize = 0;
    while i < n
        invariant
            n == list@.len(),
            0 <= i <= n,
            forall|j: int| 0 <= j < i ==> list.deep_view()[j] != x@,
        decreases n - i,
    {
        if crate::strutil::str_eq(list[i].as_str(), x) {
            assert(list.deep_view()[i as int] == x@);
            return true;
        }
        i = i + 1;
    }
    false
}

/// The TODO keyword lists a user configures: open keywords and completed ones.
#[derive(Debug)]
pub struct TodoKeywords {
    pub active: Vec<String>,
    pub closed: Vec<String>,
}

/// The default open keyword list: TODO, IN-PROGRESS, WAITING.
pub open spec fn default_active_spec() -> Seq<Seq<char>> {
    seq!["TODO"@, "IN-PROGRESS"@, "WAITING"@]
}

/// The default completed keyword list: DONE, CANCELLED.
pub open spec fn default_closed_spec() -> Seq<Seq<char>> {
    seq!["DONE"@, "CANCELLED"@]
}

impl TodoKeywords {
    /// The default keyword lists.
    pub fn new() -> (r: TodoKeywords)
        ensures
            r.active.deep_view() == default_active_spec(),
            r.closed.deep_view() == default_closed_spec(),
    {
        let mut active: Vec<String> = Vec::new();
        active.push("TODO".to_owned());
        active.push("IN-PROGRESS".to_owned());
        active.push("WAITING".to_owned());
        let mut closed: Vec<String> = Vec::new();
        closed.push("DONE".to_owned());
        closed.push("CANCELLED".to_owned());
        assert(active.deep_view() =~= default_active_spec());
        assert(closed.deep_view() =~= default_closed_spec());
        TodoKeywords { active, closed }
    }

    /// All keywords: the open ones, then the completed ones.
    pub fn all_keywords(&self) -> (r: Vec<String>)
        ensures
            r.deep_view() == self.active.deep_view() + self.closed.deep_view(),
    {
        let mut all: Vec<String> = Vec::new();
        let na = self.active.len();
        let mut i: usize = 0;
        while i < na
            invariant
                na == self.active@.len(),
                0 <= i <= na,
                all.deep_view() =~= self.active.deep_view().subrange(0, i as int),
            decreases na - i,
        {
            let ghost before = all.deep_view();
            all.push(self.active[i].clone());
            proof {
                assert(all.deep_view() =~= before + seq![self.active.deep_view()[i as int]]);
                assert(all.deep_view() =~= self.active.deep_view().subrange(0, i + 1));
            }
            i = i + 1;
        }
        assert(self.active.deep_view().subrange(0, na as int) =~= self.active.deep_view());
        let nc = self.closed.len();
        let mut k: usize = 0;
        while k < nc
            invariant
                nc == self.closed@.len(),
                0 <= k <= nc,
                all.deep_view() =~= self.active.deep_view() + self.closed.deep_view().subrange(
                    0,
                    k as int,
                ),
            decreases nc - k,
        {
            let ghost before = all.deep_view();
            all.push(self.closed[k].clone());
            proof {
                assert(all.deep_view() =~= before + seq![self.closed.deep_view()[k as int]]);
                assert(all.deep_view() =~= self.active.deep_view()
                    + self.closed.deep_view().subrange(0, k + 1));
            }
            k = k + 1;
        }
        assert(self.closed.deep_view().subrange(0, nc as int) =~= self.closed.deep_view());
        all
    }

    /// Whether the keyword is one of the open keywords.
    pub fn is_active_keyword(&self, keyword: &str) -> (r: bool)
        ensures
            r == contains_word(self.active.deep_view(), keyword@),
    {
        word_in(&self.active, keyword)
    }

    /// Whether the keyword is one of the completed keywords.
    pub fn is_closed_keyword(&self, keyword: &str) -> (r: bool)
        ensures
            r == contains_word(self.closed.deep_view(), keyword@),
    {
        word_in(&self.closed, keyword)
    }

    /// Whether the keyword occurs in either list.
    pub fn is_valid_keyword(&self, keyword: &str) -> (r: bool)
        ensures
            r == (contains_word(self.active.deep_view(), keyword@) || contains_word(
                self.closed.deep_view(),
                keyword@,
            )),
    {
        self.is_active_keyword(keyword) || self.is_closed_keyword(keyword)
    }

    /// Append an open keyword; an empty keyword is invalid and a keyword
    /// already in either list is a duplicate.
    pub fn add_active_keyword(&mut self, keyword: String) -> (r: Result<(), SettingsError>)
        ensures
            keyword@.len() == 0 ==> (r matches Err(SettingsError::InvalidKeyword(_))
                && *final(self) == *old(self)),
            keyword@.len() > 0 && (contains_word(old(self).active.deep_view(), keyword@)
                || contains_word(old(self).closed.deep_view(), keyword@)) ==> (r matches Err(
                SettingsError::DuplicateKeyword(k),
            ) && k@ == keyword@ && *final(self) == *old(self)),
            keyword@.len() > 0 && !contains_word(old(self).active.deep_view(), keyword@)
                && !contains_word(old(self).closed.deep_view(), keyword@) ==> (r is Ok && final(self).active.deep_view() == old(self).active.deep_view().push(keyword@) && final(self).closed.deep_view() == old(self).closed.deep_view()),
    {
        if keyword.as_str().unicode_len() == 0 {
            return Err(SettingsError::InvalidKeyword("Keyword cannot be empty".to_owned()));
        }
        if word_in(&self.active, keyword.as_str()) || word_in(&self.closed, keyword.as_str()) {
            return Err(SettingsError::DuplicateKeyword(keyword));
        }
        self.active.push(keyword);
        Ok(())
    }

    /// Append a completed keyword; the same rules as for open keywords apply.
    pub fn add_closed_keyword(&mut self, keyword: String) -> (r: Result<(), SettingsError>)
        ensures
            keyword@.len() == 0 ==> (r matches Err(SettingsError::InvalidKeyword(_))
                && *final(self) == *old(self)),
            keyword@.len() > 0 && (contains_word(old(self).active.deep_view(), keyword@)
                || contains_word(old(self).closed.deep_view(), keyword@)) ==> (r matches Err(
                SettingsError::DuplicateKeyword(k),
            ) && k@ == keyword@ && *final(self) == *old(self)),
            keyword@.len() > 0 && !contains_word(old(self).active.deep_view(), keyword@)
                && !contains_word(old(self).closed.deep_view(), keyword@) ==> (r is Ok && final(self).closed.deep_view() == old(self).closed.deep_view().push(keyword@) && final(self).active.deep_view() == old(self).active.deep_view()),
    {
        if keyword.as_str().unicode_len() == 0 {
            return Err(SettingsError::InvalidKeyword("Keyword cannot be empty".to_owned()));
        }
        if word_in(&self.active, keyword.as_str()) || word_in(&self.closed, keyword.as_str()) {
            return Err(SettingsError::DuplicateKeyword(keyword));
        }
        self.closed.push(keyword);
        Ok(())
    }

    /// Remove the open keyword at `index`; an index past the list is invalid.
    pub fn remove_active_keyword(&mut self, index: usize) -> (r: Result<(), SettingsError>)
        ensures
            index >= old(self).active@.len() ==> (r matches Err(
                SettingsError::InvalidIndex(i, m),
            ) && i == index && m == old(self).active@.len() && *final(self) == *old(self)),
            index < old(self).active@.len() ==> r is Ok && final(self).active.deep_view() == old(
                self,
            ).active.deep_view().remove(index as int) && final(self).closed.deep_view() == old(
                self,
            ).closed.deep_view(),
    {
        if index >= self.active.len() {
            return Err(SettingsError::InvalidIndex(index, self.active.len()));
        }
        self.active.remove(index);
        assert(final(self).active.deep_view() =~= old(self).active.deep_view().remove(
            index as int,
        ));
        Ok(())
    }

    /// Remove the completed keyword at `index`.
    pub fn remove_closed_keyword(&mut self, index: usize) -> (r: Result<(), SettingsError>)
        ensures
            index >= old(self).closed@.len() ==> (r matches Err(
                SettingsError::InvalidIndex(i, m),
            ) && i == index && m == old(self).closed@.len() && *final(self) == *old(self)),
            index < old(self).closed@.len() ==> r is Ok && final(self).closed.deep_view() == old(
                self,
            ).closed.deep_view().remove(index as int) && final(self).active.deep_view() == old(
                self,
            ).active.deep_view(),
    {
        if index >= self.closed.len() {
            return Err(SettingsError::InvalidIndex(index, self.closed.len()));
        }
        self.closed.remove(index);
        assert(final(self).closed.deep_view() =~= old(self).closed.deep_view().remove(
            index as int,
        ));
        Ok(())
    }

    /// Replace the open keyword at `index`; the new keyword must be nonempty
    /// and must not duplicate any other keyword.
    pub fn edit_active_keyword(&mut self, index: usize, new_keyword: String) -> (r: Result<
        (),
        SettingsError,
    >)
        ensures
            r is Ok ==> (new_keyword@.len() > 0 && index < old(self).active@.len() && final(self).active.deep_view() == old(self).active.deep_view().update(
                index as int,
                new_keyword@,
            ) && final(self).closed.deep_view() == old(self).closed.deep_view()),
            r is Err ==> *final(self) == *old(self),
            new_keyword@.len() == 0 ==> r matches Err(SettingsError::InvalidKeyword(_)),
            new_keyword@.len() > 0 && index >= old(self).active@.len() ==> (r matches Err(
                SettingsError::InvalidIndex(i, m),
            ) && i == index && m == old(self).active@.len()),
            new_keyword@.len() > 0 && index < old(self).active@.len() && (contains_word(
                old(self).active.deep_view().remove(index as int),
                new_keyword@,
            ) || contains_word(old(self).closed.deep_view(), new_keyword@)) ==> (r matches Err(
                SettingsError::DuplicateKeyword(k),
            ) && k@ == new_keyword@),
            new_keyword@.len() > 0 && index < old(self).active@.len() && !contains_word(
                old(self).active.deep_view().remove(index as int),
                new_keyword@,
            ) && !contains_word(old(self).closed.deep_view(), new_keyword@) ==> r is Ok,
    {
        if new_keyword.as_str().unicode_len() == 0 {
            return Err(SettingsError::InvalidKeyword("Keyword cannot be empty".to_owned()));
        }
        if index >= self.active.len() {
            return Err(SettingsError::InvalidIndex(index, self.active.len()));
        }
        let ghost act0 = self.active.deep_view();
        let mut others = clone_strings(&self.active);
        others.remove(index);
        assert(others.deep_view() =~= act0.remove(index as int));
        if word_in(&others, new_keyword.as_str()) || word_in(
            &self.closed,
            new_keyword.as_str(),
        ) {
            return Err(SettingsError::DuplicateKeyword(new_keyword));
        }
        self.active.remove(index);
        self.active.insert(index, new_keyword);
        assert(final(self).active.deep_view() =~= act0.update(index as int, new_keyword@));
        Ok(())
    }

    /// Replace the completed keyword at `index`; the same rules apply.
    pub fn edit_closed_keyword(&mut self, index: usize, new_keyword: String) -> (r: Result<
        (),
        SettingsError,
    >)
        ensures
            r is Ok ==> (new_keyword@.len() > 0 && index < old(self).closed@.len() && final(self).closed.deep_view() == old(self).closed.deep_view().update(
                index as int,
                new_keyword@,
            ) && final(self).active.deep_view() == old(self).active.deep_view()),
            r is Err ==> *final(self) == *old(self),
            new_keyword@.len() == 0 ==> r matches Err(SettingsError::InvalidKeyword(_)),
            new_keyword@.len() > 0 && index >= old(self).closed@.len() ==> (r matches Err(
                SettingsError::InvalidIndex(i, m),
            ) && i == index && m == old(self).closed@.len()),
            new_keyword@.len() > 0 && index < old(self).closed@.len() && (contains_word(
                old(self).closed.deep_view().remove(index as int),
                new_keyword@,
            ) || contains_word(old(self).active.deep_view(), new_keyword@)) ==> (r matches Err(
                SettingsError::DuplicateKeyword(k),
            ) && k@ == new_keyword@),
            new_keyword@.len() > 0 && index < old(self).closed@.len() && !contains_word(
                old(self).closed.deep_view().remove(index as int),
                new_keyword@,
            ) && !contains_word(old(self).active.deep_view(), new_keyword@) ==> r is Ok,
    {
        if new_keyword.as_str().unicode_len() == 0 {
            return Err(SettingsError::InvalidKeyword("Keyword cannot be empty".to_owned()));
        }
        if index >= self.closed.len() {
            return Err(SettingsError::InvalidIndex(index, self.closed.len()));
        }
        let ghost cls0 = self.closed.deep_view();
        let mut others = clone_strings(&self.closed);
        others.remove(index);
        assert(others.deep_view() =~= cls0.remove(index as int));
        if word_in(&others, new_keyword.as_str()) || word_in(
            &self.active,
            new_keyword.as_str(),
        ) {
            return Err(SettingsError::DuplicateKeyword(new_keyword));
        }
        self.closed.remove(index);
        self.closed.insert(index, new_keyword);
        assert(final(self).closed.deep_view() =~= cls0.update(index as int, new_keyword@));
        Ok(())
    }

    /// Move the open keyword at `index` one place up (`direction < 0`) or down
    /// (`direction >= 0`); a move past either end changes nothing.
    pub fn move_active_keyword(&mut self, index: usize, direction: i32) -> (r: Result<
        (),
        SettingsError,
    >)
        ensures
            index >= old(self).active@.len() ==> (r matches Err(
                SettingsError::InvalidIndex(i, m),
            ) && i == index && m == old(self).active@.len() && *final(self) == *old(self)),
            index < old(self).active@.len() ==> r is Ok && final(self).closed.deep_view() == old(
                self,
            ).closed.deep_view() && final(self).active.deep_view() == moved_spec(
                old(self).active.deep_view(),
                index as int,
                direction < 0,
            ),
    {
        if index >= self.active.len() {
            return Err(SettingsError::InvalidIndex(index, self.active.len()));
        }
        let ghost act0 = self.active.deep_view();
        if direction < 0 {
            if index == 0 {
                assert(final(self).active.deep_view() =~= moved_spec(act0, index as int, true));
                return Ok(());
            }
            let a = self.active.remove(index);
            self.active.insert(index - 1, a);
            assert(final(self).active.deep_view() =~= moved_spec(act0, index as int, true));
        } else {
            if index >= self.active.len() - 1 {
                assert(final(self).active.deep_view() =~= moved_spec(act0, index as int, false));
                return Ok(());
            }
            let a = self.active.remove(index);
            self.active.insert(index + 1, a);
            assert(final(self).active.deep_view() =~= moved_spec(act0, index as int, false));
        }
        Ok(())
    }

    /// Move the completed keyword at `index` one place up or down.
    pub fn move_closed_keyword(&mut self, index: usize, direction: i32) -> (r: Result<
        (),
        SettingsError,
    >)
        ensures
            index >= old(self).closed@.len() ==> (r matches Err(
                SettingsError::InvalidIndex(i, m),
            ) && i == index && m == old(self).closed@.len() && *final(self) == *old(self)),
            index < old(self).closed@.len() ==> r is Ok && final(self).active.deep_view() == old(
                self,
            ).active.deep_view() && final(self).closed.deep_view() == moved_spec(
                old(self).closed.deep_view(),
                index as int,
                direction < 0,
            ),
    {
        if index >= self.closed.len() {
            return Err(SettingsError::InvalidIndex(index, self.closed.len()));
        }
        let ghost cls0 = self.closed.deep_view();
        if direction < 0 {
            if index == 0 {
                assert(final(self).closed.deep_view() =~= moved_spec(cls0, index as int, true));
                return Ok(());
            }
            let a = self.closed.remove(index);
            self.closed.insert(index - 1, a);
            assert(final(self).closed.deep_view() =~= moved_spec(cls0, index as int, true));
        } else {
            if index >= self.closed.len() - 1 {
                assert(final(self).closed.deep_view() =~= moved_spec(cls0, index as int, false));
                return Ok(());
            }
            let a = self.closed.remove(index);
            self.closed.insert(index + 1, a);
            assert(final(self).closed.deep_view() =~= moved_spec(cls0, index as int, false));
        }
        Ok(())
    }

    /// Back to the default lists.
    pub fn reset_to_defaults(&mut self)
        ensures
            final(self).active.deep_view() == default_active_spec(),
            final(self).closed.deep_view() == default_closed_spec(),
    {
        *self = TodoKeywords::new();
    }

    /// A copy of both lists.
    pub fn copied(&self) -> (r: TodoKeywords)
        ensures
            r.active.deep_view() == self.active.deep_view(),
            r.closed.deep_view() == self.closed.deep_view(),
    {
        TodoKeywords { active: clone_strings(&self.active), closed: clone_strings(&self.closed) }
    }
}

impl Clone for TodoKeywords {
    /// Cloning keeps both lists.
    fn clone(&self) -> (r: TodoKeywords)
        ensures
            r.active.deep_view() == self.active.deep_view(),
            r.closed.deep_view() == self.closed.deep_view(),
    {
        self.copied()
    }
}

impl Default for TodoKeywords {
    /// The default keyword lists.
    fn default() -> (r: TodoKeywords)
        ensures
            r.active.deep_view() == default_active_spec(),
            r.closed.deep_view() == default_closed_spec(),
    {
        TodoKeywords::new()
    }
}

/// A list with the element at `index` swapped one place towards the front
/// (`up`) or the back; a move past either end changes nothing.
pub open spec fn moved_spec(list: Seq<Seq<char>>, index: int, up: bool) -> Seq<Seq<char>> {
    if up {
        if index == 0 {
            list
        } else {
            list.update(index - 1, list[index]).update(index, list[index - 1])
        }
    } else {
        if index >= list.len() - 1 {
            list
        } else {
            list.update(index, list[index + 1]).update(index + 1, list[index])
        }
    }
}

/// A copy of a string list.
pub fn clone_strings(v: &Vec<String>) -> (r: Vec<String>)
    ensures
        r.deep_view() == v.deep_view(),
        r@.len() == v@.len(),
{
    let n = v.len();
    let mut out: Vec<String> = Vec::new();
    let mut i: usize = 0;
    while i < n
        invariant
            n == v@.len(),
            0 <= i <= n,
            out@.len() == i,
            forall|j: int| 0 <= j < i ==> out@[j]@ == v.deep_view()[j],
        decreases n - i,
    {
        out.push(v[i].clone());
        i = i + 1;
    }
    assert(out.deep_view() =~= v.deep_view());
    out
}

/// One table column: identifier, visibility and display order.
#[derive(Debug)]
pub struct TableColumnConfig {
    pub id: String,
    pub visible: bool,
    pub order: u32,
}

/// The mathematical image of a column.
pub struct ColumnV {
    pub id: Seq<char>,
    pub visible: bool,
    pub order: u32,
}

impl View for TableColumnConfig {
    type V = ColumnV;

    open spec fn view(&self) -> ColumnV {
        ColumnV { id: self.id@, visible: self.visible, order: self.order }
    }
}

impl DeepView for TableColumnConfig {
    type V = ColumnV;

    open spec fn deep_view(&self) -> ColumnV {
        self.view()
    }
}

impl TableColumnConfig {
    /// A column from its parts.
    pub fn new(id: String, visible: bool, order: u32) -> (r: TableColumnConfig)
        ensures
            r@ == (ColumnV { id: id@, visible, order }),
    {
        TableColumnConfig { id, visible, order }
    }

    /// A copy of this column.
    pub fn copied(&self) -> (r: TableColumnConfig)
        ensures
            r@ == self@,
    {
        TableColumnConfig { id: self.id.clone(), visible: self.visible, order: self.order }
    }
}

impl Clone for TableColumnConfig {
    /// Cloning keeps every field.
    fn clone(&self) -> (r: TableColumnConfig)
        ensures
            r@ == self@,
    {
        self.copied()
    }
}

/// The default column layout: status, title, document, tags and date, all
/// visible, in that order.
pub open spec fn default_columns_spec() -> Seq<ColumnV> {
    seq![
        ColumnV { id: "status"@, visible: true, order: 0 },
        ColumnV { id: "title"@, visible: true, order: 1 },
        ColumnV { id: "document"@, visible: true, order: 2 },
        ColumnV { id: "tags"@, visible: true, order: 3 },
        ColumnV { id: "date"@, visible: true, order: 4 },
    ]
}

/// The default external editor command.
pub open spec fn default_editor_spec() -> Seq<char> {
    "emacsclient --no-wait +{line}:{column} {file}"@
}

/// All user settings.
#[derive(Debug)]
pub struct UserSettings {
    pub monitored_paths: Vec<MonitoredPath>,
    pub todo_keywords: TodoKeywords,
    pub custom_properties: Vec<String>,
    pub external_editor_command: String,
    pub table_columns: Vec<TableColumnConfig>,
}

/// The mathematical image of the settings.
pub struct SettingsV {
    pub monitored_paths: Seq<MonitoredPathV>,
    pub active: Seq<Seq<char>>,
    pub closed: Seq<Seq<char>>,
    pub custom_properties: Seq<Seq<char>>,
    pub external_editor_command: Seq<char>,
    pub table_columns: Seq<ColumnV>,
}

impl View for UserSettings {
    type V = SettingsV;

    open spec fn view(&self) -> SettingsV {
        SettingsV {
            monitored_paths: self.monitored_paths.deep_view(),
            active: self.todo_keywords.active.deep_view(),
            closed: self.todo_keywords.closed.deep_view(),
            custom_properties: self.custom_properties.deep_view(),
            external_editor_command: self.external_editor_command@,
            table_columns: self.table_columns.deep_view(),
        }
    }
}

/// Index of the first monitored path with the given path text, or the length.
pub open spec fn path_index_of(ps: Seq<MonitoredPathV>, path: Seq<char>) -> int
    decreases ps.len(),
{
    if ps.len() == 0 {
        0
    } else if ps[0].path == path {
        0
    } else {
        1 + path_index_of(ps.drop_first(), path)
    }
}

pub proof fn lemma_path_index_of_bounds(ps: Seq<MonitoredPathV>, path: Seq<char>)
    ensures
        0 <= path_index_of(ps, path) <= ps.len(),
        path_index_of(ps, path) < ps.len() ==> ps[path_index_of(ps, path)].path == path,
        forall|j: int| 0 <= j < path_index_of(ps, path) ==> ps[j].path != path,
    decreases ps.len(),
{
    if ps.len() > 0 && ps[0].path != path {
        lemma_path_index_of_bounds(ps.drop_first(), path);
        assert(forall|j: int|
            1 <= j < path_index_of(ps, path) ==> ps[j] == ps.drop_first()[j - 1]);
    }
}

pub proof fn lemma_path_index_of_at(ps: Seq<MonitoredPathV>, path: Seq<char>, i: int)
    requires
        0 <= i < ps.len(),
        ps[i].path == path,
        forall|j: int| 0 <= j < i ==> ps[j].path != path,
    ensures
        path_index_of(ps, path) == i,
    decreases i,
{
    if i > 0 {
        lemma_path_index_of_at(ps.drop_first(), path, i - 1);
    }
}

/// A monitored directory `dir` covers `file` when `file` lies under it
/// component-wise: `dir` is a prefix and the next character of `file` is a
/// separator, or `dir` itself ends in one, or the two are equal.
pub open spec fn dir_covers(dir: Seq<char>, file: Seq<char>) -> bool {
    dir == file || (crate::strutil::has_prefix(file, dir) && (file.len() > dir.len() && (
    file[dir.len() as int] == '/' || (dir.len() > 0 && dir.last() == '/'))))
}

/// Whether a file path is covered by the settings: some monitored path with
/// parsing enabled either names the file itself or is a directory above it.
pub open spec fn file_covered_spec(ps: Seq<MonitoredPathV>, file: Seq<char>) -> bool {
    exists|i: int|
        0 <= i < ps.len() && (#[trigger] ps[i]).parse_enabled && (if ps[i].directory {
            dir_covers(ps[i].path, file)
        } else {
            ps[i].path == file
        })
}

impl UserSettings {
    /// The default settings: no monitored paths, default keywords, no custom
    /// properties, the default editor command and the default columns.
    pub fn new() -> (r: UserSettings)
        ensures
            r@.monitored_paths == Seq::<MonitoredPathV>::empty(),
            r@.active == default_active_spec(),
            r@.closed == default_closed_spec(),
            r@.custom_properties == Seq::<Seq<char>>::empty(),
            r@.external_editor_command == default_editor_spec(),
            r@.table_columns == default_columns_spec(),
    {
        let r = UserSettings {
            monitored_paths: Vec::new(),
            todo_keywords: TodoKeywords::new(),
            custom_properties: Vec::new(),
            external_editor_command: "emacsclient --no-wait +{line}:{column} {file}".to_owned(),
            table_columns: UserSettings::default_table_columns(),
        };
        assert(r@.monitored_paths =~= Seq::<MonitoredPathV>::empty());
        assert(r@.custom_properties =~= Seq::<Seq<char>>::empty());
        r
    }

    /// The default column layout.
    pub fn default_table_columns() -> (r: Vec<TableColumnConfig>)
        ensures
            r.deep_view() == default_columns_spec(),
    {
        let mut cols: Vec<TableColumnConfig> = Vec::new();
        cols.push(TableColumnConfig::new("status".to_owned(), true, 0));
        cols.push(TableColumnConfig::new("title".to_owned(), true, 1));
        cols.push(TableColumnConfig::new("document".to_owned(), true, 2));
        cols.push(TableColumnConfig::new("tags".to_owned(), true, 3));
        cols.push(TableColumnConfig::new("date".to_owned(), true, 4));
        assert(cols.deep_view() =~= default_columns_spec());
        cols
    }

    /// The custom property names.
    pub fn get_custom_properties(&self) -> (r: &Vec<String>)
        ensures
            r.deep_view() == self@.custom_properties,
    {
        &self.custom_properties
    }

    /// Append a custom property; empty names are invalid, known names are
    /// duplicates.
    pub fn add_custom_property(&mut self, property: String) -> (r: Result<(), SettingsError>)
        ensures
            property@.len() == 0 ==> (r matches Err(SettingsError::InvalidKeyword(_)) && *final(self) == *old(self)),
            property@.len() > 0 && contains_word(old(self)@.custom_properties, property@) ==> (
            r matches Err(SettingsError::DuplicateKeyword(k)) && k@ == property@ && *final(self)
                == *old(self)),
            property@.len() > 0 && !contains_word(old(self)@.custom_properties, property@) ==> (
            r is Ok && final(self)@ == (SettingsV {
                custom_properties: old(self)@.custom_properties.push(property@),
                ..old(self)@
            })),
    {
        if property.as_str().unicode_len() == 0 {
            return Err(SettingsError::InvalidKeyword("Property name cannot be empty".to_owned()));
        }
        if word_in(&self.custom_properties, property.as_str()) {
            return Err(SettingsError::DuplicateKeyword(property));
        }
        self.custom_properties.push(property);
        proof {
            assert(final(self)@.custom_properties =~= old(self)@.custom_properties.push(
                property@,
            ));
        }
        Ok(())
    }

    /// Replace the custom property at `index`; the new name must be nonempty
    /// and not duplicate another property.
    pub fn edit_custom_property(&mut self, index: usize, new_property: String) -> (r: Result<
        (),
        SettingsError,
    >)
        ensures
            r is Err ==> *final(self) == *old(self),
            new_property@.len() == 0 ==> r matches Err(SettingsError::InvalidKeyword(_)),
            new_property@.len() > 0 && index >= old(self)@.custom_properties.len() ==> (r matches
                Err(SettingsError::InvalidIndex(i, m)) && i == index && m == old(
                self,
            )@.custom_properties.len()),
            new_property@.len() > 0 && index < old(self)@.custom_properties.len()
                && contains_word(
                old(self)@.custom_properties.remove(index as int),
                new_property@,
            ) ==> (r matches Err(SettingsError::DuplicateKeyword(k)) && k@ == new_property@),
            new_property@.len() > 0 && index < old(self)@.custom_properties.len()
                && !contains_word(
                old(self)@.custom_properties.remove(index as int),
                new_property@,
            ) ==> (r is Ok && final(self)@ == (SettingsV {
                custom_properties: old(self)@.custom_properties.update(
                    index as int,
                    new_property@,
                ),
                ..old(self)@
            })),
    {
        if new_property.as_str().unicode_len() == 0 {
            return Err(SettingsError::InvalidKeyword("Property name cannot be empty".to_owned()));
        }
        if index >= self.custom_properties.len() {
            return Err(SettingsError::InvalidIndex(index, self.custom_properties.len()));
        }
        let ghost props0 = self.custom_properties.deep_view();
        let mut others = clone_strings(&self.custom_properties);
        others.remove(index);
        assert(others.deep_view() =~= props0.remove(index as int));
        if word_in(&others, new_property.as_str()) {
            return Err(SettingsError::DuplicateKeyword(new_property));
        }
        self.custom_properties.remove(index);
        self.custom_properties.insert(index, new_property);
        proof {
            assert(final(self)@.custom_properties =~= props0.update(index as int, new_property@));
        }
        Ok(())
    }

    /// Remove the custom property at `index`.
    pub fn remove_custom_property(&mut self, index: usize) -> (r: Result<(), SettingsError>)
        ensures
            index >= old(self)@.custom_properties.len() ==> (r matches Err(
                SettingsError::InvalidIndex(i, m),
            ) && i == index && m == old(self)@.custom_properties.len() && *final(self) == *old(
                self,
            )),
            index < old(self)@.custom_properties.len() ==> (r is Ok && final(self)@ == (SettingsV {
                custom_properties: old(self)@.custom_properties.remove(index as int),
                ..old(self)@
            })),
    {
        if index >= self.custom_properties.len() {
            return Err(SettingsError::InvalidIndex(index, self.custom_properties.len()));
        }
        self.custom_properties.remove(index);
        proof {
            assert(final(self)@.custom_properties =~= old(self)@.custom_properties.remove(
                index as int,
            ));
        }
        Ok(())
    }

    /// Move the custom property at `index` one place up or down; a move past
    /// either end changes nothing.
    pub fn move_custom_property(&mut self, index: usize, direction: i32) -> (r: Result<
        (),
        SettingsError,
    >)
        ensures
            index >= old(self)@.custom_properties.len() ==> (r matches Err(
                SettingsError::InvalidIndex(i, m),
            ) && i == index && m == old(self)@.custom_properties.len() && *final(self) == *old(
                self,
            )),
            index < old(self)@.custom_properties.len() ==> (r is Ok && final(self)@ == (SettingsV {
                custom_properties: moved_spec(
                    old(self)@.custom_properties,
                    index as int,
                    direction < 0,
                ),
                ..old(self)@
            })),
    {
        if index >= self.custom_properties.len() {
            return Err(SettingsError::InvalidIndex(index, self.custom_properties.len()));
        }
        let ghost props0 = self.custom_properties.deep_view();
        if direction < 0 {
            if index == 0 {
                assert(final(self)@.custom_properties =~= moved_spec(props0, index as int, true));
                return Ok(());
            }
            let a = self.custom_properties.remove(index);
            self.custom_properties.insert(index - 1, a);
            assert(final(self)@.custom_properties =~= moved_spec(props0, index as int, true));
        } else {
            if index >= self.custom_properties.len() - 1 {
                assert(final(self)@.custom_properties =~= moved_spec(props0, index as int, false));
                return Ok(());
            }
            let a = self.custom_properties.remove(index);
            self.custom_properties.insert(index + 1, a);
            assert(final(self)@.custom_properties =~= moved_spec(props0, index as int, false));
        }
        Ok(())
    }

    /// Clear the custom properties.
    pub fn reset_custom_properties_to_defaults(&mut self)
        ensures
            final(self)@ == (SettingsV {
                custom_properties: Seq::<Seq<char>>::empty(),
                ..old(self)@
            }),
    {
        self.custom_properties = Vec::new();
        proof {
            assert(final(self)@.custom_properties =~= Seq::<Seq<char>>::empty());
        }
    }

    /// Record a monitored path; a path already present is a duplicate.
    /// Whether the path exists on disk is checked at the filesystem edge,
    /// before this is called.
    pub fn add_monitored_path(&mut self, path: MonitoredPath) -> (r: Result<(), SettingsError>)
        ensures
            path_index_of(old(self)@.monitored_paths, path@.path) < old(
                self,
            )@.monitored_paths.len() ==> (r matches Err(SettingsError::DuplicatePath(p)) && p@
                == path@.path && *final(self) == *old(self)),
            path_index_of(old(self)@.monitored_paths, path@.path) >= old(
                self,
            )@.monitored_paths.len() ==> (r is Ok && final(self)@ == (SettingsV {
                monitored_paths: old(self)@.monitored_paths.push(path@),
                ..old(self)@
            })),
    {
        let n = self.monitored_paths.len();
        let mut i: usize = 0;
        while i < n
            invariant
                n == self.monitored_paths@.len(),
                *self == *old(self),
                0 <= i <= n,
                forall|j: int| 0 <= j < i ==> self@.monitored_paths[j].path != path@.path,
            decreases n - i,
        {
            if crate::strutil::str_eq(self.monitored_paths[i].path.as_str(), path.path.as_str()) {
                proof {
                    lemma_path_index_of_at(self@.monitored_paths, path@.path, i as int);
                }
                return Err(SettingsError::DuplicatePath(path.path));
            }
            i = i + 1;
        }
        proof {
            lemma_path_index_of_bounds(self@.monitored_paths, path@.path);
        }
        self.monitored_paths.push(path);
        proof {
            assert(final(self)@.monitored_paths =~= old(self)@.monitored_paths.push(path@));
        }
        Ok(())
    }

    /// Drop every monitored path with the given path text; report whether any
    /// was dropped.
    pub fn remove_monitored_path(&mut self, path: &str) -> (r: bool)
        ensures
            final(self)@ == (SettingsV {
                monitored_paths: retain_others(old(self)@.monitored_paths, path@),
                ..old(self)@
            }),
            r == (retain_others(old(self)@.monitored_paths, path@).len() < old(
                self,
            )@.monitored_paths.len()),
    {
        let n = self.monitored_paths.len();
        let mut kept: Vec<MonitoredPath> = Vec::new();
        let mut i: usize = 0;
        assert(self@.monitored_paths.skip(0) =~= self@.monitored_paths);
        while i < n
            invariant
                n == self.monitored_paths@.len(),
                *self == *old(self),
                0 <= i <= n,
                retain_others(self@.monitored_paths, path@) =~= kept.deep_view() + retain_others(
                    self@.monitored_paths.skip(i as int),
                    path@,
                ),
            decreases n - i,
        {
            proof {
                assert(self@.monitored_paths.skip(i as int)[0] == self@.monitored_paths[i as int]);
                assert(self@.monitored_paths.skip(i as int).drop_first()
                    =~= self@.monitored_paths.skip(i + 1));
            }
            if !crate::strutil::str_eq(self.monitored_paths[i].path.as_str(), path) {
                let ghost before = kept.deep_view();
                kept.push(self.monitored_paths[i].copied());
                assert(kept.deep_view() =~= before + seq![self@.monitored_paths[i as int]]);
            }
            proof {
                assert(retain_others(self@.monitored_paths, path@) =~= kept.deep_view()
                    + retain_others(self@.monitored_paths.skip(i + 1), path@));
            }
            i = i + 1;
        }
        proof {
            assert(retain_others(self@.monitored_paths.skip(n as int), path@) =~= Seq::<
                MonitoredPathV,
            >::empty());
            assert(retain_others(self@.monitored_paths, path@) =~= kept.deep_view());
            lemma_retain_others_len(self@.monitored_paths, path@);
        }
        let r = kept.len() < n;
        self.monitored_paths = kept;
        r
    }

    /// Replace the first monitored path with the given path text; a missing
    /// path is reported. Whether the replacement exists on disk is checked at
    /// the filesystem edge.
    pub fn update_monitored_path(&mut self, path: &str, updated_path: MonitoredPath) -> (r: Result<
        (),
        SettingsError,
    >)
        ensures
            path_index_of(old(self)@.monitored_paths, path@) < old(
                self,
            )@.monitored_paths.len() ==> (r is Ok && final(self)@ == (SettingsV {
                monitored_paths: old(self)@.monitored_paths.update(
                    path_index_of(old(self)@.monitored_paths, path@),
                    updated_path@,
                ),
                ..old(self)@
            })),
            path_index_of(old(self)@.monitored_paths, path@) >= old(
                self,
            )@.monitored_paths.len() ==> (r matches Err(SettingsError::PathNotFound(p)) && p@
                == path@ && *final(self) == *old(self)),
    {
        let n = self.monitored_paths.len();
        let mut i: usize = 0;
        while i < n
            invariant
                n == self.monitored_paths@.len(),
                *self == *old(self),
                0 <= i <= n,
                forall|j: int| 0 <= j < i ==> self@.monitored_paths[j].path != path@,
            decreases n - i,
        {
            if crate::strutil::str_eq(self.monitored_paths[i].path.as_str(), path) {
                proof {
                    lemma_path_index_of_at(self@.monitored_paths, path@, i as int);
                }
                self.monitored_paths.remove(i);
                self.monitored_paths.insert(i, updated_path);
                proof {
                    assert(final(self)@.monitored_paths =~= old(self)@.monitored_paths.update(
                        i as int,
                        updated_path@,
                    ));
                }
                return Ok(());
            }
            i = i + 1;
        }
        proof {
            lemma_path_index_of_bounds(self@.monitored_paths, path@);
        }
        Err(SettingsError::PathNotFound(path.to_owned()))
    }

    /// Set whether the first monitored path with the given text is parsed; a
    /// missing path is reported.
    pub fn set_path_parse_enabled(&mut self, path: &str, parse_enabled: bool) -> (r: Result<
        (),
        SettingsError,
    >)
        ensures
            path_index_of(old(self)@.monitored_paths, path@) < old(
                self,
            )@.monitored_paths.len() ==> (r is Ok && final(self)@ == (SettingsV {
                monitored_paths: old(self)@.monitored_paths.update(
                    path_index_of(old(self)@.monitored_paths, path@),
                    MonitoredPathV {
                        parse_enabled,
                        ..old(self)@.monitored_paths[path_index_of(
                            old(self)@.monitored_paths,
                            path@,
                        )]
                    },
                ),
                ..old(self)@
            })),
            path_index_of(old(self)@.monitored_paths, path@) >= old(
                self,
            )@.monitored_paths.len() ==> (r matches Err(SettingsError::PathNotFound(p)) && p@
                == path@ && *final(self) == *old(self)),
    {
        let n = self.monitored_paths.len();
        let mut i: usize = 0;
        while i < n
            invariant
                n == self.monitored_paths@.len(),
                *self == *old(self),
                0 <= i <= n,
                forall|j: int| 0 <= j < i ==> self@.monitored_paths[j].path != path@,
            decreases n - i,
        {
            if crate::strutil::str_eq(self.monitored_paths[i].path.as_str(), path) {
                proof {
                    lemma_path_index_of_at(self@.monitored_paths, path@, i as int);
                }
                let mut entry = self.monitored_paths.remove(i);
                entry.parse_enabled = parse_enabled;
                self.monitored_paths.insert(i, entry);
                proof {
                    assert(final(self)@.monitored_paths =~= old(self)@.monitored_paths.update(
                        i as int,
                        MonitoredPathV {
                            parse_enabled,
                            ..old(self)@.monitored_paths[i as int]
                        },
                    ));
                }
                return Ok(());
            }
            i = i + 1;
        }
        proof {
            lemma_path_index_of_bounds(self@.monitored_paths, path@);
        }
        Err(SettingsError::PathNotFound(path.to_owned()))
    }

    /// Whether the first monitored path with the given text has parsing
    /// enabled; an unknown path is not parsed.
    pub fn should_parse_path(&self, path: &str) -> (r: bool)
        ensures
            r == (path_index_of(self@.monitored_paths, path@) < self@.monitored_paths.len()
                && self@.monitored_paths[path_index_of(
                self@.monitored_paths,
                path@,
            )].parse_enabled),
    {
        let n = self.monitored_paths.len();
        let mut i: usize = 0;
        while i < n
            invariant
                n == self.monitored_paths@.len(),
                0 <= i <= n,
                forall|j: int| 0 <= j < i ==> self@.monitored_paths[j].path != path@,
            decreases n - i,
        {
            if crate::strutil::str_eq(self.monitored_paths[i].path.as_str(), path) {
                proof {
                    lemma_path_index_of_at(self@.monitored_paths, path@, i as int);
                }
                return self.monitored_paths[i].parse_enabled;
            }
            i = i + 1;
        }
        proof {
            lemma_path_index_of_bounds(self@.monitored_paths, path@);
        }
        false
    }

    /// Whether a file is covered by some monitored path with parsing enabled:
    /// a file entry naming it, or a directory entry above it.
    pub fn is_file_covered(&self, file_path: &str) -> (r: bool)
        ensures
            r == file_covered_spec(self@.monitored_paths, file_path@),
    {
        let n = self.monitored_paths.len();
        let mut i: usize = 0;
        while i < n
            invariant
                n == self.monitored_paths@.len(),
                0 <= i <= n,
                forall|j: int|
                    0 <= j < i ==> !((#[trigger] self@.monitored_paths[j]).parse_enabled && (
                    if self@.monitored_paths[j].directory {
                        dir_covers(self@.monitored_paths[j].path, file_path@)
                    } else {
                        self@.monitored_paths[j].path == file_path@
                    })),
            decreases n - i,
        {
            let entry = &self.monitored_paths[i];
            if entry.parse_enabled {
                let hit: bool = match entry.path_type {
                    PathType::File => crate::strutil::str_eq(entry.path.as_str(), file_path),
                    PathType::Directory => {
                        if crate::strutil::str_eq(entry.path.as_str(), file_path) {
                            true
                        } else {
                            let plen = entry.path.as_str().unicode_len();
                            let flen = file_path.unicode_len();
                            crate::strutil::starts_with(file_path, entry.path.as_str()) && flen
                                > plen && (file_path.get_char(plen) == '/' || (plen > 0
                                && entry.path.as_str().get_char(plen - 1) == '/'))
                        }
                    },
                };
                if hit {
                    proof {
                        assert(entry@ == self@.monitored_paths[i as int]);
                        let w = self@.monitored_paths[i as int];
                        assert(w.parse_enabled);
                        if w.directory {
                            assert(dir_covers(w.path, file_path@));
                        } else {
                            assert(w.path == file_path@);
                        }
                        assert(file_covered_spec(self@.monitored_paths, file_path@));
                    }
                    return true;
                }
            }
            i = i + 1;
        }
        false
    }

    /// The monitored paths with parsing enabled, in order.
    pub fn get_parse_enabled_paths(&self) -> (r: Vec<&MonitoredPath>)
        ensures
            r.deep_view() == enabled_paths(self@.monitored_paths),
    {
        let n = self.monitored_paths.len();
        let mut out: Vec<&MonitoredPath> = Vec::new();
        let mut i: usize = 0;
        assert(self@.monitored_paths.skip(0) =~= self@.monitored_paths);
        while i < n
            invariant
                n == self.monitored_paths@.len(),
                0 <= i <= n,
                enabled_paths(self@.monitored_paths) =~= out.deep_view() + enabled_paths(
                    self@.monitored_paths.skip(i as int),
                ),
            decreases n - i,
        {
            proof {
                assert(self@.monitored_paths.skip(i as int)[0] == self@.monitored_paths[i as int]);
                assert(self@.monitored_paths.skip(i as int).drop_first()
                    =~= self@.monitored_paths.skip(i + 1));
            }
            if self.monitored_paths[i].parse_enabled {
                let ghost before = out.deep_view();
                out.push(&self.monitored_paths[i]);
                assert(out.deep_view() =~= before + seq![self@.monitored_paths[i as int]]);
            }
            proof {
                assert(enabled_paths(self@.monitored_paths) =~= out.deep_view() + enabled_paths(
                    self@.monitored_paths.skip(i + 1),
                ));
            }
            i = i + 1;
        }
        proof {
            assert(enabled_paths(self@.monitored_paths.skip(n as int)) =~= Seq::<
                MonitoredPathV,
            >::empty());
            assert(out.deep_view() =~= enabled_paths(self@.monitored_paths));
        }
        out
    }

    /// Replace the TODO keyword lists.
    pub fn update_todo_keywords(&mut self, todo_keywords: TodoKeywords)
        ensures
            final(self)@ == (SettingsV {
                active: todo_keywords.active.deep_view(),
                closed: todo_keywords.closed.deep_view(),
                ..old(self)@
            }),
    {
        self.todo_keywords = todo_keywords;
    }

    /// The TODO keyword lists.
    pub fn get_todo_keywords(&self) -> (r: &TodoKeywords)
        ensures
            r.active.deep_view() == self@.active,
            r.closed.deep_view() == self@.closed,
    {
        &self.todo_keywords
    }

    /// The TODO keyword lists, for editing in place.
    pub fn get_todo_keywords_mut(&mut self) -> (r: &mut TodoKeywords)
        ensures
            *r == old(self).todo_keywords,
            *final(self) == (UserSettings {
                todo_keywords: *final(r),
                ..*old(self)
            }),
    {
        &mut self.todo_keywords
    }

    /// The table columns.
    pub fn get_table_columns(&self) -> (r: &Vec<TableColumnConfig>)
        ensures
            r.deep_view() == self@.table_columns,
    {
        &self.table_columns
    }

    /// The table columns, for editing in place.
    pub fn get_table_columns_mut(&mut self) -> (r: &mut Vec<TableColumnConfig>)
        ensures
            *r == old(self).table_columns,
            *final(self) == (UserSettings {
                table_columns: *final(r),
                ..*old(self)
            }),
    {
        &mut self.table_columns
    }

    /// Append a table column; a known column id is a duplicate.
    pub fn add_table_column(&mut self, column: TableColumnConfig) -> (r: Result<
        (),
        SettingsError,
    >)
        ensures
            column_index_of(old(self)@.table_columns, column@.id) < old(
                self,
            )@.table_columns.len() ==> (r matches Err(SettingsError::DuplicateKeyword(k)) && k@
                == column@.id && *final(self) == *old(self)),
            column_index_of(old(self)@.table_columns, column@.id) >= old(
                self,
            )@.table_columns.len() ==> (r is Ok && final(self)@ == (SettingsV {
                table_columns: old(self)@.table_columns.push(column@),
                ..old(self)@
            })),
    {
        let n = self.table_columns.len();
        let mut i: usize = 0;
        while i < n
            invariant
                n == self.table_columns@.len(),
                *self == *old(self),
                0 <= i <= n,
                forall|j: int| 0 <= j < i ==> self@.table_columns[j].id != column@.id,
            decreases n - i,
        {
            if crate::strutil::str_eq(self.table_columns[i].id.as_str(), column.id.as_str()) {
                proof {
                    lemma_column_index_of_at(self@.table_columns, column@.id, i as int);
                }
                return Err(SettingsError::DuplicateKeyword(column.id));
            }
            i = i + 1;
        }
        proof {
            lemma_column_index_of_bounds(self@.table_columns, column@.id);
        }
        self.table_columns.push(column);
        proof {
            assert(final(self)@.table_columns =~= old(self)@.table_columns.push(column@));
        }
        Ok(())
    }

    /// Remove the table column at `index`.
    pub fn remove_table_column(&mut self, index: u32) -> (r: Result<(), SettingsError>)
        ensures
            index as int >= old(self)@.table_columns.len() ==> (r matches Err(
                SettingsError::InvalidIndex(i, m),
            ) && i == index as usize && m == old(self)@.table_columns.len() && *final(self)
                == *old(self)),
            (index as int) < old(self)@.table_columns.len() ==> (r is Ok && final(self)@ == (
            SettingsV {
                table_columns: old(self)@.table_columns.remove(index as int),
                ..old(self)@
            })),
    {
        let idx = index as usize;
        if idx >= self.table_columns.len() {
            return Err(SettingsError::InvalidIndex(idx, self.table_columns.len()));
        }
        self.table_columns.remove(idx);
        proof {
            assert(final(self)@.table_columns =~= old(self)@.table_columns.remove(index as int));
        }
        Ok(())
    }

    /// Set the visibility of the first column with the given id; an unknown id
    /// is reported.
    pub fn set_column_visibility(&mut self, column_id: &str, visible: bool) -> (r: Result<
        (),
        SettingsError,
    >)
        ensures
            column_index_of(old(self)@.table_columns, column_id@) < old(
                self,
            )@.table_columns.len() ==> (r is Ok && final(self)@ == (SettingsV {
                table_columns: old(self)@.table_columns.update(
                    column_index_of(old(self)@.table_columns, column_id@),
                    ColumnV {
                        visible,
                        ..old(self)@.table_columns[column_index_of(
                            old(self)@.table_columns,
                            column_id@,
                        )]
                    },
                ),
                ..old(self)@
            })),
            column_index_of(old(self)@.table_columns, column_id@) >= old(
                self,
            )@.table_columns.len() ==> (r matches Err(SettingsError::PathNotFound(p)) && p@
                == column_id@ && *final(self) == *old(self)),
    {
        let n = self.table_columns.len();
        let mut i: usize = 0;
        while i < n
            invariant
                n == self.table_columns@.len(),
                *self == *old(self),
                0 <= i <= n,
                forall|j: int| 0 <= j < i ==> self@.table_columns[j].id != column_id@,
            decreases n - i,
        {
            if crate::strutil::str_eq(self.table_columns[i].id.as_str(), column_id) {
                proof {
                    lemma_column_index_of_at(self@.table_columns, column_id@, i as int);
                }
                let mut entry = self.table_columns.remove(i);
                entry.visible = visible;
                self.table_columns.insert(i, entry);
                proof {
                    assert(final(self)@.table_columns =~= old(self)@.table_columns.update(
                        i as int,
                        ColumnV { visible, ..old(self)@.table_columns[i as int] },
                    ));
                }
                return Ok(());
            }
            i = i + 1;
        }
        proof {
            lemma_column_index_of_bounds(self@.table_columns, column_id@);
        }
        Err(SettingsError::PathNotFound(column_id.to_owned()))
    }

    /// Replace the whole column layout; the new layout must have the same
    /// number of columns and hold every existing column id.
    pub fn reorder_table_columns(&mut self, new_order: Vec<TableColumnConfig>) -> (r: Result<
        (),
        SettingsError,
    >)
        ensures
            r is Ok ==> final(self)@ == (SettingsV {
                table_columns: new_order.deep_view(),
                ..old(self)@
            }),
            r is Err ==> *final(self) == *old(self),
            new_order@.len() != old(self)@.table_columns.len() ==> r matches Err(
                SettingsError::InvalidIndex(_, _),
            ),
    {
        if new_order.len() != self.table_columns.len() {
            return Err(
                SettingsError::InvalidIndex(new_order.len(), self.table_columns.len()),
            );
        }
        let n = self.table_columns.len();
        let mut i: usize = 0;
        while i < n
            invariant
                n == self.table_columns@.len(),
                *self == *old(self),
                new_order@.len() == old(self)@.table_columns.len(),
                0 <= i <= n,
            decreases n - i,
        {
            let mut found = false;
            let m = new_order.len();
            let mut k: usize = 0;
            while k < m && !found
                invariant
                    m == new_order@.len(),
                    0 <= k <= m,
                    n == self.table_columns@.len(),
                    *self == *old(self),
                    0 <= i < n,
                decreases m - k,
            {
                if crate::strutil::str_eq(
                    new_order[k].id.as_str(),
                    self.table_columns[i].id.as_str(),
                ) {
                    found = true;
                }
                k = k + 1;
            }
            if !found {
                return Err(SettingsError::PathNotFound(self.table_columns[i].id.clone()));
            }
            i = i + 1;
        }
        let ghost new_view = new_order.deep_view();
        self.table_columns = new_order;
        proof {
            assert(final(self)@.table_columns == new_view);
            assert(final(self)@ == (SettingsV { table_columns: new_view, ..old(self)@ }));
        }
        Ok(())
    }

    /// Back to the default column layout.
    pub fn reset_table_columns(&mut self)
        ensures
            final(self)@ == (SettingsV { table_columns: default_columns_spec(), ..old(self)@ }),
    {
        self.table_columns = UserSettings::default_table_columns();
    }

    /// The available column ids: the five standard ones, then one
    /// `property:<name>` entry per custom property.
    pub fn get_available_columns(&self) -> (r: Vec<String>)
        ensures
            r.deep_view() == seq!["status"@, "title"@, "document"@, "tags"@, "date"@]
                + self@.custom_properties.map_values(|p: Seq<char>| "property:"@ + p),
    {
        let mut columns: Vec<String> = Vec::new();
        columns.push("status".to_owned());
        columns.push("title".to_owned());
        columns.push("document".to_owned());
        columns.push("tags".to_owned());
        columns.push("date".to_owned());
        let ghost head = columns.deep_view();
        proof {
            assert(head =~= seq!["status"@, "title"@, "document"@, "tags"@, "date"@]);
        }
        let n = self.custom_properties.len();
        let mut i: usize = 0;
        while i < n
            invariant
                n == self.custom_properties@.len(),
                0 <= i <= n,
                columns.deep_view() =~= head + self@.custom_properties.subrange(
                    0,
                    i as int,
                ).map_values(|p: Seq<char>| "property:"@ + p),
            decreases n - i,
        {
            let mut name = String::from_str("property:");
            name.append(self.custom_properties[i].as_str());
            let ghost before = columns.deep_view();
            columns.push(name);
            proof {
                assert(columns.deep_view() =~= before + seq![
                    "property:"@ + self@.custom_properties[i as int],
                ]);
                assert(columns.deep_view() =~= head + self@.custom_properties.subrange(
                    0,
                    i + 1,
                ).map_values(|p: Seq<char>| "property:"@ + p));
            }
            i = i + 1;
        }
        proof {
            assert(self@.custom_properties.subrange(0, n as int) =~= self@.custom_properties);
        }
        columns
    }
}

/// The monitored paths that keep a different path text.
pub open spec fn retain_others(ps: Seq<MonitoredPathV>, path: Seq<char>) -> Seq<MonitoredPathV>
    decreases ps.len(),
{
    if ps.len() == 0 {
        Seq::empty()
    } else {
        let rest = retain_others(ps.drop_first(), path);
        if ps[0].path == path {
            rest
        } else {
            seq![ps[0]] + rest
        }
    }
}

proof fn lemma_retain_others_len(ps: Seq<MonitoredPathV>, path: Seq<char>)
    ensures
        retain_others(ps, path).len() <= ps.len(),
    decreases ps.len(),
{
    if ps.len() > 0 {
        lemma_retain_others_len(ps.drop_first(), path);
    }
}

/// The monitored paths with parsing enabled.
pub open spec fn enabled_paths(ps: Seq<MonitoredPathV>) -> Seq<MonitoredPathV>
    decreases ps.len(),
{
    if ps.len() == 0 {
        Seq::empty()
    } else {
        let rest = enabled_paths(ps.drop_first());
        if ps[0].parse_enabled {
            seq![ps[0]] + rest
        } else {
            rest
        }
    }
}

/// Index of the first column with the given id, or the length.
pub open spec fn column_index_of(cols: Seq<ColumnV>, id: Seq<char>) -> int
    decreases cols.len(),
{
    if cols.len() == 0 {
        0
    } else if cols[0].id == id {
        0
    } else {
        1 + column_index_of(cols.drop_first(), id)
    }
}

proof fn lemma_column_index_of_bounds(cols: Seq<ColumnV>, id: Seq<char>)
    ensures
        0 <= column_index_of(cols, id) <= cols.len(),
        column_index_of(cols, id) < cols.len() ==> cols[column_index_of(cols, id)].id == id,
        forall|j: int| 0 <= j < column_index_of(cols, id) ==> cols[j].id != id,
    decreases cols.len(),
{
    if cols.len() > 0 && cols[0].id != id {
        lemma_column_index_of_bounds(cols.drop_first(), id);
        assert(forall|j: int|
            1 <= j < column_index_of(cols, id) ==> cols[j] == cols.drop_first()[j - 1]);
    }
}

proof fn lemma_column_index_of_at(cols: Seq<ColumnV>, id: Seq<char>, i: int)
    requires
        0 <= i < cols.len(),
        cols[i].id == id,
        forall|j: int| 0 <= j < i ==> cols[j].id != id,
    ensures
        column_index_of(cols, id) == i,
    decreases i,
{
    if i > 0 {
        lemma_column_index_of_at(cols.drop_first(), id, i - 1);
    }
}

/// The keeper of the settings store's file name; loading and saving the store
/// happen at the application edge.
#[derive(Debug)]
pub struct SettingsManager {
    pub store_path: String,
}

impl SettingsManager {
    /// A manager over the standard settings file.
    pub fn new() -> (r: SettingsManager)
        ensures
            r.store_path@ == "settings.json"@,
    {
        SettingsManager { store_path: "settings.json".to_owned() }
    }
}

} // verus!
