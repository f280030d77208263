//! The controller of the browser: it holds the history, the listing of the
//! current directory, the results of the last search and the selection, and
//! decides what each event of the user interface changes and requests.
//!
//! The controller touches no file. Where the file system has to act, a method
//! returns an [`Action`] that the caller carries out. A listing or the results
//! of a search come back with the directory, and the term, that they were
//! asked for; the controller drops an answer that no longer fits the current
//! directory or the term of the last search, so that a late answer cannot
//! replace a newer list.

use vstd::prelude::*;
use crate::display::{
    first_index, lemma_each_match_is_taken_once, lemma_removal_stays_within_list, matching,
    remove_by_ids, taken, views, without_all, wrap, DisplayFile, DisplayFileView,
};
use crate::entry::{FileInfo, FileType};
use crate::history::{History, HistoryView};
use crate::ids::{dedup_ids, distinct, lemma_distinct};
use crate::paths::{child_path, joined};
use crate::selection::{
    deselect_all, deselected, lemma_click_keeps_flags_covered, select_file, Modifiers, Pane,
    Selection, SelectionView,
};

verus! {

/// What the caller is asked to do after an event.
#[derive(Debug)]
pub enum Action {
    /// Nothing.
    Nothing,
    /// List the entries of the directory `dir` and hand them to
    /// [`App::directory_listed`].
    ListDirectory { dir: String },
    /// Search below `dir` for entries whose name holds `term` and hand them to
    /// [`App::search_finished`].
    Search { dir: String, term: String },
    /// Open the file at `path` with the program that the system has for it.
    OpenFile { path: String },
    /// Move the files at `paths` to the trash.
    DeleteFiles { paths: Vec<String> },
    /// Take the focus from the search box and empty it.
    ResetSearchBox,
}

/// An action as a mathematical value.
pub enum ActionView {
    Nothing,
    ListDirectory { dir: Seq<char> },
    Search { dir: Seq<char>, term: Seq<char> },
    OpenFile { path: Seq<char> },
    DeleteFiles { paths: Seq<Seq<char>> },
    ResetSearchBox,
}

impl View for Action {
    type V = ActionView;

    open spec fn view(&self) -> ActionView {
        match *self {
            Action::Nothing => ActionView::Nothing,
            Action::ListDirectory { dir } => ActionView::ListDirectory { dir: dir@ },
            Action::Search { dir, term } => ActionView::Search { dir: dir@, term: term@ },
            Action::OpenFile { path } => ActionView::OpenFile { path: path@ },
            Action::DeleteFiles { paths } => ActionView::DeleteFiles {
                paths: Seq::new(paths@.len(), |i: int| paths@[i]@),
            },
            Action::ResetSearchBox => ActionView::ResetSearchBox,
        }
    }
}

/// What the caller is asked to do when a key went down.
#[derive(Debug)]
pub struct KeyResponse {
    /// Move the focus to the search box.
    pub focus_search: bool,
    /// Keep the window from doing what it does with this key by default.
    pub prevent_default: bool,
    /// What else there is to do.
    pub action: Action,
}

/// The key types a character: its value is one character long. The named
/// keys (`Enter`, `Escape`, `F3`) have longer values.
pub open spec fn types_a_character(key: Seq<char>) -> bool {
    key.len() == 1
}

/// The key is one that the browser keeps for itself: F3, and F or G (G by
/// its place on the keyboard) with Ctrl.
pub open spec fn is_reserved(key: Seq<char>, code: Seq<char>, ctrl_key: bool) -> bool {
    code == "F3"@ || ((key == "f"@ || code == "KeyG"@) && ctrl_key)
}

/// Whether the two texts are the same.
fn same_text(a: &str, b: &str) -> (same: bool)
    ensures
        same == (a@ == b@),
{
    a.to_owned() == b.to_owned()
}

/// Every record is a well-formed snapshot of a plain listing: it carries no
/// path of its own.
pub open spec fn is_listing(list: Seq<DisplayFileView>) -> bool {
    forall|i: int|
        0 <= i < list.len() ==> (#[trigger] list[i]).info.wf() && list[i].info.full_path is None
}

/// Every record is a well-formed snapshot of a search result: it carries its
/// absolute path.
pub open spec fn is_search_result(list: Seq<DisplayFileView>) -> bool {
    forall|i: int|
        0 <= i < list.len() ==> (#[trigger] list[i]).info.wf() && list[i].info.full_path is Some
}

/// No record is selected.
pub open spec fn none_selected(list: Seq<DisplayFileView>) -> bool {
    forall|i: int| 0 <= i < list.len() ==> !(#[trigger] list[i]).selected
}

/// The state of the browser as a mathematical value.
pub struct AppView {
    pub history: HistoryView,
    /// The listing of a directory.
    pub file_list: Seq<DisplayFileView>,
    /// The results of the last search.
    pub search_results: Seq<DisplayFileView>,
    /// Whether the results of the search are shown in place of the listing.
    pub is_searching: bool,
    /// The term of the last search, as the search box holds it; empty when
    /// the search was left.
    pub search_term: Seq<char>,
    pub selection: SelectionView,
}

impl AppView {
    /// The state in which the browser starts in the directory `start_dir`.
    pub open spec fn start(start_dir: Seq<char>) -> AppView {
        AppView {
            history: HistoryView::start(start_dir),
            file_list: Seq::empty(),
            search_results: Seq::empty(),
            is_searching: false,
            search_term: Seq::empty(),
            selection: SelectionView { selected: Seq::empty(), pivot: None, last: None },
        }
    }

    /// The list that is shown.
    pub open spec fn active(self) -> Seq<DisplayFileView> {
        if self.is_searching {
            self.search_results
        } else {
            self.file_list
        }
    }

    /// The list that is not shown.
    pub open spec fn hidden(self) -> Seq<DisplayFileView> {
        if self.is_searching {
            self.file_list
        } else {
            self.search_results
        }
    }

    /// This state with `shown` as the list that is shown and `hidden` as the
    /// other.
    pub open spec fn with_lists(
        self,
        shown: Seq<DisplayFileView>,
        hidden: Seq<DisplayFileView>,
    ) -> AppView {
        if self.is_searching {
            AppView { search_results: shown, file_list: hidden, ..self }
        } else {
            AppView { file_list: shown, search_results: hidden, ..self }
        }
    }

    /// The list that is shown, with the selection made in it.
    pub open spec fn pane(self) -> Pane {
        Pane { records: self.active(), selection: self.selection }
    }

    /// The history has a current entry, the two lists hold what their kind
    /// of list holds, and in both every record that is flagged as selected has
    /// its identity in the selection.
    pub open spec fn wf(self) -> bool {
        &&& self.history.wf()
        &&& is_listing(self.file_list)
        &&& is_search_result(self.search_results)
        &&& (Pane { records: self.file_list, selection: self.selection }).covered()
        &&& (Pane { records: self.search_results, selection: self.selection }).covered()
    }

    /// The state after the listing `records` of the directory `dir` has come
    /// in: it replaces the listing if `dir` is still the current directory.
    pub open spec fn listed(self, dir: Seq<char>, records: Seq<DisplayFileView>) -> AppView {
        if dir == self.history.current_dir() {
            AppView { file_list: records, ..self }
        } else {
            self
        }
    }

    /// The state after the results `records` of the search for `term` below
    /// `dir` have come in: if `dir` is still the current directory and `term`
    /// the term of the last search, they replace the results and are shown.
    pub open spec fn searched(
        self,
        dir: Seq<char>,
        term: Seq<char>,
        records: Seq<DisplayFileView>,
    ) -> AppView {
        if dir == self.history.current_dir() && term == self.search_term {
            AppView { search_results: records, is_searching: true, ..self }
        } else {
            self
        }
    }

    /// The state in which nothing is selected: the records of the selection
    /// are deselected in both lists and the selection is empty. The pivot
    /// stays.
    pub open spec fn unselected(self) -> AppView {
        AppView {
            file_list: deselected(self.file_list, self.selection.selected),
            search_results: deselected(self.search_results, self.selection.selected),
            selection: SelectionView { selected: Seq::empty(), ..self.selection },
            ..self
        }
    }

    /// The state after the search was left: the listing is shown and the
    /// search box is empty.
    pub open spec fn search_left(self) -> AppView {
        AppView { is_searching: false, search_term: Seq::empty(), ..self }
    }

    /// The state after a click on the record at `idx` of the list that is
    /// shown, with the modifiers `m`. The click acts on the shown list as
    /// [`Pane::click`] says. Where it does away with the old selection, the
    /// records of that selection are deselected in the other list too.
    pub open spec fn clicked(self, idx: int, m: Modifiers) -> AppView {
        let after = self.pane().click(idx, m);
        let hidden = if self.pane().replaces(m) {
            deselected(self.hidden(), self.selection.selected)
        } else {
            self.hidden()
        };
        AppView { selection: after.selection, ..self.with_lists(after.records, hidden) }
    }

    /// The absolute path of a record of the list that is shown: the path that
    /// a search result carries, and for a record of the listing the path of
    /// its name in the current directory.
    pub open spec fn resolved(self, record: DisplayFileView) -> Seq<char> {
        if self.is_searching {
            record.info.full_path->0
        } else {
            joined(self.history.current_dir(), record.info.name)
        }
    }

    /// The state after the record at `idx` of the shown list was activated.
    /// A folder of the listing is entered and the selection cleared. A folder
    /// among the search results ends the search and becomes the current
    /// directory. Nothing changes for a file or a symbolic link.
    pub open spec fn activated(self, idx: int) -> AppView {
        let info = self.active()[idx].info;
        match info.file_type {
            FileType::Folder => if self.is_searching {
                AppView {
                    history: self.history.navigate_to(info.full_path->0),
                    ..self.search_left()
                }
            } else {
                AppView { history: self.history.enter_dir(info.name), ..self.unselected() }
            },
            _ => self,
        }
    }

    /// What the activation of the record at `idx` of the shown list asks for:
    /// the listing of the folder that was entered, the opening of a file, the
    /// reset of the search box after a folder among the search results, and
    /// nothing for a symbolic link.
    pub open spec fn activation(self, idx: int) -> ActionView {
        let record = self.active()[idx];
        match record.info.file_type {
            FileType::Folder => if self.is_searching {
                ActionView::ResetSearchBox
            } else {
                ActionView::ListDirectory { dir: self.activated(idx).history.current_dir() }
            },
            FileType::File => ActionView::OpenFile { path: self.resolved(record) },
            FileType::SymLink => ActionView::Nothing,
        }
    }

    /// The identities on which a deletion acts: those of the selection, each
    /// once.
    pub open spec fn doomed_ids(self) -> Seq<u128> {
        distinct(self.selection.selected)
    }

    /// The records that a deletion takes out of the shown list: for each
    /// identity of the selection the first record that has it.
    pub open spec fn doomed(self) -> Seq<DisplayFileView> {
        taken(self.active(), self.doomed_ids())
    }

    /// The state after the selected records were deleted: they are gone from
    /// the list that is shown. Nothing else changes.
    pub open spec fn deleted(self) -> AppView {
        self.with_lists(without_all(self.active(), self.doomed_ids()), self.hidden())
    }

    /// The paths that a deletion hands to the file system: the absolute paths
    /// of the records that it takes out, in the order of the selection.
    pub open spec fn deletion_paths(self) -> Seq<Seq<char>> {
        Seq::new(self.doomed().len(), |k: int| self.resolved(self.doomed()[k]))
    }

    /// The state after the key with the code `code` went down: Escape leaves
    /// the search, Delete deletes the selected records, and no other key
    /// changes the state.
    pub open spec fn key_pressed(self, code: Seq<char>) -> AppView {
        if code == "Escape"@ {
            self.search_left()
        } else if code == "Delete"@ {
            self.deleted()
        } else {
            self
        }
    }

    /// What the key with the code `code` asks for when it goes down.
    pub open spec fn key_action(self, code: Seq<char>) -> ActionView {
        if code == "Escape"@ {
            ActionView::ResetSearchBox
        } else if code == "Delete"@ {
            ActionView::DeleteFiles { paths: self.deletion_paths() }
        } else {
            ActionView::Nothing
        }
    }

    /// The state after Back: out of the search if the results were shown, and
    /// else one entry back in the history.
    pub open spec fn gone_back(self) -> AppView {
        if self.is_searching {
            self.search_left()
        } else {
            AppView { history: self.history.back(), ..self }
        }
    }

    /// What Back asks for: the reset of the search box out of the search, and
    /// else the listing of the directory that it returns to.
    pub open spec fn back_action(self) -> ActionView {
        if self.is_searching {
            ActionView::ResetSearchBox
        } else {
            ActionView::ListDirectory { dir: self.history.back().current_dir() }
        }
    }

    /// The state after Forward: one entry forward in the history.
    pub open spec fn gone_forward(self) -> AppView {
        AppView { history: self.history.forward(), ..self }
    }
}

/// The state of the browser.
#[derive(Debug)]
pub struct App {
    history: History,
    file_list: Vec<DisplayFile>,
    search_results: Vec<DisplayFile>,
    is_searching: bool,
    search_term: String,
    selection: Selection,
}

impl View for App {
    type V = AppView;

    closed spec fn view(&self) -> AppView {
        AppView {
            history: self.history@,
            file_list: views(self.file_list@),
            search_results: views(self.search_results@),
            is_searching: self.is_searching,
            search_term: self.search_term@,
            selection: self.selection@,
        }
    }
}

impl App {
    /// The browser in the directory `start_dir`, before anything is listed.
    pub fn new(start_dir: String) -> (app: App)
        ensures
            app@ == AppView::start(start_dir@),
            app@.wf(),
    {
        let app = App {
            history: History::new(start_dir),
            file_list: Vec::new(),
            search_results: Vec::new(),
            is_searching: false,
            search_term: String::new(),
            selection: Selection::new(),
        };
        assert(app@.file_list =~= Seq::empty());
        assert(app@.search_results =~= Seq::empty());
        assert(app@.selection.selected =~= Seq::empty());
        app
    }

    /// The history of visited directories.
    pub fn history(&self) -> (history: &History)
        ensures
            history@ == self@.history,
    {
        &self.history
    }

    /// The listing of a directory.
    pub fn file_list(&self) -> (list: &Vec<DisplayFile>)
        ensures
            views(list@) == self@.file_list,
    {
        &self.file_list
    }

    /// The results of the last search.
    pub fn search_results(&self) -> (list: &Vec<DisplayFile>)
        ensures
            views(list@) == self@.search_results,
    {
        &self.search_results
    }

    /// The list that is shown: the results of the search while searching, the
    /// listing otherwise.
    pub fn active_list(&self) -> (list: &Vec<DisplayFile>)
        ensures
            views(list@) == self@.active(),
    {
        if self.is_searching {
            &self.search_results
        } else {
            &self.file_list
        }
    }

    /// Whether the results of the search are shown.
    pub fn is_searching(&self) -> (searching: bool)
        ensures
            searching == self@.is_searching,
    {
        self.is_searching
    }

    /// The term of the last search; empty when the search was left.
    pub fn search_term(&self) -> (term: &String)
        ensures
            term@ == self@.search_term,
    {
        &self.search_term
    }

    /// The selection.
    pub fn selection(&self) -> (selection: &Selection)
        ensures
            selection@ == self@.selection,
    {
        &self.selection
    }

    /// Asks for the listing of the current directory.
    pub fn load_current_directory(&self) -> (action: Action)
        requires
            self@.wf(),
        ensures
            action@ == (ActionView::ListDirectory { dir: self@.history.current_dir() }),
    {
        Action::ListDirectory { dir: self.history.current_dir() }
    }

    /// Takes the listing of the directory `dir`, already wrapped into records.
    /// The listing is shown if `dir` is still the current directory; it is
    /// dropped, and `false` returned, if the browser has moved on.
    pub fn show_listing(&mut self, dir: &String, records: Vec<DisplayFile>) -> (shown: bool)
        requires
            old(self)@.wf(),
            is_listing(views(records@)),
            none_selected(views(records@)),
        ensures
            shown == (dir@ == old(self)@.history.current_dir()),
            final(self)@ == old(self)@.listed(dir@, views(records@)),
            final(self)@.wf(),
    {
        let current = self.history.current_dir();
        if *dir == current {
            self.file_list = records;
            true
        } else {
            false
        }
    }

    /// Takes the entries of the directory `dir` as the file system listed them,
    /// wraps each into a record with an identity of its own, and shows them
    /// as [`App::show_listing`] does.
    pub fn directory_listed(&mut self, dir: &String, entries: Vec<FileInfo>) -> (shown: bool)
        requires
            old(self)@.wf(),
            forall|i: int|
                0 <= i < entries@.len() ==> (#[trigger] entries@[i])@.wf()
                    && entries@[i]@.full_path is None,
        ensures
            shown == (dir@ == old(self)@.history.current_dir()),
            final(self)@.wf(),
            final(self)@.history == old(self)@.history,
            final(self)@.search_results == old(self)@.search_results,
            final(self)@.is_searching == old(self)@.is_searching,
            final(self)@.search_term == old(self)@.search_term,
            final(self)@.selection == old(self)@.selection,
            !shown ==> final(self)@.file_list == old(self)@.file_list,
            shown ==> final(self)@.file_list.len() == entries@.len() && forall|i: int|
                0 <= i < entries@.len() ==> (#[trigger] final(self)@.file_list[i]).info
                    == entries@[i]@ && !final(self)@.file_list[i].selected,
    {
        let records = wrap(entries);
        self.show_listing(dir, records)
    }

    /// Takes the search for `term`: the term is remembered as the one that
    /// the search box holds, and the search for it below the current directory
    /// is asked for.
    pub fn search(&mut self, term: String) -> (action: Action)
        requires
            old(self)@.wf(),
        ensures
            final(self)@ == (AppView { search_term: term@, ..old(self)@ }),
            action@ == (ActionView::Search {
                dir: old(self)@.history.current_dir(),
                term: term@,
            }),
            final(self)@.wf(),
    {
        let action = Action::Search { dir: self.history.current_dir(), term: term.clone() };
        self.search_term = term;
        action
    }

    /// Takes the results of the search for `term` below `dir`, already wrapped
    /// into records. They are shown in place of the listing if `dir` is still
    /// the current directory and `term` the term of the last search; they are
    /// dropped, and `false` returned, if not.
    pub fn show_search_results(
        &mut self,
        dir: &String,
        term: &String,
        records: Vec<DisplayFile>,
    ) -> (shown: bool)
        requires
            old(self)@.wf(),
            is_search_result(views(records@)),
            none_selected(views(records@)),
        ensures
            shown == (dir@ == old(self)@.history.current_dir() && term@ == old(
                self,
            )@.search_term),
            final(self)@ == old(self)@.searched(dir@, term@, views(records@)),
            final(self)@.wf(),
    {
        let current = self.history.current_dir();
        if *dir == current && *term == self.search_term {
            self.search_results = records;
            self.is_searching = true;
            true
        } else {
            false
        }
    }

    /// Takes the entries that the search for `term` below `dir` found, wraps
    /// each into a record with an identity of its own, and shows them as
    /// [`App::show_search_results`] does.
    pub fn search_finished(&mut self, dir: &String, term: &String, entries: Vec<FileInfo>) -> (shown:
        bool)
        requires
            old(self)@.wf(),
            forall|i: int|
                0 <= i < entries@.len() ==> (#[trigger] entries@[i])@.wf()
                    && entries@[i]@.full_path is Some,
        ensures
            shown == (dir@ == old(self)@.history.current_dir() && term@ == old(
                self,
            )@.search_term),
            final(self)@.wf(),
            final(self)@.history == old(self)@.history,
            final(self)@.file_list == old(self)@.file_list,
            final(self)@.search_term == old(self)@.search_term,
            final(self)@.selection == old(self)@.selection,
            !shown ==> final(self)@ == old(self)@,
            shown ==> final(self)@.is_searching && final(self)@.search_results.len()
                == entries@.len() && forall|i: int|
                0 <= i < entries@.len() ==> (#[trigger] final(self)@.search_results[i]).info
                    == entries@[i]@ && !final(self)@.search_results[i].selected,
    {
        let records = wrap(entries);
        self.show_search_results(dir, term, records)
    }

    /// Leaves the search: the listing is shown again and the search box is
    /// emptied.
    pub fn leave_search(&mut self) -> (action: Action)
        requires
            old(self)@.wf(),
        ensures
            final(self)@ == old(self)@.search_left(),
            final(self)@.wf(),
            action@ == ActionView::ResetSearchBox,
    {
        self.is_searching = false;
        self.search_term = String::new();
        Action::ResetSearchBox
    }

    /// Whether a click on the record at `idx` of the shown list, with the
    /// modifiers `modifiers`, can be made: the record exists, and so does the
    /// pivot where the click spans a range from it.
    pub fn can_select(&self, idx: usize, modifiers: Modifiers) -> (ok: bool)
        ensures
            ok == self@.pane().accepts(idx as int, modifiers),
    {
        let len: usize = if self.is_searching {
            self.search_results.len()
        } else {
            self.file_list.len()
        };
        self.selection.accepts(len, idx, modifiers)
    }

    /// Takes a click on the record at `idx` of the list that is shown, made
    /// with the modifiers `modifiers`.
    pub fn select_file(&mut self, idx: usize, modifiers: Modifiers)
        requires
            old(self)@.wf(),
            old(self)@.pane().accepts(idx as int, modifiers),
        ensures
            final(self)@ == old(self)@.clicked(idx as int, modifiers),
            final(self)@.wf(),
    {
        let replaces = if modifiers.shift_key {
            self.selection.shift_select_pivot.is_none() || !modifiers.ctrl_key
        } else {
            !modifiers.ctrl_key
        };
        proof {
            lemma_click_keeps_flags_covered(old(self)@.pane(), idx as int, modifiers);
        }
        if self.is_searching {
            if replaces {
                deselect_all(&mut self.file_list, &self.selection.selected_files);
            }
            select_file(&mut self.search_results, &mut self.selection, idx, modifiers);
        } else {
            if replaces {
                deselect_all(&mut self.search_results, &self.selection.selected_files);
            }
            select_file(&mut self.file_list, &mut self.selection, idx, modifiers);
        }
        proof {
            lemma_click_keeps_lists(old(self)@, idx as int, modifiers);
        }
    }

    /// Deselects the records of the selection and empties it.
    fn clear_selection(&mut self)
        requires
            old(self)@.wf(),
        ensures
            final(self)@ == old(self)@.unselected(),
            final(self)@.wf(),
    {
        deselect_all(&mut self.file_list, &self.selection.selected_files);
        deselect_all(&mut self.search_results, &self.selection.selected_files);
        self.selection.selected_files.clear();
        proof {
            lemma_unselected_is_wf(old(self)@);
        }
    }

    /// Takes the activation (a double click, or Enter) of the record at `idx`
    /// of the list that is shown, and says what it asks for.
    pub fn activate(&mut self, idx: usize) -> (action: Action)
        requires
            old(self)@.wf(),
            idx < old(self)@.active().len(),
        ensures
            final(self)@ == old(self)@.activated(idx as int),
            action@ == old(self)@.activation(idx as int),
            final(self)@.wf(),
    {
        if !self.is_searching {
            assert(old(self)@.active()[idx as int] == self.file_list@[idx as int]@);
            match self.file_list[idx].info.file_type {
                FileType::Folder => {
                    let name = self.file_list[idx].info.name.clone();
                    self.history.enter_dir(name);
                    self.clear_selection();
                    Action::ListDirectory { dir: self.history.current_dir() }
                },
                FileType::File => {
                    let dir = self.history.current_dir();
                    Action::OpenFile { path: child_path(&dir, &self.file_list[idx].info.name) }
                },
                FileType::SymLink => Action::Nothing,
            }
        } else {
            assert(old(self)@.active()[idx as int] == self.search_results@[idx as int]@);
            match self.search_results[idx].info.file_type {
                FileType::Folder => {
                    let path = self.search_results[idx].info.full_path.as_ref().unwrap().clone();
                    self.is_searching = false;
                    self.search_term = String::new();
                    self.history.navigate_to(path);
                    Action::ResetSearchBox
                },
                FileType::File => {
                    let path = self.search_results[idx].info.full_path.as_ref().unwrap().clone();
                    Action::OpenFile { path }
                },
                FileType::SymLink => Action::Nothing,
            }
        }
    }

    /// Deletes the selected records: each identity of the selection takes the
    /// first record that has it out of the list that is shown, once, however
    /// often it stands in the selection. The paths of the records that were
    /// taken out are handed to the caller, who moves the files to the trash.
    /// The records leave the list before the file system has answered.
    pub fn delete_selected(&mut self) -> (action: Action)
        requires
            old(self)@.wf(),
        ensures
            final(self)@ == old(self)@.deleted(),
            action@ == (ActionView::DeleteFiles { paths: old(self)@.deletion_paths() }),
            final(self)@.wf(),
    {
        let ids = dedup_ids(&self.selection.selected_files);
        let removed = if self.is_searching {
            remove_by_ids(&mut self.search_results, &ids)
        } else {
            remove_by_ids(&mut self.file_list, &ids)
        };
        proof {
            lemma_removal_stays_within_list(old(self)@.active(), ids@);
            lemma_deleted_is_wf(old(self)@);
        }
        let current = self.history.current_dir();
        let mut paths: Vec<String> = Vec::new();
        let mut k: usize = 0;
        while k < removed.len()
            invariant
                k <= removed@.len(),
                views(removed@) == old(self)@.doomed(),
                old(self)@.wf(),
                self.is_searching == old(self)@.is_searching,
                current@ == old(self)@.history.current_dir(),
                forall|j: int|
                    0 <= j < removed@.len() ==> old(self)@.active().contains(
                        #[trigger] views(removed@)[j],
                    ),
                paths@.len() == k,
                forall|j: int|
                    0 <= j < k ==> (#[trigger] paths@[j])@ == old(self)@.resolved(
                        old(self)@.doomed()[j],
                    ),
            decreases removed@.len() - k,
        {
            assert(views(removed@)[k as int] == removed@[k as int]@);
            assert(old(self)@.active().contains(views(removed@)[k as int]));
            let path = if self.is_searching {
                removed[k].info.full_path.as_ref().unwrap().clone()
            } else {
                child_path(&current, &removed[k].info.name)
            };
            paths.push(path);
            k += 1;
        }
        let action = Action::DeleteFiles { paths };
        assert(action@->DeleteFiles_paths =~= old(self)@.deletion_paths());
        action
    }

    /// Takes a key that went down in the window, with its value `key`, its
    /// code `code` and the state of Ctrl. A key that types a character moves
    /// the focus to the search box. Escape leaves the search. Delete deletes
    /// the selected records. The reserved keys are kept from their default
    /// effect and do nothing else.
    pub fn key_down(&mut self, key: &str, code: &str, ctrl_key: bool) -> (response: KeyResponse)
        requires
            old(self)@.wf(),
        ensures
            response.focus_search == types_a_character(key@),
            response.prevent_default == is_reserved(key@, code@, ctrl_key),
            response.action@ == old(self)@.key_action(code@),
            final(self)@ == old(self)@.key_pressed(code@),
            final(self)@.wf(),
    {
        let focus_search = key.unicode_len() == 1;
        let prevent_default = same_text(code, "F3") || ((same_text(key, "f") || same_text(
            code,
            "KeyG",
        )) && ctrl_key);
        let action = if same_text(code, "Escape") {
            self.leave_search()
        } else if same_text(code, "Delete") {
            self.delete_selected()
        } else {
            Action::Nothing
        };
        KeyResponse { focus_search, prevent_default, action }
    }

    /// Takes a click on Back. It leaves the search if the results are shown;
    /// otherwise it steps back in the history and asks for the listing of the
    /// directory that it returns to.
    pub fn go_back(&mut self) -> (action: Action)
        requires
            old(self)@.wf(),
            old(self)@.is_searching || old(self)@.history.can_go_back(),
        ensures
            final(self)@ == old(self)@.gone_back(),
            action@ == old(self)@.back_action(),
            final(self)@.wf(),
    {
        if self.is_searching {
            self.leave_search()
        } else {
            self.history.back();
            self.load_current_directory()
        }
    }

    /// Takes a click on Forward: it steps forward in the history and asks for
    /// the listing of the directory that it reaches.
    pub fn go_forward(&mut self) -> (action: Action)
        requires
            old(self)@.wf(),
            old(self)@.history.can_go_forward(),
        ensures
            final(self)@ == old(self)@.gone_forward(),
            action@ == (ActionView::ListDirectory {
                dir: old(self)@.history.forward().current_dir(),
            }),
            final(self)@.wf(),
    {
        self.history.forward();
        self.load_current_directory()
    }
}

/// Deselecting the records of the selection changes no snapshot.
proof fn lemma_deselected_keeps_infos(list: Seq<DisplayFileView>, ids: Seq<u128>)
    ensures
        is_listing(list) ==> is_listing(deselected(list, ids)),
        is_search_result(list) ==> is_search_result(deselected(list, ids)),
        (Pane {
            records: list,
            selection: SelectionView { selected: ids, pivot: None, last: None },
        }).covered() ==> none_selected(deselected(list, ids)),
{
    let cleared = deselected(list, ids);
    assert forall|i: int| 0 <= i < cleared.len() implies (#[trigger] cleared[i]).info
        == list[i].info by {}
    if is_listing(list) {
        assert forall|i: int| 0 <= i < cleared.len() implies (#[trigger] cleared[i]).info.wf()
            && cleared[i].info.full_path is None by {
            assert(list[i].info.wf());
        }
    }
    if is_search_result(list) {
        assert forall|i: int| 0 <= i < cleared.len() implies (#[trigger] cleared[i]).info.wf()
            && cleared[i].info.full_path is Some by {
            assert(list[i].info.wf());
        }
    }
    if (Pane {
        records: list,
        selection: SelectionView { selected: ids, pivot: None, last: None },
    }).covered() {
        assert forall|i: int| 0 <= i < cleared.len() implies !(#[trigger] cleared[i]).selected by {
            if !ids.contains(list[i].id) {
                assert(!list[i].selected);
            }
        }
    }
}

/// Clearing the selection of a well-formed state gives a well-formed state in
/// which no record is selected.
pub proof fn lemma_unselected_is_wf(app: AppView)
    requires
        app.wf(),
    ensures
        app.unselected().wf(),
        none_selected(app.unselected().file_list),
        none_selected(app.unselected().search_results),
{
    let ids = app.selection.selected;
    lemma_deselected_keeps_infos(app.file_list, ids);
    lemma_deselected_keeps_infos(app.search_results, ids);
    assert((Pane {
        records: app.file_list,
        selection: SelectionView { selected: ids, pivot: None, last: None },
    }).covered());
    assert((Pane {
        records: app.search_results,
        selection: SelectionView { selected: ids, pivot: None, last: None },
    }).covered());
}

/// A click in a well-formed state gives a well-formed state: it changes no
/// snapshot, and in both lists every record that is flagged as selected has
/// its identity in the new selection.
pub proof fn lemma_click_keeps_lists(app: AppView, idx: int, m: Modifiers)
    requires
        app.wf(),
        app.pane().accepts(idx, m),
    ensures
        app.clicked(idx, m).wf(),
{
    let pane = app.pane();
    let after = pane.click(idx, m);
    let ids = app.selection.selected;
    lemma_click_keeps_flags_covered(pane, idx, m);
    lemma_deselected_keeps_infos(app.active(), ids);
    lemma_deselected_keeps_infos(app.hidden(), ids);
    assert(pane.covered());
    assert forall|i: int| 0 <= i < after.records.len() implies (#[trigger] after.records[i]).info
        == app.active()[i].info by {}
    let result = app.clicked(idx, m);
    let hidden = if app.is_searching {
        result.file_list
    } else {
        result.search_results
    };
    assert((Pane { records: hidden, selection: result.selection }).covered()) by {
        if pane.replaces(m) {
            assert((Pane {
                records: app.hidden(),
                selection: SelectionView { selected: ids, pivot: None, last: None },
            }).covered());
            assert(none_selected(hidden));
        } else {
            assert forall|i: int| 0 <= i < hidden.len() && (#[trigger] hidden[i]).selected
                implies result.selection.selected.contains(hidden[i].id) by {
                assert(ids.contains(hidden[i].id));
                let k = choose|k: int| 0 <= k < ids.len() && ids[k] == hidden[i].id;
                assert(result.selection.selected[k] == hidden[i].id);
            }
        }
    }
    if app.is_searching {
        assert forall|i: int| 0 <= i < result.search_results.len() implies (
        #[trigger] result.search_results[i]).info.wf() && result.search_results[i].info.full_path
            is Some by {
            assert(app.search_results[i].info.wf());
        }
        assert(is_listing(result.file_list));
    } else {
        assert forall|i: int| 0 <= i < result.file_list.len() implies (
        #[trigger] result.file_list[i]).info.wf() && result.file_list[i].info.full_path
            is None by {
            assert(app.file_list[i].info.wf());
        }
        assert(is_search_result(result.search_results));
    }
}

/// Deleting the selected records of a well-formed state gives a well-formed
/// state.
pub proof fn lemma_deleted_is_wf(app: AppView)
    requires
        app.wf(),
    ensures
        app.deleted().wf(),
{
    let left = without_all(app.active(), app.doomed_ids());
    lemma_removal_stays_within_list(app.active(), app.doomed_ids());
    assert forall|k: int| 0 <= k < left.len() implies app.active().contains(
        #[trigger] left[k],
    ) by {}
    assert forall|k: int| 0 <= k < left.len() implies (#[trigger] left[k]).info.wf() && (
    left[k].selected ==> app.selection.selected.contains(left[k].id)) && (left[k].info.full_path
        is Some <==> app.is_searching) by {
        assert(app.active().contains(left[k]));
        let i = choose|i: int| 0 <= i < app.active().len() && app.active()[i] == left[k];
        assert(app.active()[i].info.wf());
    }
}

/// A click changes the list that is shown, and the selection, as the click
/// on a pane says, and moves nothing else but the flags of the other list.
pub proof fn lemma_click_acts_on_the_pane(app: AppView, idx: int, m: Modifiers)
    ensures
        app.clicked(idx, m).pane() == app.pane().click(idx, m),
        app.clicked(idx, m).history == app.history,
        app.clicked(idx, m).is_searching == app.is_searching,
        app.clicked(idx, m).search_term == app.search_term,
{
}

/// A deletion acts on each identity of the selection once, however often the
/// identity stands there. Each identity that a record of the shown list has
/// takes out one record, the first that has it; the others take out none. For
/// each record taken out one path is handed on, and the shown list is shorter
/// by as many records.
pub proof fn lemma_deletion_takes_each_match_once(app: AppView)
    requires
        app.wf(),
    ensures
        app.doomed_ids().no_duplicates(),
        forall|id: u128| app.doomed_ids().contains(id) <==> app.selection.selected.contains(id),
        app.doomed().len() == matching(app.active(), app.doomed_ids()).len(),
        forall|k: int|
            0 <= k < app.doomed().len() ==> #[trigger] app.doomed()[k] == app.active()[first_index(
                app.active(),
                matching(app.active(), app.doomed_ids())[k],
            )],
        app.deletion_paths().len() == app.doomed().len(),
        app.deleted().active().len() + app.doomed().len() == app.active().len(),
        app.deleted().hidden() == app.hidden(),
        app.deleted().selection == app.selection,
        app.deleted().history == app.history,
{
    lemma_distinct(app.selection.selected);
    lemma_each_match_is_taken_once(app.active(), app.doomed_ids());
}

} // verus!
