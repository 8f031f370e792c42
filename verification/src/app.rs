//! The browser's state and the operations that change it.
//!
//! The state never reads the file system. Where an operation depends on what
//! a directory holds or on whether a path is a directory, the caller reads
//! that and hands it in.

use crate::cursor::{cursor_of, first_or_none, move_down, move_up, reset};
use crate::filter::{filter_entries, visible_of};
use crate::listing::{
    arrange, arranged, is_arranged, lemma_arranged_is_in_order, models, Entry, EntryModel,
};
use crate::model::{root, target_of, AppModel};
use crate::path::{parent, parent_of};
use ratatui::widgets::ListState;
use vstd::prelude::*;

verus! {

/// The state of the browser: the directory it stands in, that directory's
/// listing, the filter query, the entries that the query lets through, and
/// the cursor among them.
pub struct App {
    current_dir: String,
    all_items: Vec<Entry>,
    items: Vec<Entry>,
    state: ListState,
    search_query: String,
}

/// The directory in which the browser starts: the working directory, or the
/// root of the file system where the working directory is not to be had.
pub fn start_dir(working_dir: Option<String>) -> (dir: String)
    ensures
        dir@ == (match working_dir {
            Some(wd) => wd@,
            None => root(),
        }),
{
    match working_dir {
        Some(wd) => wd,
        None => {
            proof {
                reveal_strlit("/");
                assert("/"@ =~= root());
            }
            "/".to_owned()
        },
    }
}

/// The directory that a selection stands for, as `target_of` defines it.
pub fn target_dir(
    selected: Option<&Entry>,
    is_dir: bool,
    parent: Option<String>,
    current_dir: &str,
) -> (dir: String)
    ensures
        dir@ == target_of(
            match selected {
                Some(entry) => Some(entry@),
                None => None,
            },
            is_dir,
            match parent {
                Some(up) => Some(up@),
                None => None,
            },
            current_dir@,
        ),
{
    match selected {
        Some(entry) => {
            if is_dir {
                entry.path.clone()
            } else {
                match parent {
                    Some(up) => up,
                    None => current_dir.to_owned(),
                }
            }
        },
        None => current_dir.to_owned(),
    }
}

impl View for App {
    type V = AppModel;

    closed spec fn view(&self) -> AppModel {
        AppModel {
            current_dir: self.current_dir@,
            listing: models(self.all_items@),
            visible: models(self.items@),
            cursor: cursor_of(self.state),
            query: self.search_query@,
        }
    }
}

impl App {
    #[verifier::type_invariant]
    pub(crate) open spec fn well_formed(self) -> bool {
        self@.consistent()
    }

    /// A browser in a directory without a name that holds nothing.
    fn blank() -> (app: App)
        ensures
            app@ == AppModel::opened(Seq::empty(), Seq::empty()),
    {
        let app = App {
            current_dir: String::new(),
            all_items: Vec::new(),
            items: Vec::new(),
            state: ListState::default(),
            search_query: String::new(),
        };
        proof {
            lemma_arranged_is_in_order(Seq::empty());
            assert(arranged(Seq::empty()) =~= Seq::<EntryModel>::empty());
            assert(app@.listing =~= Seq::empty());
            assert(app@.visible =~= Seq::empty());
        }
        app
    }

    /// Takes the state out and leaves a blank one in its place.
    fn take(&mut self) -> (taken: App)
        ensures
            taken@ == old(self)@,
            taken@.consistent(),
    {
        let mut taken = App::blank();
        core::mem::swap(self, &mut taken);
        proof {
            use_type_invariant(&taken);
        }
        taken
    }

    /// Puts a state together from a directory, its listing, and a query: the
    /// visible entries are filtered out of the listing, and the cursor goes
    /// to the first of them.
    fn assemble(current_dir: String, all_items: Vec<Entry>, search_query: String) -> (app: App)
        requires
            is_arranged(models(all_items@)),
        ensures
            app@.current_dir == current_dir@,
            app@.listing == models(all_items@),
            app@.query == search_query@,
            app@.visible == visible_of(app@.listing, app@.query),
            app@.cursor == first_or_none(app@.visible.len()),
    {
        let items = filter_entries(&all_items, search_query.as_str());
        let mut state = ListState::default();
        reset(&mut state, items.len());
        App { current_dir, all_items, items, state, search_query }
    }

    /// The browser at its start: in `current_dir`, which holds `entries`,
    /// with no filter.
    pub fn new(current_dir: String, entries: Vec<Entry>) -> (app: App)
        ensures
            app@ == AppModel::opened(current_dir@, models(entries@)),
            app@.listing.len() == entries@.len(),
            app@.consistent(),
    {
        proof {
            lemma_arranged_is_in_order(models(entries@));
        }
        App::assemble(current_dir, arrange(entries), String::new())
    }

    /// Takes `entries` as what the current directory holds now: their
    /// listing replaces the old one, the filter is applied to it, and the
    /// cursor goes to the first visible entry.
    pub fn load_directories(&mut self, entries: Vec<Entry>)
        ensures
            final(self)@ == old(self)@.reloaded(models(entries@)),
            final(self)@.listing.len() == entries@.len(),
            final(self)@.consistent(),
    {
        proof {
            lemma_arranged_is_in_order(models(entries@));
        }
        let App { current_dir, all_items: _, items: _, state: _, search_query } = self.take();
        *self = App::assemble(current_dir, arrange(entries), search_query);
    }

    /// Works the visible entries out of the listing and the query again, and
    /// puts the cursor on the first of them.
    pub fn apply_search(&mut self)
        ensures
            final(self)@ == old(self)@.filtered(old(self)@.query),
            final(self)@.visible == old(self)@.visible,
            final(self)@.consistent(),
    {
        let App { current_dir, all_items, items: _, state: _, search_query } = self.take();
        *self = App::assemble(current_dir, all_items, search_query);
    }

    /// Makes `query` the filter query, as it is given.
    pub fn set_filter(&mut self, query: String)
        ensures
            final(self)@ == old(self)@.filtered(query@),
            final(self)@.consistent(),
    {
        let App { current_dir, all_items, items: _, state: _, search_query: _ } = self.take();
        *self = App::assemble(current_dir, all_items, query);
    }

    /// Adds `c` to the end of the filter query.
    pub fn append_to_filter(&mut self, c: char)
        ensures
            final(self)@ == old(self)@.filtered(old(self)@.query.push(c)),
            final(self)@.consistent(),
    {
        let App { current_dir, all_items, items: _, state: _, search_query } = self.take();
        let mut query = search_query;
        query.push(c);
        *self = App::assemble(current_dir, all_items, query);
    }

    /// Takes the last character off the filter query. An empty query stays
    /// as it is, and so does everything else.
    pub fn remove_last_filter_char(&mut self)
        ensures
            final(self)@ == old(self)@.shortened(),
            final(self)@.consistent(),
    {
        proof {
            use_type_invariant(&*self);
        }
        if self.search_query.as_str().is_empty() {
            return;
        }
        let App { current_dir, all_items, items: _, state: _, search_query } = self.take();
        let mut query = search_query;
        let _ = query.pop();
        *self = App::assemble(current_dir, all_items, query);
    }

    /// Moves the cursor one entry down; on the last entry it stays.
    pub fn next(&mut self)
        ensures
            final(self)@ == old(self)@.moved_down(),
            final(self)@.consistent(),
    {
        proof {
            use_type_invariant(&*self);
        }
        let mut state = self.state;
        move_down(&mut state, self.items.len());
        self.state = state;
    }

    /// Moves the cursor one entry up; on the first entry it stays.
    pub fn previous(&mut self)
        ensures
            final(self)@ == old(self)@.moved_up(),
            final(self)@.consistent(),
    {
        proof {
            use_type_invariant(&*self);
        }
        let mut state = self.state;
        move_up(&mut state);
        self.state = state;
    }

    /// Moves to the directory `dir`, which holds `entries`: the filter is
    /// cleared, the listing is that of the entries, and the cursor goes to
    /// the first of them.
    pub fn change_directory(&mut self, dir: String, entries: Vec<Entry>)
        ensures
            final(self)@ == AppModel::opened(dir@, models(entries@)),
            final(self)@.listing.len() == entries@.len(),
            final(self)@.consistent(),
    {
        proof {
            lemma_arranged_is_in_order(models(entries@));
        }
        *self = App::assemble(dir, arrange(entries), String::new());
    }

    /// The parent of the current directory, if it has one.
    pub fn parent_dir(&self) -> (dir: Option<String>)
        ensures
            match dir {
                Some(up) => parent_of(self@.current_dir) == Some(up@),
                None => parent_of(self@.current_dir) is None,
            },
    {
        parent(self.current_dir.as_str())
    }

    /// Moves to the parent of the current directory, which holds `entries`,
    /// and clears the filter. A directory without a parent is a root: the
    /// state stays as it is, and `entries` is not looked at.
    pub fn go_to_parent(&mut self, entries: Vec<Entry>)
        ensures
            final(self)@ == old(self)@.ascended(models(entries@)),
            parent_of(old(self)@.current_dir) is None ==> final(self)@ == old(self)@,
            parent_of(old(self)@.current_dir) matches Some(up) ==> final(self)@.current_dir == up
                && final(self)@.query.len() == 0,
            final(self)@.consistent(),
    {
        proof {
            use_type_invariant(&*self);
        }
        match self.parent_dir() {
            Some(up) => {
                self.change_directory(up, entries);
            },
            None => {},
        }
    }

    /// The path of the selected entry, if there is one.
    pub fn selected_path(&self) -> (path: Option<String>)
        ensures
            match path {
                Some(p) => self@.selected_entry() matches Some(entry) && entry.path == p@,
                None => self@.selected_entry() is None,
            },
    {
        proof {
            use_type_invariant(self);
        }
        match self.state.selected() {
            Some(i) => {
                if i < self.items.len() {
                    Some(self.items[i].path.clone())
                } else {
                    None
                }
            },
            None => None,
        }
    }

    /// Enters the selected entry, where `is_dir` says that it is a directory
    /// now and `entries` is what it holds, and clears the filter. Returns
    /// whether it was entered. A file is never entered, and nothing is where
    /// nothing is selected: then the state stays as it is.
    pub fn enter_directory(&mut self, is_dir: bool, entries: Vec<Entry>) -> (entered: bool)
        ensures
            entered == old(self)@.can_descend(is_dir),
            final(self)@ == old(self)@.descended(is_dir, models(entries@)),
            !entered ==> final(self)@ == old(self)@,
            entered ==> {
                &&& final(self)@.current_dir == old(self)@.selected_entry()->0.path
                &&& final(self)@.query.len() == 0
            },
            final(self)@.consistent(),
    {
        proof {
            use_type_invariant(&*self);
        }
        if !is_dir {
            return false;
        }
        match self.selected_path() {
            Some(dir) => {
                self.change_directory(dir, entries);
                true
            },
            None => false,
        }
    }

    /// The directory that confirming the selection yields, where `is_dir`
    /// says whether the selected entry is a directory now: the selected
    /// directory itself, the directory that holds the selected file, or the
    /// current directory where nothing is selected. For a file whose path
    /// has a parent, that is never the file's own path.
    pub fn get_selected_path(&mut self, is_dir: bool) -> (path: String)
        ensures
            final(self)@ == old(self)@,
            path@ == old(self)@.target(is_dir),
            old(self)@.visible.len() == 0 ==> path@ == old(self)@.current_dir,
            old(self)@.selected_entry() matches Some(entry) ==> (!is_dir && parent_of(entry.path)
                is Some ==> path@ == parent_of(entry.path)->0 && path@ != entry.path),
            final(self)@.consistent(),
    {
        proof {
            use_type_invariant(&*self);
        }
        match self.state.selected() {
            Some(i) => {
                if i < self.items.len() {
                    let entry = &self.items[i];
                    let up = if is_dir {
                        None
                    } else {
                        parent(entry.path.as_str())
                    };
                    target_dir(Some(entry), is_dir, up, self.current_dir.as_str())
                } else {
                    self.current_dir.clone()
                }
            },
            None => self.current_dir.clone(),
        }
    }

    /// The directory that the browser stands in.
    pub fn current_dir(&self) -> (dir: &str)
        ensures
            dir@ == self@.current_dir,
    {
        self.current_dir.as_str()
    }

    /// The filter query.
    pub fn search_query(&self) -> (query: &str)
        ensures
            query@ == self@.query,
    {
        self.search_query.as_str()
    }

    /// Whether a filter is at work: whether the query is not empty.
    pub fn is_filtering(&self) -> (filtering: bool)
        ensures
            filtering == (self@.query.len() > 0),
    {
        !self.search_query.as_str().is_empty()
    }

    /// The full listing of the current directory.
    pub fn all_items(&self) -> (listing: &Vec<Entry>)
        ensures
            models(listing@) == self@.listing,
            is_arranged(self@.listing),
    {
        proof {
            use_type_invariant(self);
        }
        &self.all_items
    }

    /// The visible entries.
    pub fn items(&self) -> (visible: &Vec<Entry>)
        ensures
            models(visible@) == self@.visible,
            self@.visible == visible_of(self@.listing, self@.query),
    {
        proof {
            use_type_invariant(self);
        }
        &self.items
    }

    /// The cursor: the index of the selected entry among the visible ones.
    /// It is `None` exactly when no entry is visible, and else the index of
    /// one of them.
    pub fn selected(&self) -> (index: Option<usize>)
        ensures
            match index {
                Some(i) => self@.cursor == Some(i as nat) && i < self@.visible.len(),
                None => self@.cursor is None && self@.visible.len() == 0,
            },
            self@.consistent(),
    {
        proof {
            use_type_invariant(self);
        }
        self.state.selected()
    }

    /// The list state to draw the visible entries with.
    pub fn state(&self) -> (state: ListState)
        ensures
            cursor_of(state) == self@.cursor,
    {
        self.state
    }
}

} // verus!
