//! What the user can ask of the browser, what has to be read from the file
//! system first, and what comes of it.
//!
//! The loop around the browser takes a command, asks `lookup_for` what it has
//! to read, reads it, and hands command and facts to `handle`, until the
//! outcome is no longer `Continue`.

use crate::app::App;
use crate::model::{
    lemma_moves_stay_consistent, lemma_opened_is_consistent, lemma_stays_consistent, AppModel,
};
use crate::listing::EntryModel;
use crate::path::parent_of;
use crate::reading::{entries_of, entries_read, found_models, Found};
use vstd::prelude::*;

verus! {

/// What the user can ask for.
#[derive(Debug, Clone, Copy, PartialEq, Eq)]
pub enum Command {
    /// Add a character to the filter query.
    AppendToFilter(char),
    /// Take the last character off the filter query.
    RemoveLastFilterChar,
    /// Move the cursor up.
    CursorUp,
    /// Move the cursor down.
    CursorDown,
    /// Go to the parent directory.
    Ascend,
    /// Enter the selected directory.
    Descend,
    /// Leave with the selection.
    Confirm,
    /// Leave without one.
    Cancel,
}

/// What has to be read from the file system before a command is carried out.
#[derive(Debug, PartialEq, Eq)]
pub enum Lookup {
    /// Nothing.
    Nothing,
    /// What the directory at this path holds.
    Entries(String),
    /// Whether this path is a directory and, if it is, what it holds.
    Directory(String),
    /// Whether this path is a directory.
    Kind(String),
}

/// A lookup as a mathematical value.
pub enum LookupModel {
    Nothing,
    Entries(Seq<char>),
    Directory(Seq<char>),
    Kind(Seq<char>),
}

impl View for Lookup {
    type V = LookupModel;

    open spec fn view(&self) -> LookupModel {
        match *self {
            Lookup::Nothing => LookupModel::Nothing,
            Lookup::Entries(path) => LookupModel::Entries(path@),
            Lookup::Directory(path) => LookupModel::Directory(path@),
            Lookup::Kind(path) => LookupModel::Kind(path@),
        }
    }
}

/// What was read from the file system for a command. A part that the lookup
/// did not ask for is not looked at.
#[derive(Debug, PartialEq, Eq)]
pub struct Facts {
    /// Whether the path is a directory now.
    pub is_dir: bool,
    /// What reading the directory found, or `None` where it could not be
    /// read.
    pub reading: Option<Vec<Found>>,
}

/// Facts as a mathematical value.
pub struct FactsModel {
    /// Whether the path is a directory now.
    pub is_dir: bool,
    /// The entries that the reading of the directory gives.
    pub entries: Seq<EntryModel>,
}

impl View for Facts {
    type V = FactsModel;

    open spec fn view(&self) -> FactsModel {
        FactsModel {
            is_dir: self.is_dir,
            entries: entries_read(
                match self.reading {
                    Some(found) => Some(found_models(found@)),
                    None => None,
                },
            ),
        }
    }
}

/// What comes of a command.
#[derive(Debug, PartialEq, Eq)]
pub enum Outcome {
    /// The browser goes on.
    Continue,
    /// The user confirmed: this directory is the result.
    Selected(String),
    /// The user cancelled: there is no result.
    Cancelled,
}

/// An outcome as a mathematical value.
pub enum OutcomeModel {
    Continue,
    Selected(Seq<char>),
    Cancelled,
}

impl View for Outcome {
    type V = OutcomeModel;

    open spec fn view(&self) -> OutcomeModel {
        match *self {
            Outcome::Continue => OutcomeModel::Continue,
            Outcome::Selected(path) => OutcomeModel::Selected(path@),
            Outcome::Cancelled => OutcomeModel::Cancelled,
        }
    }
}

impl AppModel {
    /// What a command needs from the file system: to go up, what the parent
    /// holds; to enter the selected entry, whether it is a directory and what
    /// it holds; to confirm, whether the selected entry is a directory.
    /// Without a parent or a selection there is nothing to read.
    pub open spec fn lookup(self, command: Command) -> LookupModel {
        match command {
            Command::Ascend => match parent_of(self.current_dir) {
                Some(up) => LookupModel::Entries(up),
                None => LookupModel::Nothing,
            },
            Command::Descend => match self.selected_entry() {
                Some(entry) => LookupModel::Directory(entry.path),
                None => LookupModel::Nothing,
            },
            Command::Confirm => match self.selected_entry() {
                Some(entry) => LookupModel::Kind(entry.path),
                None => LookupModel::Nothing,
            },
            _ => LookupModel::Nothing,
        }
    }

    /// The state after a command. To confirm and to cancel change nothing.
    pub open spec fn after(self, command: Command, facts: FactsModel) -> AppModel {
        match command {
            Command::AppendToFilter(c) => self.filtered(self.query.push(c)),
            Command::RemoveLastFilterChar => self.shortened(),
            Command::CursorUp => self.moved_up(),
            Command::CursorDown => self.moved_down(),
            Command::Ascend => self.ascended(facts.entries),
            Command::Descend => self.descended(facts.is_dir, facts.entries),
            Command::Confirm => self,
            Command::Cancel => self,
        }
    }

    /// What comes of a command: to confirm ends the browser with a
    /// directory, to cancel ends it without one, and everything else lets it
    /// go on.
    pub open spec fn outcome(self, command: Command, facts: FactsModel) -> OutcomeModel {
        match command {
            Command::Confirm => OutcomeModel::Selected(self.target(facts.is_dir)),
            Command::Cancel => OutcomeModel::Cancelled,
            _ => OutcomeModel::Continue,
        }
    }
}

impl AppModel {
    /// The state after a run of commands, each with the facts read for it.
    pub open spec fn after_all(self, steps: Seq<(Command, FactsModel)>) -> AppModel
        decreases steps.len(),
    {
        if steps.len() == 0 {
            self
        } else {
            self.after_all(steps.drop_last()).after(steps.last().0, steps.last().1)
        }
    }
}

/// Every command keeps a consistent state consistent.
pub proof fn lemma_after_is_consistent(model: AppModel, command: Command, facts: FactsModel)
    requires
        model.consistent(),
    ensures
        model.after(command, facts).consistent(),
{
    lemma_stays_consistent(model, model.query);
    match command {
        Command::AppendToFilter(c) => {
            lemma_stays_consistent(model, model.query.push(c));
        },
        _ => {},
    }
    lemma_moves_stay_consistent(model, facts.is_dir, facts.entries);
}

/// Whatever the user does and whatever the file system says, the browser's
/// state stays consistent: from its start in a directory and through every
/// run of commands the cursor is `None` exactly when no entry is visible, and
/// is else the index of a visible entry.
pub proof fn lemma_always_consistent(
    current_dir: Seq<char>,
    entries: Seq<EntryModel>,
    steps: Seq<(Command, FactsModel)>,
)
    ensures
        AppModel::opened(current_dir, entries).after_all(steps).consistent(),
        ({
            let reached = AppModel::opened(current_dir, entries).after_all(steps);
            match reached.cursor {
                Some(i) => 0 <= i < reached.visible.len(),
                None => reached.visible.len() == 0,
            }
        }),
    decreases steps.len(),
{
    let start = AppModel::opened(current_dir, entries);
    if steps.len() == 0 {
        lemma_opened_is_consistent(current_dir, entries);
    } else {
        lemma_always_consistent(current_dir, entries, steps.drop_last());
        lemma_after_is_consistent(
            start.after_all(steps.drop_last()),
            steps.last().0,
            steps.last().1,
        );
    }
}

/// What a lookup does not ask for has no bearing on what the command does:
/// facts that agree in what was asked for lead to the same state and the
/// same outcome.
pub proof fn lemma_unasked_facts_are_ignored(
    model: AppModel,
    command: Command,
    one: FactsModel,
    other: FactsModel,
)
    requires
        match model.lookup(command) {
            LookupModel::Nothing => true,
            LookupModel::Entries(_) => one.entries == other.entries,
            LookupModel::Directory(_) => one.is_dir == other.is_dir && (one.is_dir ==> one.entries
                == other.entries),
            LookupModel::Kind(_) => one.is_dir == other.is_dir,
        },
    ensures
        model.after(command, one) == model.after(command, other),
        model.outcome(command, one) == model.outcome(command, other),
{
}

impl App {
    /// What `command` needs from the file system in this state.
    pub fn lookup_for(&self, command: Command) -> (lookup: Lookup)
        ensures
            lookup@ == self@.lookup(command),
    {
        match command {
            Command::Ascend => match self.parent_dir() {
                Some(up) => Lookup::Entries(up),
                None => Lookup::Nothing,
            },
            Command::Descend => match self.selected_path() {
                Some(path) => Lookup::Directory(path),
                None => Lookup::Nothing,
            },
            Command::Confirm => match self.selected_path() {
                Some(path) => Lookup::Kind(path),
                None => Lookup::Nothing,
            },
            _ => Lookup::Nothing,
        }
    }

    /// Carries out `command`, with `facts` as what was read for it.
    pub fn handle(&mut self, command: Command, facts: Facts) -> (outcome: Outcome)
        ensures
            final(self)@ == old(self)@.after(command, facts@),
            outcome@ == old(self)@.outcome(command, facts@),
            final(self)@.consistent(),
    {
        proof {
            use_type_invariant(&*self);
        }
        let Facts { is_dir, reading } = facts;
        let entries = entries_of(reading);
        match command {
            Command::AppendToFilter(c) => {
                self.append_to_filter(c);
                Outcome::Continue
            },
            Command::RemoveLastFilterChar => {
                self.remove_last_filter_char();
                Outcome::Continue
            },
            Command::CursorUp => {
                self.previous();
                Outcome::Continue
            },
            Command::CursorDown => {
                self.next();
                Outcome::Continue
            },
            Command::Ascend => {
                self.go_to_parent(entries);
                Outcome::Continue
            },
            Command::Descend => {
                let _ = self.enter_directory(is_dir, entries);
                Outcome::Continue
            },
            Command::Confirm => {
                Outcome::Selected(self.get_selected_path(is_dir))
            },
            Command::Cancel => Outcome::Cancelled,
        }
    }
}

} // verus!
