//! The browser's state as a mathematical value, the changes that the
//! operations make to it, and what holds of it in every state.

use crate::cursor::{
    cursor_valid, first_or_none, lemma_down_reaches_last, lemma_up_reaches_first, step_down,
    step_down_times, step_up, step_up_times,
};
use crate::filter::{lemma_visible_stays_arranged, visible_of};
use crate::listing::{arranged, is_arranged, lemma_arranged_is_in_order, EntryModel};
use crate::path::parent_of;
use vstd::prelude::*;

verus! {

/// The browser's state as a mathematical value.
pub struct AppModel {
    /// The directory that the listing belongs to.
    pub current_dir: Seq<char>,
    /// The full listing of that directory.
    pub listing: Seq<EntryModel>,
    /// The entries that are shown.
    pub visible: Seq<EntryModel>,
    /// The index of the selected entry among the visible ones.
    pub cursor: Option<nat>,
    /// The filter query.
    pub query: Seq<char>,
}

impl AppModel {
    /// What holds of the browser in every state: the listing is in order,
    /// the visible entries are those that the query lets through, and the
    /// cursor is `None` if no entry is visible and else the index of a
    /// visible entry.
    pub open spec fn consistent(self) -> bool {
        &&& is_arranged(self.listing)
        &&& self.visible == visible_of(self.listing, self.query)
        &&& cursor_valid(self.cursor, self.visible.len())
    }

    /// The state on arrival in the directory `current_dir`, which holds
    /// `entries`: their listing, no filter, and the cursor on the first
    /// entry.
    pub open spec fn opened(current_dir: Seq<char>, entries: Seq<EntryModel>) -> AppModel {
        let listing = arranged(entries);
        AppModel {
            current_dir,
            listing,
            visible: listing,
            cursor: first_or_none(listing.len()),
            query: Seq::empty(),
        }
    }

    /// The state once the current directory was read again and held
    /// `entries`: their listing under the same query, and the cursor on the
    /// first visible entry.
    pub open spec fn reloaded(self, entries: Seq<EntryModel>) -> AppModel {
        let listing = arranged(entries);
        let visible = visible_of(listing, self.query);
        AppModel { listing, visible, cursor: first_or_none(visible.len()), ..self }
    }

    /// The state under another query: the visible entries follow the query,
    /// and the cursor goes to the first of them.
    pub open spec fn filtered(self, query: Seq<char>) -> AppModel {
        let visible = visible_of(self.listing, query);
        AppModel { visible, cursor: first_or_none(visible.len()), query, ..self }
    }

    /// The state with the last character of the query taken off. With an
    /// empty query it is the same state.
    pub open spec fn shortened(self) -> AppModel {
        if self.query.len() == 0 {
            self
        } else {
            self.filtered(self.query.drop_last())
        }
    }

    /// The state with the cursor one entry further down.
    pub open spec fn moved_down(self) -> AppModel {
        AppModel { cursor: step_down(self.cursor, self.visible.len()), ..self }
    }

    /// The state with the cursor one entry further up.
    pub open spec fn moved_up(self) -> AppModel {
        AppModel { cursor: step_up(self.cursor), ..self }
    }

    /// The state after `times` steps of the cursor down.
    pub open spec fn moved_down_times(self, times: nat) -> AppModel
        decreases times,
    {
        if times == 0 {
            self
        } else {
            self.moved_down_times((times - 1) as nat).moved_down()
        }
    }

    /// The state after `times` steps of the cursor up.
    pub open spec fn moved_up_times(self, times: nat) -> AppModel
        decreases times,
    {
        if times == 0 {
            self
        } else {
            self.moved_up_times((times - 1) as nat).moved_up()
        }
    }

    /// The selected entry, if there is one.
    pub open spec fn selected_entry(self) -> Option<EntryModel> {
        match self.cursor {
            Some(i) => if i < self.visible.len() {
                Some(self.visible[i as int])
            } else {
                None
            },
            None => None,
        }
    }

    /// The state after an attempt to move to the parent directory, which
    /// holds `entries`. A directory without a parent is a root, and the
    /// state stays as it is.
    pub open spec fn ascended(self, entries: Seq<EntryModel>) -> AppModel {
        match parent_of(self.current_dir) {
            Some(up) => AppModel::opened(up, entries),
            None => self,
        }
    }

    /// Whether an attempt to enter the selected entry succeeds, where
    /// `is_dir` says whether the entry is a directory now: there has to be
    /// a selection, and it has to be a directory.
    pub open spec fn can_descend(self, is_dir: bool) -> bool {
        is_dir && self.selected_entry() is Some
    }

    /// The state after an attempt to enter the selected entry, which holds
    /// `entries` if it is a directory.
    pub open spec fn descended(self, is_dir: bool, entries: Seq<EntryModel>) -> AppModel {
        if self.can_descend(is_dir) {
            AppModel::opened(self.selected_entry()->0.path, entries)
        } else {
            self
        }
    }

    /// The directory that confirming the selection yields. `is_dir` says
    /// whether the selected entry is a directory at that moment.
    pub open spec fn target(self, is_dir: bool) -> Seq<char> {
        let up = match self.selected_entry() {
            Some(entry) => parent_of(entry.path),
            None => None,
        };
        target_of(self.selected_entry(), is_dir, up, self.current_dir)
    }
}

/// The root of the file system, as a path.
pub open spec fn root() -> Seq<char> {
    seq!['/']
}

/// The directory that a selection stands for. A selected directory stands
/// for itself, a selected file for `parent`, the directory that holds it;
/// `current_dir` stands in where nothing is selected or the file's path has
/// no parent.
pub open spec fn target_of(
    selected: Option<EntryModel>,
    is_dir: bool,
    parent: Option<Seq<char>>,
    current_dir: Seq<char>,
) -> Seq<char> {
    match selected {
        Some(entry) => if is_dir {
            entry.path
        } else {
            match parent {
                Some(dir) => dir,
                None => current_dir,
            }
        },
        None => current_dir,
    }
}

/// Arrival in a directory leaves a consistent state.
pub proof fn lemma_opened_is_consistent(current_dir: Seq<char>, entries: Seq<EntryModel>)
    ensures
        AppModel::opened(current_dir, entries).consistent(),
{
    lemma_arranged_is_in_order(entries);
}

/// Reading the directory again leaves a consistent state.
pub proof fn lemma_reloaded_is_consistent(model: AppModel, entries: Seq<EntryModel>)
    ensures
        model.reloaded(entries).consistent(),
{
    lemma_arranged_is_in_order(entries);
}

/// Operations that leave the directory alone keep a consistent state
/// consistent: a change of the query, and a step of the cursor.
pub proof fn lemma_stays_consistent(model: AppModel, query: Seq<char>)
    requires
        model.consistent(),
    ensures
        model.filtered(query).consistent(),
        model.shortened().consistent(),
        model.moved_down().consistent(),
        model.moved_up().consistent(),
{
}

/// Steps of the cursor change the cursor alone, as the steps of `step_down`
/// and `step_up` say.
proof fn lemma_moved_times(model: AppModel, times: nat)
    ensures
        model.moved_down_times(times) == (AppModel {
            cursor: step_down_times(model.cursor, model.visible.len(), times),
            ..model
        }),
        model.moved_up_times(times) == (AppModel {
            cursor: step_up_times(model.cursor, times),
            ..model
        }),
    decreases times,
{
    if times > 0 {
        lemma_moved_times(model, (times - 1) as nat);
    }
}

/// Moving the cursor down as often as there are visible entries, or more
/// often, ends on the last of them and changes nothing else: the cursor
/// stops there and does not wrap round.
pub proof fn lemma_moved_down_reaches_last(model: AppModel, times: nat)
    requires
        model.consistent(),
        times >= model.visible.len(),
    ensures
        model.moved_down_times(times) == (AppModel {
            cursor: if model.visible.len() == 0 {
                None
            } else {
                Some((model.visible.len() - 1) as nat)
            },
            ..model
        }),
{
    lemma_moved_times(model, times);
    lemma_down_reaches_last(model.cursor, model.visible.len(), times);
}

/// Moving the cursor up as often as there are visible entries, or more
/// often, ends on the first of them and changes nothing else: the cursor
/// stops there and does not wrap round.
pub proof fn lemma_moved_up_reaches_first(model: AppModel, times: nat)
    requires
        model.consistent(),
        times >= model.visible.len(),
    ensures
        model.moved_up_times(times) == (AppModel {
            cursor: first_or_none(model.visible.len()),
            ..model
        }),
{
    lemma_moved_times(model, times);
    lemma_up_reaches_first(model.cursor, model.visible.len(), times);
}

/// A move to the parent or into the selected entry keeps a consistent state
/// consistent.
pub proof fn lemma_moves_stay_consistent(model: AppModel, is_dir: bool, entries: Seq<EntryModel>)
    requires
        model.consistent(),
    ensures
        model.ascended(entries).consistent(),
        model.descended(is_dir, entries).consistent(),
{
    lemma_arranged_is_in_order(entries);
}

/// In a consistent state the visible entries are in the order of a listing
/// too, and an entry is selected exactly when one is visible.
pub proof fn lemma_consistent_state(model: AppModel)
    requires
        model.consistent(),
    ensures
        is_arranged(model.visible),
        model.selected_entry() is Some <==> model.visible.len() > 0,
        model.cursor is None <==> model.visible.len() == 0,
        model.cursor matches Some(i) ==> 0 <= i < model.visible.len(),
{
    lemma_visible_stays_arranged(model.listing, model.query);
}

} // verus!
