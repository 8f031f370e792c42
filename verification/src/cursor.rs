//! The selection cursor: an optional index into the visible entries, kept in
//! a `ratatui` list state so that a list widget can be drawn with it.

use ratatui::widgets::ListState;
use vstd::prelude::*;

verus! {

/// `ratatui::widgets::ListState`, the state that a list widget is drawn
/// with. Nothing is known of what is inside it but its selection, which
/// `selected_of` names.
#[verifier::external_type_specification]
#[verifier::external_body]
pub struct ExListState(ListState);

/// The index that a list state holds as its selection, if any: what
/// `ListState::selected` returns for it.
pub uninterp spec fn selected_of(state: ListState) -> Option<usize>;

/// `ListState::default()` makes a state with nothing selected.
pub assume_specification[ <ListState as Default>::default ]() -> (state: ListState)
    ensures
        selected_of(state) is None,
;

/// `ListState::selected` hands back the selection that the state holds.
pub assume_specification[ ListState::selected ](state: &ListState) -> (index: Option<usize>)
    ensures
        index == selected_of(*state),
;

/// `ListState::select` makes the given index the selection of the state,
/// whatever the index is.
pub assume_specification[ ListState::select ](state: &mut ListState, index: Option<usize>)
    ensures
        selected_of(*final(state)) == index,
;

/// The cursor that a list state stands for.
pub open spec fn cursor_of(state: ListState) -> Option<nat> {
    match selected_of(state) {
        Some(i) => Some(i as nat),
        None => None,
    }
}

/// A cursor is valid for `count` visible entries when it points at one of
/// them, or when there are none and it points at nothing.
pub open spec fn cursor_valid(cursor: Option<nat>, count: nat) -> bool {
    match cursor {
        Some(i) => i < count,
        None => count == 0,
    }
}

/// The cursor after the visible entries changed: on the first entry, or on
/// nothing where there is none.
pub open spec fn first_or_none(count: nat) -> Option<nat> {
    if count > 0 {
        Some(0)
    } else {
        None
    }
}

/// One step down among `count` entries: to the next entry, staying on the
/// last one. No cursor stays no cursor.
pub open spec fn step_down(cursor: Option<nat>, count: nat) -> Option<nat> {
    match cursor {
        Some(i) => if i + 1 < count {
            Some(i + 1)
        } else {
            Some(i)
        },
        None => None,
    }
}

/// One step up: to the entry before, staying on the first one. No cursor
/// stays no cursor.
pub open spec fn step_up(cursor: Option<nat>) -> Option<nat> {
    match cursor {
        Some(i) => if i > 0 {
            Some((i - 1) as nat)
        } else {
            Some(0)
        },
        None => None,
    }
}

/// The cursor after `times` steps down.
pub open spec fn step_down_times(cursor: Option<nat>, count: nat, times: nat) -> Option<nat>
    decreases times,
{
    if times == 0 {
        cursor
    } else {
        step_down(step_down_times(cursor, count, (times - 1) as nat), count)
    }
}

/// The cursor after `times` steps up.
pub open spec fn step_up_times(cursor: Option<nat>, times: nat) -> Option<nat>
    decreases times,
{
    if times == 0 {
        cursor
    } else {
        step_up(step_up_times(cursor, (times - 1) as nat))
    }
}

/// Steps keep a valid cursor valid.
pub proof fn lemma_steps_keep_valid(cursor: Option<nat>, count: nat)
    requires
        cursor_valid(cursor, count),
    ensures
        cursor_valid(step_down(cursor, count), count),
        cursor_valid(step_up(cursor), count),
        cursor_valid(first_or_none(count), count),
{
}

/// After as many steps down as there are entries, and after any number
/// beyond that, a valid cursor stands on the last entry: stepping down
/// stops there and does not wrap round.
pub proof fn lemma_down_reaches_last(cursor: Option<nat>, count: nat, times: nat)
    requires
        cursor_valid(cursor, count),
        times >= count,
    ensures
        step_down_times(cursor, count, times) == (if count == 0 {
            None
        } else {
            Some((count - 1) as nat)
        }),
{
    lemma_down_progress(cursor, count, times);
}

/// After `times` steps down a valid cursor has moved `times` entries down,
/// or to the last entry where that is nearer.
proof fn lemma_down_progress(cursor: Option<nat>, count: nat, times: nat)
    requires
        cursor_valid(cursor, count),
    ensures
        step_down_times(cursor, count, times) == (match cursor {
            Some(i) => Some(if i + times < count { i + times } else { (count - 1) as nat }),
            None => None,
        }),
    decreases times,
{
    if times > 0 {
        lemma_down_progress(cursor, count, (times - 1) as nat);
    }
}

/// After as many steps up as there are entries, and after any number beyond
/// that, a valid cursor stands on the first entry: stepping up stops there
/// and does not wrap round.
pub proof fn lemma_up_reaches_first(cursor: Option<nat>, count: nat, times: nat)
    requires
        cursor_valid(cursor, count),
        times >= count,
    ensures
        step_up_times(cursor, times) == first_or_none(count),
{
    lemma_up_progress(cursor, times);
}

/// After `times` steps up a cursor has moved `times` entries up, or to the
/// first entry where that is nearer.
proof fn lemma_up_progress(cursor: Option<nat>, times: nat)
    ensures
        step_up_times(cursor, times) == (match cursor {
            Some(i) => Some(if i >= times { (i - times) as nat } else { 0 }),
            None => None,
        }),
    decreases times,
{
    if times > 0 {
        lemma_up_progress(cursor, (times - 1) as nat);
    }
}

/// Puts the cursor on the first of `count` entries, or on nothing where
/// `count` is zero.
pub fn reset(state: &mut ListState, count: usize)
    ensures
        cursor_of(*final(state)) == first_or_none(count as nat),
{
    if count > 0 {
        state.select(Some(0));
    } else {
        state.select(None);
    }
}

/// Moves the cursor one entry down among `count` entries.
pub fn move_down(state: &mut ListState, count: usize)
    ensures
        cursor_of(*final(state)) == step_down(cursor_of(*old(state)), count as nat),
{
    match state.selected() {
        Some(i) => {
            if count > 0 && i < count - 1 {
                state.select(Some(i + 1));
            }
        },
        None => {},
    }
}

/// Moves the cursor one entry up.
pub fn move_up(state: &mut ListState)
    ensures
        cursor_of(*final(state)) == step_up(cursor_of(*old(state))),
{
    match state.selected() {
        Some(i) => {
            if i > 0 {
                state.select(Some(i - 1));
            }
        },
        None => {},
    }
}

} // verus!
