//! The filter: which entries of a listing are shown for a query.

use crate::listing::{entry_le, is_arranged, models, Entry, EntryModel};
use crate::path::{display_name, name_of};
use crate::text::{contains_text, is_substring, lowercase_of};
use vstd::prelude::*;

verus! {

/// Whether the entry at `path` matches `query`: the query occurs in the
/// entry's name, both taken in lowercase.
pub open spec fn name_matches(path: Seq<char>, query: Seq<char>) -> bool {
    is_substring(lowercase_of(query), lowercase_of(display_name(path)))
}

/// The test that a query puts to each entry.
pub open spec fn matching(query: Seq<char>) -> spec_fn(EntryModel) -> bool {
    |e: EntryModel| name_matches(e.path, query)
}

/// The entries of a listing that are shown for a query, in the order of the
/// listing. The empty query shows them all.
pub open spec fn visible_of(listing: Seq<EntryModel>, query: Seq<char>) -> Seq<EntryModel> {
    if query.len() == 0 {
        listing
    } else {
        listing.filter(matching(query))
    }
}

/// The empty query shows the whole listing.
pub proof fn lemma_empty_query_shows_all(listing: Seq<EntryModel>)
    ensures
        visible_of(listing, Seq::empty()) == listing,
{
}

/// The visible entries are exactly the entries of the listing that match
/// the query, and all of them where the query is empty.
pub proof fn lemma_visible_are_the_matching(
    listing: Seq<EntryModel>,
    query: Seq<char>,
    entry: EntryModel,
)
    ensures
        visible_of(listing, query).contains(entry) <==> listing.contains(entry) && (query.len()
            == 0 || name_matches(entry.path, query)),
{
    if query.len() > 0 {
        let test = matching(query);
        let shown = listing.filter(test);
        if shown.contains(entry) {
            let k = choose|k: int| 0 <= k < shown.len() && shown[k] == entry;
            listing.lemma_filter_pred(test, k);
            lemma_filter_keeps_order(listing, test);
            let at = filter_positions(listing, test);
            assert(listing[at[k]] == entry);
        }
        if listing.contains(entry) && test(entry) {
            let i = choose|i: int| 0 <= i < listing.len() && listing[i] == entry;
            listing.lemma_filter_contains(test, i);
        }
    }
}

/// For each entry that a test lets through, the position in the sequence
/// that it was taken from.
spec fn filter_positions(entries: Seq<EntryModel>, test: spec_fn(EntryModel) -> bool) -> Seq<
    int,
>
    decreases entries.len(),
{
    if entries.len() == 0 {
        Seq::empty()
    } else {
        let front = filter_positions(entries.drop_last(), test);
        if test(entries.last()) {
            front.push(entries.len() - 1)
        } else {
            front
        }
    }
}

/// Filtering takes entries out and leaves the others in their order: the
/// entries let through stand at ascending positions of the sequence.
proof fn lemma_filter_keeps_order(entries: Seq<EntryModel>, test: spec_fn(EntryModel) -> bool)
    ensures
        filter_positions(entries, test).len() == entries.filter(test).len(),
        forall|k: int|
            0 <= k < entries.filter(test).len() ==> 0 <= #[trigger] filter_positions(
                entries,
                test,
            )[k] < entries.len() && entries[filter_positions(entries, test)[k]]
                == entries.filter(test)[k],
        forall|k: int, l: int|
            0 <= k < l < entries.filter(test).len() ==> #[trigger] filter_positions(
                entries,
                test,
            )[k] < #[trigger] filter_positions(entries, test)[l],
    decreases entries.len(),
{
    reveal(Seq::filter);
    if entries.len() > 0 {
        lemma_filter_keeps_order(entries.drop_last(), test);
    }
}

/// A listing in order stays in order under every query.
pub proof fn lemma_visible_stays_arranged(listing: Seq<EntryModel>, query: Seq<char>)
    requires
        is_arranged(listing),
    ensures
        is_arranged(visible_of(listing, query)),
{
    if query.len() > 0 {
        let test = matching(query);
        let shown = listing.filter(test);
        let at = filter_positions(listing, test);
        lemma_filter_keeps_order(listing, test);
        assert forall|k: int, l: int| 0 <= k < l < shown.len() implies entry_le(
            shown[k],
            shown[l],
        ) by {
            assert(at[k] < at[l]);
            assert(entry_le(listing[at[k]], listing[at[l]]));
        }
    }
}

/// Whether `query_lower`, a query already in lowercase, occurs in the
/// lowercase name of the entry at `path`.
pub fn passes(path: &str, query_lower: &str) -> (keep: bool)
    ensures
        keep == is_substring(query_lower@, lowercase_of(display_name(path@))),
{
    let name = name_of(path);
    let name_lower = name.as_str().to_lowercase();
    contains_text(name_lower.as_str(), query_lower)
}

/// The entries of `listing` that are shown for `query`.
pub fn filter_entries(listing: &Vec<Entry>, query: &str) -> (shown: Vec<Entry>)
    ensures
        models(shown@) == visible_of(models(listing@), query@),
{
    let ghost all = models(listing@);
    let mut shown: Vec<Entry> = Vec::new();
    if query.is_empty() {
        let mut i: usize = 0;
        while i < listing.len()
            invariant
                i <= listing@.len(),
                all == models(listing@),
                models(shown@) == all.take(i as int),
            decreases listing@.len() - i,
        {
            proof {
                assert(all.take(i + 1) == all.take(i as int).push(listing@[i as int]@));
            }
            shown.push(listing[i].clone());
            i += 1;
        }
        assert(all.take(all.len() as int) == all);
    } else {
        let query_lower = query.to_lowercase();
        let mut i: usize = 0;
        while i < listing.len()
            invariant
                i <= listing@.len(),
                all == models(listing@),
                query_lower@ == lowercase_of(query@),
                models(shown@) == all.take(i as int).filter(matching(query@)),
            decreases listing@.len() - i,
        {
            proof {
                assert(all.take(i + 1).drop_last() == all.take(i as int));
                reveal(Seq::filter);
            }
            if passes(listing[i].path.as_str(), query_lower.as_str()) {
                shown.push(listing[i].clone());
            }
            i += 1;
        }
        assert(all.take(all.len() as int) == all);
    }
    shown
}

} // verus!
