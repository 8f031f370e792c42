//! Directory entries and the order of a listing: directories first, then
//! files, each group ascending by path.

use crate::text::{
    lemma_text_le_antisymmetric, lemma_text_le_reflexive, lemma_text_le_total,
    lemma_text_le_transitive, str_le, text_le,
};
use vstd::prelude::*;

verus! {

/// One entry of a directory: its path, and whether it was a directory when
/// the directory was read.
#[derive(Debug, PartialEq, Eq)]
pub struct Entry {
    pub path: String,
    pub is_dir: bool,
}

/// An entry as a mathematical value.
pub struct EntryModel {
    pub path: Seq<char>,
    pub is_dir: bool,
}

impl View for Entry {
    type V = EntryModel;

    open spec fn view(&self) -> EntryModel {
        EntryModel { path: self.path@, is_dir: self.is_dir }
    }
}

impl Clone for Entry {
    fn clone(&self) -> (copy: Entry)
        ensures
            copy@ == self@,
    {
        Entry { path: self.path.clone(), is_dir: self.is_dir }
    }
}

/// The entries of a vector as values, in order.
pub open spec fn models(entries: Seq<Entry>) -> Seq<EntryModel> {
    entries.map_values(|e: Entry| e@)
}

/// The order of a listing: a directory comes before a file, and two entries
/// of one kind go by their paths.
pub open spec fn entry_le(a: EntryModel, b: EntryModel) -> bool {
    if a.is_dir == b.is_dir {
        text_le(a.path, b.path)
    } else {
        a.is_dir
    }
}

/// Whether a listing is in order: every entry is at most each entry behind it.
pub open spec fn is_arranged(listing: Seq<EntryModel>) -> bool {
    forall|i: int, j: int|
        #![trigger listing[i], listing[j]]
        0 <= i < j < listing.len() ==> entry_le(listing[i], listing[j])
}

/// The order of a listing as a relation.
pub open spec fn listing_order() -> spec_fn(EntryModel, EntryModel) -> bool {
    |a: EntryModel, b: EntryModel| entry_le(a, b)
}

/// The order of a listing is a total order on entries.
pub proof fn lemma_entry_le_total_order()
    ensures
        vstd::relations::total_ordering(listing_order()),
{
    let le = listing_order();
    assert forall|x: EntryModel| #[trigger] le(x, x) by {
        lemma_text_le_reflexive(x.path);
    }
    assert forall|x: EntryModel, y: EntryModel| #[trigger] le(x, y) && #[trigger] le(y, x) implies x
        == y by {
        lemma_text_le_antisymmetric(x.path, y.path);
    }
    assert forall|x: EntryModel, y: EntryModel, z: EntryModel| #[trigger]
        le(x, y) && #[trigger] le(y, z) implies le(x, z) by {
        if x.is_dir == y.is_dir && y.is_dir == z.is_dir {
            lemma_text_le_transitive(x.path, y.path, z.path);
        }
    }
    assert forall|x: EntryModel, y: EntryModel| #[trigger] le(x, y) || #[trigger] le(y, x) by {
        lemma_text_le_total(x.path, y.path);
    }
}

/// The listing of the given entries: the entries in the order of a listing.
pub open spec fn arranged(entries: Seq<EntryModel>) -> Seq<EntryModel> {
    entries.sort_by(listing_order())
}

/// The listing of some entries is in order and holds those entries, each as
/// often as it was given.
pub proof fn lemma_arranged_is_in_order(entries: Seq<EntryModel>)
    ensures
        is_arranged(arranged(entries)),
        arranged(entries).to_multiset() == entries.to_multiset(),
        arranged(entries).len() == entries.len(),
{
    lemma_entry_le_total_order();
    let le = listing_order();
    let listing = arranged(entries);
    entries.lemma_sort_by_ensures(le);
    assert forall|i: int, j: int| 0 <= i < j < listing.len() implies entry_le(
        listing[i],
        listing[j],
    ) by {
        assert(le(listing[i], listing[j]));
    }
    entries.to_multiset_ensures();
    listing.to_multiset_ensures();
}

/// In a listing in order every directory stands before every file, and
/// among the entries of one kind the paths ascend.
pub proof fn lemma_directories_first(listing: Seq<EntryModel>, i: int, j: int)
    requires
        is_arranged(listing),
        0 <= i < j < listing.len(),
    ensures
        listing[j].is_dir ==> listing[i].is_dir,
        listing[i].is_dir == listing[j].is_dir ==> text_le(listing[i].path, listing[j].path),
{
    assert(entry_le(listing[i], listing[j]));
}

/// The entries fix the listing: two listings in order that hold the same
/// entries, each as often as the other, are the same listing.
pub proof fn lemma_arrangement_unique(a: Seq<EntryModel>, b: Seq<EntryModel>)
    requires
        is_arranged(a),
        is_arranged(b),
        a.to_multiset() == b.to_multiset(),
    ensures
        a == b,
{
    lemma_entry_le_total_order();
    let le = listing_order();
    assert(vstd::relations::sorted_by(a, le)) by {
        assert forall|i: int, j: int| 0 <= i < j < a.len() implies #[trigger] le(a[i], a[j]) by {
            assert(entry_le(a[i], a[j]));
        }
    }
    assert(vstd::relations::sorted_by(b, le)) by {
        assert forall|i: int, j: int| 0 <= i < j < b.len() implies #[trigger] le(b[i], b[j]) by {
            assert(entry_le(b[i], b[j]));
        }
    }
    vstd::seq_lib::lemma_sorted_unique(a, b, le);
}

/// A listing in order that holds the given entries, each as often as it was
/// given, is the listing of those entries.
pub proof fn lemma_listing_is_determined(listing: Seq<EntryModel>, entries: Seq<EntryModel>)
    requires
        is_arranged(listing),
        listing.to_multiset() == entries.to_multiset(),
    ensures
        listing == arranged(entries),
{
    lemma_arranged_is_in_order(entries);
    lemma_arrangement_unique(listing, arranged(entries));
}

/// The order in which a directory was read does not show in its listing:
/// the same entries give the same listing.
pub proof fn lemma_arranged_ignores_order_read(a: Seq<EntryModel>, b: Seq<EntryModel>)
    requires
        a.to_multiset() == b.to_multiset(),
    ensures
        arranged(a) == arranged(b),
{
    lemma_arranged_is_in_order(a);
    lemma_arranged_is_in_order(b);
    lemma_arrangement_unique(arranged(a), arranged(b));
}

/// The test for entries of one kind: directories where `dir` holds, the
/// rest where it does not.
pub open spec fn of_kind(dir: bool) -> spec_fn(EntryModel) -> bool {
    |e: EntryModel| e.is_dir == dir
}

/// Splits entries into the directories and the rest, each in the order in
/// which they came.
pub fn split_by_kind(entries: Vec<Entry>) -> (parts: (Vec<Entry>, Vec<Entry>))
    ensures
        models(parts.0@) == models(entries@).filter(of_kind(true)),
        models(parts.1@) == models(entries@).filter(of_kind(false)),
{
    let ghost all = models(entries@);
    let mut dirs: Vec<Entry> = Vec::new();
    let mut files: Vec<Entry> = Vec::new();
    for entry in it: entries
        invariant
            models(it.seq()) == all,
            models(dirs@) == all.take(it.index()).filter(of_kind(true)),
            models(files@) == all.take(it.index()).filter(of_kind(false)),
    {
        proof {
            assert(all.take(it.index() + 1).drop_last() == all.take(it.index()));
            reveal(Seq::filter);
        }
        if entry.is_dir {
            dirs.push(entry);
        } else {
            files.push(entry);
        }
    }
    assert(all.take(all.len() as int) == all);
    (dirs, files)
}

/// Whether the paths of the entries ascend in the order of `text_le`.
spec fn paths_ascending(entries: Seq<EntryModel>) -> bool {
    forall|i: int, j: int|
        #![trigger entries[i], entries[j]]
        0 <= i < j < entries.len() ==> text_le(entries[i].path, entries[j].path)
}

/// The place at which an entry with the given path goes into entries whose
/// paths ascend: behind every entry whose path is at most the given one, and
/// before every other.
fn insertion_point(sorted: &Vec<Entry>, path: &str) -> (at: usize)
    requires
        paths_ascending(models(sorted@)),
    ensures
        at <= sorted@.len(),
        forall|k: int| 0 <= k < at ==> text_le(#[trigger] sorted@[k].path@, path@),
        forall|k: int| at <= k < sorted@.len() ==> !text_le(#[trigger] sorted@[k].path@, path@),
{
    let mut low: usize = 0;
    let mut high: usize = sorted.len();
    while low < high
        invariant
            low <= high <= sorted@.len(),
            paths_ascending(models(sorted@)),
            forall|k: int| 0 <= k < low ==> text_le(#[trigger] sorted@[k].path@, path@),
            forall|k: int| high <= k < sorted@.len() ==> !text_le(#[trigger] sorted@[k].path@, path@),
        decreases high - low,
    {
        let mid = low + (high - low) / 2;
        let ghost shown = models(sorted@);
        if str_le(sorted[mid].path.as_str(), path) {
            assert forall|k: int| 0 <= k < mid + 1 implies text_le(
                #[trigger] sorted@[k].path@,
                path@,
            ) by {
                if k < mid {
                    assert(text_le(shown[k].path, shown[mid as int].path));
                    lemma_text_le_transitive(sorted@[k].path@, sorted@[mid as int].path@, path@);
                }
            }
            low = mid + 1;
        } else {
            assert forall|k: int| mid <= k < sorted@.len() implies !text_le(
                #[trigger] sorted@[k].path@,
                path@,
            ) by {
                if mid < k && text_le(sorted@[k].path@, path@) {
                    assert(text_le(shown[mid as int].path, shown[k].path));
                    lemma_text_le_transitive(sorted@[mid as int].path@, sorted@[k].path@, path@);
                }
            }
            high = mid;
        }
    }
    low
}

/// Sorts entries by path, ascending.
fn sort_by_path(entries: Vec<Entry>) -> (sorted: Vec<Entry>)
    ensures
        paths_ascending(models(sorted@)),
        models(sorted@).to_multiset() == models(entries@).to_multiset(),
{
    let ghost all = models(entries@);
    let mut sorted: Vec<Entry> = Vec::new();
    assert(models(sorted@) =~= all.take(0));
    for entry in it: entries
        invariant
            models(it.seq()) == all,
            paths_ascending(models(sorted@)),
            models(sorted@).to_multiset() == all.take(it.index()).to_multiset(),
    {
        let at = insertion_point(&sorted, entry.path.as_str());
        proof {
            let before = models(sorted@);
            let after = before.insert(at as int, entry@);
            assert(models(sorted@.insert(at as int, entry)) =~= after);
            vstd::seq_lib::to_multiset_insert(before, at as int, entry@);
            assert(all.take(it.index() + 1) =~= all.take(it.index()).push(entry@));
            vstd::seq_lib::to_multiset_build(all.take(it.index()), entry@);
            assert forall|i: int, j: int| 0 <= i < j < after.len() implies text_le(
                after[i].path,
                after[j].path,
            ) by {
                if j == at {
                    assert(text_le(sorted@[i].path@, entry.path@));
                } else if i == at {
                    lemma_text_le_total(sorted@[j - 1].path@, entry.path@);
                } else {
                    let i0 = if i < at { i } else { i - 1 };
                    let j0 = if j < at { j } else { j - 1 };
                    assert(text_le(before[i0].path, before[j0].path));
                }
            }
        }
        sorted.insert(at, entry);
    }
    assert(all.take(all.len() as int) == all);
    sorted
}

/// Splitting a sequence by a test loses nothing and adds nothing.
proof fn lemma_split_keeps_all(entries: Seq<EntryModel>)
    ensures
        entries.filter(of_kind(true)).to_multiset().add(
            entries.filter(of_kind(false)).to_multiset(),
        ) == entries.to_multiset(),
    decreases entries.len(),
{
    let dirs = of_kind(true);
    let files = of_kind(false);
    reveal(Seq::filter);
    if entries.len() == 0 {
        assert(entries.filter(dirs) == entries);
        assert(entries.filter(files) == entries);
        entries.to_multiset_ensures();
        vstd::multiset::lemma_multiset_empty_len(entries.to_multiset());
        assert(entries.filter(dirs).to_multiset().add(entries.filter(files).to_multiset())
            =~= entries.to_multiset());
    } else {
        let front = entries.drop_last();
        let last = entries.last();
        lemma_split_keeps_all(front);
        assert(entries =~= front.push(last));
        vstd::seq_lib::to_multiset_build(front, last);
        vstd::seq_lib::to_multiset_build(front.filter(dirs), last);
        vstd::seq_lib::to_multiset_build(front.filter(files), last);
        if last.is_dir {
            assert(entries.filter(dirs) == front.filter(dirs).push(last));
            assert(entries.filter(files) == front.filter(files));
        } else {
            assert(entries.filter(dirs) == front.filter(dirs));
            assert(entries.filter(files) == front.filter(files).push(last));
        }
        assert(entries.filter(dirs).to_multiset().add(entries.filter(files).to_multiset())
            =~= entries.to_multiset());
    }
}

/// Entries of one kind, sorted by path, with every directory in front of
/// every file, make a listing in order.
proof fn lemma_joined_is_arranged(dirs: Seq<EntryModel>, files: Seq<EntryModel>)
    requires
        paths_ascending(dirs),
        paths_ascending(files),
        forall|i: int| 0 <= i < dirs.len() ==> (#[trigger] dirs[i]).is_dir,
        forall|i: int| 0 <= i < files.len() ==> !(#[trigger] files[i]).is_dir,
    ensures
        is_arranged(dirs + files),
{
    let joined = dirs + files;
    assert forall|i: int, j: int| 0 <= i < j < joined.len() implies entry_le(
        joined[i],
        joined[j],
    ) by {
        if j < dirs.len() {
            assert(text_le(dirs[i].path, dirs[j].path));
        } else if i < dirs.len() {
            assert(dirs[i].is_dir);
            assert(!files[j - dirs.len()].is_dir);
        } else {
            assert(text_le(files[i - dirs.len()].path, files[j - dirs.len()].path));
        }
    }
}

/// A test that holds of every entry of a sequence holds of every entry of
/// each rearrangement of it.
proof fn lemma_kind_survives(before: Seq<EntryModel>, after: Seq<EntryModel>, dir: bool)
    requires
        before.to_multiset() == after.to_multiset(),
        forall|i: int| 0 <= i < before.len() ==> (#[trigger] before[i]).is_dir == dir,
    ensures
        forall|i: int| 0 <= i < after.len() ==> (#[trigger] after[i]).is_dir == dir,
{
    assert forall|i: int| 0 <= i < after.len() implies (#[trigger] after[i]).is_dir == dir by {
        before.to_multiset_ensures();
        after.to_multiset_ensures();
        assert(after.contains(after[i]));
        assert(after.to_multiset().count(after[i]) > 0);
        assert(before.to_multiset().count(after[i]) > 0);
        assert(before.contains(after[i]));
        let k = choose|k: int| 0 <= k < before.len() && before[k] == after[i];
        assert(before[k].is_dir == dir);
    }
}

/// Puts the entries of a directory in the order of a listing: directories
/// first, then files, each group ascending by path.
pub fn arrange(entries: Vec<Entry>) -> (listing: Vec<Entry>)
    ensures
        models(listing@) == arranged(models(entries@)),
        is_arranged(models(listing@)),
        models(listing@).to_multiset() == models(entries@).to_multiset(),
        listing@.len() == entries@.len(),
{
    let ghost all = models(entries@);
    let (dirs, files) = split_by_kind(entries);
    let ghost unsorted_dirs = models(dirs@);
    let ghost unsorted_files = models(files@);
    let mut listing = sort_by_path(dirs);
    let mut files = sort_by_path(files);
    proof {
        let sorted_dirs = models(listing@);
        let sorted_files = models(files@);
        assert forall|i: int| 0 <= i < unsorted_dirs.len() implies (
        #[trigger] unsorted_dirs[i]).is_dir by {
            all.lemma_filter_pred(of_kind(true), i);
        }
        assert forall|i: int| 0 <= i < unsorted_files.len() implies !(
        #[trigger] unsorted_files[i]).is_dir by {
            all.lemma_filter_pred(of_kind(false), i);
        }
        lemma_kind_survives(unsorted_dirs, sorted_dirs, true);
        lemma_kind_survives(unsorted_files, sorted_files, false);
        lemma_joined_is_arranged(sorted_dirs, sorted_files);
        lemma_split_keeps_all(all);
        vstd::seq_lib::lemma_multiset_commutative(sorted_dirs, sorted_files);
        assert(models(listing@ + files@) =~= sorted_dirs + sorted_files);
        lemma_listing_is_determined(sorted_dirs + sorted_files, all);
        lemma_arranged_is_in_order(all);
    }
    listing.append(&mut files);
    listing
}

} // verus!
