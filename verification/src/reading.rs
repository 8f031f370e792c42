//! What reading a directory gives, and which of it becomes entries. An entry
//! whose metadata could not be read is left out, and a directory that could
//! not be read counts as one that holds nothing.

use crate::listing::{models, Entry, EntryModel};
use vstd::prelude::*;

verus! {

/// What was found of one entry of a directory: its path, and whether it is a
/// directory, or `None` where its metadata could not be read.
#[derive(Debug, PartialEq, Eq)]
pub struct Found {
    pub path: String,
    pub is_dir: Option<bool>,
}

/// What was found of an entry, as a mathematical value.
pub struct FoundModel {
    pub path: Seq<char>,
    pub is_dir: Option<bool>,
}

impl View for Found {
    type V = FoundModel;

    open spec fn view(&self) -> FoundModel {
        FoundModel { path: self.path@, is_dir: self.is_dir }
    }
}

/// What was found in a directory, as values, in order.
pub open spec fn found_models(found: Seq<Found>) -> Seq<FoundModel> {
    found.map_values(|f: Found| f@)
}

/// The entry that something found stands for, if its metadata was read.
pub open spec fn as_entry(found: FoundModel) -> Option<EntryModel> {
    match found.is_dir {
        Some(is_dir) => Some(EntryModel { path: found.path, is_dir }),
        None => None,
    }
}

/// `as_entry` as a function value.
pub open spec fn to_entry() -> spec_fn(FoundModel) -> Option<EntryModel> {
    |found: FoundModel| as_entry(found)
}

/// The entries among what was found: those whose metadata could be read, in
/// the order in which they were found.
pub open spec fn readable(found: Seq<FoundModel>) -> Seq<EntryModel> {
    found.filter_map(to_entry())
}

/// The entries that a reading of a directory gives. `None` stands for a
/// directory that could not be read, and gives no entries.
pub open spec fn entries_read(reading: Option<Seq<FoundModel>>) -> Seq<EntryModel> {
    match reading {
        Some(found) => readable(found),
        None => Seq::empty(),
    }
}

/// An entry is among the readable ones exactly when it was found with its
/// metadata.
pub proof fn lemma_readable_are_those_with_metadata(found: Seq<FoundModel>, entry: EntryModel)
    ensures
        readable(found).contains(entry) <==> found.contains(
            FoundModel { path: entry.path, is_dir: Some(entry.is_dir) },
        ),
    decreases found.len(),
{
    let with_metadata = FoundModel { path: entry.path, is_dir: Some(entry.is_dir) };
    if readable(found).contains(entry) {
        found.lemma_filter_map_contains(to_entry(), entry);
        let source = choose|t: FoundModel| #[trigger]
            found.contains(t) && to_entry()(t) == Some(entry);
        assert(source == with_metadata);
    }
    if found.len() > 0 && found.contains(with_metadata) {
        let front = found.drop_last();
        let i = choose|i: int| 0 <= i < found.len() && found[i] == with_metadata;
        if i < front.len() {
            assert(front[i] == with_metadata);
            lemma_readable_are_those_with_metadata(front, entry);
            let k = choose|k: int| 0 <= k < readable(front).len() && readable(front)[k] == entry;
            assert(readable(found)[k] == entry);
        } else {
            assert(readable(found)[readable(found).len() - 1] == entry);
        }
    }
}

/// The entries that a reading of a directory gives.
pub fn entries_of(reading: Option<Vec<Found>>) -> (entries: Vec<Entry>)
    ensures
        models(entries@) == entries_read(
            match reading {
                Some(found) => Some(found_models(found@)),
                None => None,
            },
        ),
{
    let mut entries: Vec<Entry> = Vec::new();
    match reading {
        Some(found) => {
            let ghost all = found_models(found@);
            assert(all.take(0) =~= Seq::<FoundModel>::empty());
            for item in it: found
                invariant
                    found_models(it.seq()) == all,
                    models(entries@) == readable(all.take(it.index())),
            {
                proof {
                    all.lemma_filter_map_take_succ(to_entry(), it.index());
                }
                match item.is_dir {
                    Some(is_dir) => {
                        entries.push(Entry { path: item.path, is_dir });
                    },
                    None => {},
                }
            }
            assert(all.take(all.len() as int) == all);
        },
        None => {},
    }
    entries
}

} // verus!
