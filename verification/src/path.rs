//! Paths as text: the two questions the browser asks of a path, answered by
//! `std::path`.

use std::path::Path;
use vstd::prelude::*;

verus! {

/// What `Path::file_name` finds in a path: its final component, the name
/// of the file or directory, or `None` where the path does not end in one
/// (as where it ends in `..`).
pub uninterp spec fn file_name_of(path: Seq<char>) -> Option<Seq<char>>;

/// What `Path::parent` finds for a path: the path without its final
/// component, or `None` where the path is empty or ends in a root or prefix.
pub uninterp spec fn parent_of(path: Seq<char>) -> Option<Seq<char>>;

/// The name under which an entry is shown and filtered: the final component
/// of its path, or the empty text where the path has none.
pub open spec fn display_name(path: Seq<char>) -> Seq<char> {
    match file_name_of(path) {
        Some(name) => name,
        None => Seq::empty(),
    }
}

/// `Path::file_name`, on a path given as text. The result depends on the
/// path alone.
#[verifier::external_body]
pub(crate) fn file_name(path: &str) -> (name: Option<String>)
    ensures
        match name {
            Some(n) => file_name_of(path@) == Some(n@),
            None => file_name_of(path@) is None,
        },
{
    match Path::new(path).file_name() {
        Some(name) => Some(name.to_string_lossy().into_owned()),
        None => None,
    }
}

/// `Path::parent`, on a path given as text. The result depends on the path
/// alone; being the path without its final component, it is shorter than
/// the path.
#[verifier::external_body]
pub(crate) fn parent(path: &str) -> (dir: Option<String>)
    ensures
        match dir {
            Some(d) => parent_of(path@) == Some(d@) && d@.len() < path@.len(),
            None => parent_of(path@) is None,
        },
{
    match Path::new(path).parent() {
        Some(dir) => Some(dir.to_string_lossy().into_owned()),
        None => None,
    }
}

/// The name under which the entry at `path` is shown.
pub fn name_of(path: &str) -> (name: String)
    ensures
        name@ == display_name(path@),
{
    match file_name(path) {
        Some(name) => name,
        None => String::new(),
    }
}

} // verus!
