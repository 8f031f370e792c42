//! The path in the header of the browser: the current directory, shortened
//! where it begins with the home directory, and cut into its parts.

use crate::text::chars_of;
use vstd::prelude::*;

verus! {

/// The path as the header shows it: where the path begins with the text of
/// the home directory, `~` stands in for that beginning.
pub open spec fn shortened(path: Seq<char>, home: Seq<char>) -> Seq<char> {
    if home.is_prefix_of(path) {
        seq!['~'] + path.skip(home.len() as int)
    } else {
        path
    }
}

/// The parts of a path: its runs of characters between separators, from
/// left to right. Separators next to each other, or at an end of the path,
/// enclose no part.
pub open spec fn parts_of(path: Seq<char>) -> Seq<Seq<char>>
    decreases path.len(),
{
    if path.len() == 0 {
        Seq::empty()
    } else {
        let front = path.drop_last();
        let before = parts_of(front);
        if path.last() == '/' {
            before
        } else if front.len() > 0 && front.last() != '/' {
            before.drop_last().push(before.last().push(path.last()))
        } else {
            before.push(seq![path.last()])
        }
    }
}

/// The texts of a vector of strings, in order.
pub open spec fn texts(strings: Seq<String>) -> Seq<Seq<char>> {
    strings.map_values(|s: String| s@)
}

/// No part is empty, and none holds a separator.
pub proof fn lemma_parts_are_names(path: Seq<char>, k: int)
    requires
        0 <= k < parts_of(path).len(),
    ensures
        parts_of(path)[k].len() > 0,
        !parts_of(path)[k].contains('/'),
    decreases path.len(),
{
    if path.len() > 0 {
        let front = path.drop_last();
        let before = parts_of(front);
        if path.last() == '/' {
            lemma_parts_are_names(front, k);
        } else if front.len() > 0 && front.last() != '/' {
            lemma_ends_in_a_part(front);
            if k < before.len() - 1 {
                lemma_parts_are_names(front, k);
            } else {
                lemma_parts_are_names(front, before.len() - 1);
                let grown = before.last().push(path.last());
                assert forall|i: int| 0 <= i < grown.len() implies grown[i] != '/' by {
                    if i < before.last().len() {
                        assert(before.last().contains(before.last()[i]));
                    }
                }
            }
        } else {
            if k < before.len() {
                lemma_parts_are_names(front, k);
            } else {
                let fresh = seq![path.last()];
                assert forall|i: int| 0 <= i < fresh.len() implies fresh[i] != '/' by {}
            }
        }
    }
}

/// A path that does not end in a separator ends in a part.
proof fn lemma_ends_in_a_part(path: Seq<char>)
    requires
        path.len() > 0,
        path.last() != '/',
    ensures
        parts_of(path).len() > 0,
{
}

/// Whether `text` begins with `prefix`.
fn begins_with(text: &Vec<char>, prefix: &Vec<char>) -> (begins: bool)
    ensures
        begins == prefix@.is_prefix_of(text@),
{
    if prefix.len() > text.len() {
        return false;
    }
    let mut i: usize = 0;
    while i < prefix.len()
        invariant
            i <= prefix@.len() <= text@.len(),
            forall|j: int| 0 <= j < i ==> text@[j] == prefix@[j],
        decreases prefix@.len() - i,
    {
        if text[i] != prefix[i] {
            assert(text@.subrange(0, prefix@.len() as int)[i as int] != prefix@[i as int]);
            return false;
        }
        i += 1;
    }
    assert(prefix@ =~= text@.subrange(0, prefix@.len() as int));
    true
}

/// The path as the header shows it, with `home` as the home directory.
pub fn shorten(path: &str, home: &str) -> (shown: String)
    ensures
        shown@ == shortened(path@, home@),
{
    let path_chars = chars_of(path);
    let home_chars = chars_of(home);
    if begins_with(&path_chars, &home_chars) {
        let mut shown = String::new();
        shown.push('~');
        let mut i: usize = home_chars.len();
        while i < path_chars.len()
            invariant
                home_chars@.len() <= i <= path_chars@.len(),
                shown@ == seq!['~'] + path_chars@.subrange(home_chars@.len() as int, i as int),
            decreases path_chars@.len() - i,
        {
            shown.push(path_chars[i]);
            i += 1;
        }
        assert(path_chars@.subrange(home_chars@.len() as int, i as int) =~= path_chars@.skip(
            home_chars@.len() as int,
        ));
        shown
    } else {
        path.to_owned()
    }
}

/// The parts of a path.
pub fn parts(path: &str) -> (parts: Vec<String>)
    ensures
        texts(parts@) == parts_of(path@),
{
    let chars = chars_of(path);
    let mut parts: Vec<String> = Vec::new();
    let mut current = String::new();
    let mut i: usize = 0;
    assert(path@.take(0) =~= Seq::<char>::empty());
    while i < chars.len()
        invariant
            i <= chars@.len(),
            chars@ == path@,
            current@.len() == 0 ==> texts(parts@) == parts_of(path@.take(i as int)) && (i == 0
                || path@[i - 1] == '/'),
            current@.len() > 0 ==> texts(parts@).push(current@) == parts_of(path@.take(i as int))
                && i > 0 && path@[i - 1] != '/',
        decreases chars@.len() - i,
    {
        let c = chars[i];
        proof {
            let grown = path@.take(i + 1);
            assert(grown.drop_last() =~= path@.take(i as int));
            assert(grown.last() == c);
            if i > 0 {
                assert(path@.take(i as int).last() == path@[i - 1]);
            }
        }
        if c == '/' {
            if !current.as_str().is_empty() {
                assert(texts(parts@.push(current)) =~= texts(parts@).push(current@));
                parts.push(current);
                current = String::new();
            }
        } else {
            proof {
                let before = parts_of(path@.take(i as int));
                let after = parts_of(path@.take(i + 1));
                if current@.len() > 0 {
                    assert(before.drop_last() =~= texts(parts@));
                    assert(before.last() == current@);
                    assert(after == texts(parts@).push(current@.push(c)));
                } else {
                    assert(current@.push(c) =~= seq![c]);
                    assert(after == texts(parts@).push(current@.push(c)));
                }
            }
            current.push(c);
        }
        i += 1;
    }
    assert(path@.take(i as int) =~= path@);
    if !current.as_str().is_empty() {
        assert(texts(parts@.push(current)) =~= texts(parts@).push(current@));
        parts.push(current);
    }
    parts
}

} // verus!
