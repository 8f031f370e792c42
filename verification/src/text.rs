//! Text as sequences of characters: the order in which paths are listed and
//! the substring test behind the filter.

use vstd::prelude::*;
use vstd::std_specs::iter::IteratorSpec;

verus! {

/// Lexicographic order on text, character by character and by code point.
/// A text comes before every text that it is a proper prefix of.
pub open spec fn text_le(a: Seq<char>, b: Seq<char>) -> bool
    decreases a.len(),
{
    if a.len() == 0 {
        true
    } else if b.len() == 0 {
        false
    } else if a[0] == b[0] {
        text_le(a.drop_first(), b.drop_first())
    } else {
        a[0] < b[0]
    }
}

/// Two different characters are ordered one way or the other.
proof fn lemma_char_trichotomy(x: char, y: char)
    ensures
        x == y || x < y || y < x,
{
}

/// Every text is at most itself.
pub proof fn lemma_text_le_reflexive(a: Seq<char>)
    ensures
        text_le(a, a),
    decreases a.len(),
{
    if a.len() > 0 {
        lemma_text_le_reflexive(a.drop_first());
    }
}

/// Any two texts are ordered one way or the other.
pub proof fn lemma_text_le_total(a: Seq<char>, b: Seq<char>)
    ensures
        text_le(a, b) || text_le(b, a),
    decreases a.len(),
{
    if a.len() > 0 && b.len() > 0 {
        if a[0] == b[0] {
            lemma_text_le_total(a.drop_first(), b.drop_first());
        } else {
            lemma_char_trichotomy(a[0], b[0]);
        }
    }
}

/// Two texts that are each at most the other are the same text.
pub proof fn lemma_text_le_antisymmetric(a: Seq<char>, b: Seq<char>)
    requires
        text_le(a, b),
        text_le(b, a),
    ensures
        a == b,
    decreases a.len(),
{
    if a.len() == 0 || b.len() == 0 {
        assert(a =~= b);
    } else {
        lemma_text_le_antisymmetric(a.drop_first(), b.drop_first());
        assert(a =~= seq![a[0]] + a.drop_first());
        assert(b =~= seq![b[0]] + b.drop_first());
    }
}

/// The order is transitive.
pub proof fn lemma_text_le_transitive(a: Seq<char>, b: Seq<char>, c: Seq<char>)
    requires
        text_le(a, b),
        text_le(b, c),
    ensures
        text_le(a, c),
    decreases a.len(),
{
    if a.len() > 0 && b.len() > 0 && c.len() > 0 && a[0] == b[0] && b[0] == c[0] {
        lemma_text_le_transitive(a.drop_first(), b.drop_first(), c.drop_first());
    }
}

/// Whether `a` comes before `b` or equals it, in the order of `text_le`.
pub fn str_le(a: &str, b: &str) -> (le: bool)
    ensures
        le == text_le(a@, b@),
{
    let mut left = a.chars();
    let mut right = b.chars();
    loop
        invariant
            text_le(a@, b@) == text_le(left.remaining(), right.remaining()),
            left.decrease() is Some,
        decreases left.decrease()->0,
    {
        match left.next() {
            None => {
                return true;
            },
            Some(x) => {
                match right.next() {
                    None => {
                        return false;
                    },
                    Some(y) => {
                        if x != y {
                            return x < y;
                        }
                    },
                }
            },
        }
    }
}

/// Whether `needle` stands in `hay` from position `start` on.
pub open spec fn occurs_at(needle: Seq<char>, hay: Seq<char>, start: int) -> bool {
    &&& 0 <= start
    &&& start + needle.len() <= hay.len()
    &&& hay.subrange(start, start + needle.len()) == needle
}

/// Whether `needle` occurs in `hay` as a run of consecutive characters.
/// The empty text occurs in every text.
pub open spec fn is_substring(needle: Seq<char>, hay: Seq<char>) -> bool {
    exists|start: int| occurs_at(needle, hay, start)
}

/// What `str::to_lowercase` makes of a text: its lowercase form as Unicode defines it.
pub uninterp spec fn lowercase_of(text: Seq<char>) -> Seq<char>;

/// `str::to_lowercase` returns the lowercase form of the text, which depends
/// on the text alone.
pub assume_specification[ str::to_lowercase ](text: &str) -> (lower: String)
    ensures
        lower@ == lowercase_of(text@),
;

/// `String::push` appends the character to the end of the text.
pub assume_specification[ String::push ](text: &mut String, c: char)
    ensures
        final(text)@ == old(text)@.push(c),
;

/// `String::pop` takes the last character off the text and returns it, or
/// returns `None` and leaves the text alone where it is empty.
pub assume_specification[ String::pop ](text: &mut String) -> (last: Option<char>)
    ensures
        match last {
            Some(c) => old(text)@.len() > 0 && c == old(text)@.last() && final(text)@ == old(
                text,
            )@.drop_last(),
            None => old(text)@.len() == 0 && final(text)@ == old(text)@,
        },
;

/// The characters of a text, in order.
pub fn chars_of(text: &str) -> (chars: Vec<char>)
    ensures
        chars@ == text@,
{
    let mut chars: Vec<char> = Vec::new();
    let mut rest = text.chars();
    loop
        invariant
            text@ == chars@ + rest.remaining(),
            rest.decrease() is Some,
        decreases rest.decrease()->0,
    {
        match rest.next() {
            None => {
                assert(text@ =~= chars@);
                return chars;
            },
            Some(c) => {
                proof {
                    let before = chars@;
                    let tail = rest.remaining();
                    assert(text@ =~= before.push(c) + tail);
                }
                chars.push(c);
            },
        }
    }
}

/// Whether `needle` stands in `hay` from position `start` on.
fn stands_at(hay: &Vec<char>, needle: &Vec<char>, start: usize) -> (found: bool)
    requires
        start + needle@.len() <= hay@.len() <= usize::MAX,
    ensures
        found == occurs_at(needle@, hay@, start as int),
{
    let mut k: usize = 0;
    while k < needle.len()
        invariant
            k <= needle@.len(),
            start + needle@.len() <= hay@.len() <= usize::MAX,
            forall|j: int| 0 <= j < k ==> hay@[start + j] == needle@[j],
        decreases needle@.len() - k,
    {
        if hay[start + k] != needle[k] {
            proof {
                let window = hay@.subrange(start as int, start + needle@.len());
                assert(window[k as int] == hay@[start + k]);
            }
            return false;
        }
        k += 1;
    }
    assert(hay@.subrange(start as int, start + needle@.len()) =~= needle@);
    true
}

/// Whether `needle` occurs in `hay`.
pub fn contains_text(hay: &str, needle: &str) -> (found: bool)
    ensures
        found == is_substring(needle@, hay@),
{
    let hay_chars = chars_of(hay);
    let needle_chars = chars_of(needle);
    if needle_chars.len() > hay_chars.len() {
        return false;
    }
    let last = hay_chars.len() - needle_chars.len();
    let mut start: usize = 0;
    loop
        invariant
            start <= last,
            last + needle_chars@.len() == hay_chars@.len() <= usize::MAX,
            hay_chars@ == hay@,
            needle_chars@ == needle@,
            forall|s: int| 0 <= s < start ==> !occurs_at(needle@, hay@, s),
        decreases last - start,
    {
        if stands_at(&hay_chars, &needle_chars, start) {
            return true;
        }
        if start == last {
            return false;
        }
        start += 1;
    }
}

} // verus!
