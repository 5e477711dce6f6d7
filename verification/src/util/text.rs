//! Small operations on text that the field grammar is written with.

use vstd::prelude::*;
use vstd::slice::slice_subrange;
use vstd::std_specs::iter::IteratorSpec;
use vstd::string::*;

verus! {

/// The lower case form of an ASCII letter; any other character unchanged.
pub open spec fn lower(c: char) -> char {
    if 'A' <= c <= 'Z' {
        ((c as u8) + 32) as char
    } else {
        c
    }
}

/// `text` with each ASCII capital replaced by its lower case form.
pub open spec fn lower_text(text: Seq<char>) -> Seq<char> {
    Seq::new(text.len(), |i: int| lower(text[i]))
}

/// `index` is where `c` first stands in `text`.
pub open spec fn is_first(text: Seq<char>, c: char, index: int) -> bool {
    &&& 0 <= index < text.len()
    &&& text[index] == c
    &&& forall|j: int| 0 <= j < index ==> text[j] != c
}

/// `text` cut at the first `c`: what stands before it and what stands after
/// it. `None` where `text` holds no `c`.
pub open spec fn split_once(text: Seq<char>, c: char) -> Option<(Seq<char>, Seq<char>)> {
    if text.contains(c) {
        let index = choose|index: int| is_first(text, c, index);
        Some((text.subrange(0, index), text.subrange(index + 1, text.len() as int)))
    } else {
        None
    }
}

/// A character that lowering leaves as it is and turns no other into: any
/// that is no ASCII letter.
pub open spec fn is_caseless(c: char) -> bool {
    !('a' <= c <= 'z') && !('A' <= c <= 'Z')
}

/// Lowering text twice changes nothing more.
pub proof fn lemma_lower_text_idempotent(text: Seq<char>)
    ensures
        lower_text(lower_text(text)) == lower_text(text),
{
    assert(lower_text(lower_text(text)) =~= lower_text(text));
}

/// Cutting at a character without case and lowering can be done in either
/// order.
pub proof fn lemma_split_once_lower(text: Seq<char>, c: char)
    requires
        is_caseless(c),
    ensures
        match split_once(text, c) {
            Some((before, after)) => split_once(lower_text(text), c) == Some(
                (lower_text(before), lower_text(after)),
            ),
            None => split_once(lower_text(text), c) is None,
        },
        text.contains(c) == lower_text(text).contains(c),
{
    let lowered = lower_text(text);
    if text.contains(c) {
        let index = choose|index: int| is_first(text, c, index);
        let at = choose|i: int| 0 <= i < text.len() && text[i] == c;
        lemma_first_exists(text, c, at);
        assert(lowered[index] == c);
        assert(lowered.contains(c));
        assert(is_first(lowered, c, index)) by {
            assert forall|j: int| 0 <= j < index implies lowered[j] != c by {
                assert(text[j] != c);
            }
        }
        let chosen = choose|k: int| is_first(lowered, c, k);
        assert(chosen == index);
        assert(lowered.subrange(0, index) =~= lower_text(text.subrange(0, index)));
        assert(lowered.subrange(index + 1, lowered.len() as int) =~= lower_text(
            text.subrange(index + 1, text.len() as int),
        ));
    } else {
        if lowered.contains(c) {
            let at = choose|i: int| 0 <= i < lowered.len() && lowered[i] == c;
            assert(text[at] == c);
        }
    }
}

/// Text that holds `c` holds it at a first place.
proof fn lemma_first_exists(text: Seq<char>, c: char, at: int)
    requires
        0 <= at < text.len(),
        text[at] == c,
    ensures
        exists|index: int| is_first(text, c, index),
    decreases at,
{
    if exists|j: int| 0 <= j < at && text[j] == c {
        let j = choose|j: int| 0 <= j < at && text[j] == c;
        lemma_first_exists(text, c, j);
    } else {
        assert(is_first(text, c, at));
    }
}

/// The characters of `text`, in order.
pub fn chars_of(text: &str) -> (chars: Vec<char>)
    ensures
        chars@ == text@,
{
    broadcast use vstd::string::group_string_axioms;

    let mut rest = text.chars();
    let mut chars: Vec<char> = Vec::new();
    loop
        invariant
            chars@ + rest.remaining() == text@,
            rest.decrease() is Some,
        decreases rest.decrease()->0,
    {
        let ghost before = rest.remaining();
        match rest.next() {
            Some(c) => {
                chars.push(c);
                assert(chars@ + rest.remaining() =~= text@) by {
                    assert(before =~= seq![c] + rest.remaining());
                }
            },
            None => {
                assert(chars@ =~= text@);
                return chars;
            },
        }
    }
}

/// The text that `chars` make.
pub fn string_of(chars: &[char]) -> (text: String)
    ensures
        text@ == chars@,
{
    let mut text = String::new();
    let mut i: usize = 0;
    while i < chars.len()
        invariant
            i <= chars@.len(),
            text@ == chars@.subrange(0, i as int),
        decreases chars@.len() - i,
    {
        text.push(chars[i]);
        assert(text@ =~= chars@.subrange(0, i + 1));
        i += 1;
    }
    assert(chars@.subrange(0, i as int) =~= chars@);
    text
}

/// Where `c` first stands in `text`, if anywhere.
pub fn find_char(text: &[char], c: char) -> (found: Option<usize>)
    ensures
        match found {
            Some(index) => is_first(text@, c, index as int),
            None => !text@.contains(c),
        },
{
    let mut i: usize = 0;
    while i < text.len()
        invariant
            i <= text@.len(),
            forall|j: int| 0 <= j < i ==> text@[j] != c,
        decreases text@.len() - i,
    {
        if text[i] == c {
            return Some(i);
        }
        i += 1;
    }
    None
}

/// Cuts `text` at the first `c`.
pub fn cut_at<'a>(text: &'a [char], c: char) -> (parts: Option<(&'a [char], &'a [char])>)
    ensures
        match parts {
            Some((before, after)) => split_once(text@, c) == Some((before@, after@)),
            None => split_once(text@, c) is None,
        },
{
    match find_char(text, c) {
        Some(index) => {
            let len: usize = text.len();
            assert(index < len);
            let before = slice_subrange(text, 0, index);
            let after = slice_subrange(text, index + 1, len);
            proof {
                assert(text@.contains(c));
                let chosen = choose|k: int| is_first(text@, c, k);
                assert(chosen == index);
            }
            Some((before, after))
        },
        None => None,
    }
}

/// The lower case form of one character.
pub fn to_lower(c: char) -> (l: char)
    ensures
        l == lower(c),
{
    if 'A' <= c && c <= 'Z' {
        ((c as u8) + 32) as char
    } else {
        c
    }
}

/// Whether `text`, taken without regard to the case of its ASCII letters, is
/// `keyword`.
pub fn lowered_is(text: &[char], keyword: &str) -> (same: bool)
    ensures
        same == (lower_text(text@) == keyword@),
{
    let word = chars_of(keyword);
    if text.len() != word.len() {
        return false;
    }
    let mut i: usize = 0;
    while i < text.len()
        invariant
            i <= text@.len(),
            text@.len() == word@.len(),
            word@ == keyword@,
            forall|j: int| 0 <= j < i ==> lower(text@[j]) == word@[j],
        decreases text@.len() - i,
    {
        if to_lower(text[i]) != word[i] {
            assert(lower_text(text@)[i as int] != keyword@[i as int]);
            return false;
        }
        i += 1;
    }
    assert(lower_text(text@) =~= keyword@);
    true
}

} // verus!
