//! Small operations on text that the rest of the library is built on.

use vstd::prelude::*;
use vstd::string::StringExecFns;

verus! {

/// Appending one character to a `String` appends it to the view.
pub assume_specification[ String::push ](s: &mut String, c: char)
    ensures
        final(s)@ == old(s)@.push(c),
;

/// Whether `word` stands in `text` at position `at`.
pub open spec fn occurs_at(text: Seq<char>, at: int, word: Seq<char>) -> bool {
    0 <= at && at + word.len() <= text.len() && text.subrange(at, at + word.len()) == word
}

/// Whether `word` stands somewhere in `text`.
pub open spec fn occurs(text: Seq<char>, word: Seq<char>) -> bool {
    exists|at: int| occurs_at(text, at, word)
}

/// `text` with each occurrence of `word` replaced by `with`, the occurrences
/// taken from left to right, none overlapping the one before it. With an
/// empty word the text is left as it is.
pub open spec fn replaced(text: Seq<char>, word: Seq<char>, with: Seq<char>) -> Seq<char>
    decreases text.len(),
{
    if word.len() == 0 || text.len() == 0 {
        text
    } else if occurs_at(text, 0, word) {
        with + replaced(text.skip(word.len() as int), word, with)
    } else {
        seq![text[0]] + replaced(text.skip(1), word, with)
    }
}

/// The characters of a text, one by one.
pub fn chars_of(text: &str) -> (out: Vec<char>)
    ensures
        out@ == text@,
{
    let mut out: Vec<char> = Vec::new();
    for c in it: text.chars()
        invariant
            it.seq() == text@,
            out@ == text@.take(it.index()),
    {
        out.push(c);
    }
    out
}

/// Whether two texts are the same, character by character.
pub fn same_text(a: &str, b: &str) -> (out: bool)
    ensures
        out == (a@ == b@),
{
    let left = chars_of(a);
    let right = chars_of(b);
    if left.len() != right.len() {
        return false;
    }
    let mut i: usize = 0;
    while i < left.len()
        invariant
            i <= left.len(),
            left.len() == right.len(),
            left@ == a@,
            right@ == b@,
            forall|j: int| 0 <= j < i ==> left@[j] == right@[j],
        decreases left.len() - i,
    {
        if left[i] != right[i] {
            return false;
        }
        i += 1;
    }
    assert(left@ =~= right@);
    true
}

/// Tells whether `word` stands in `text` at position `at`.
pub fn word_at(text: &Vec<char>, at: usize, word: &Vec<char>) -> (out: bool)
    ensures
        out == occurs_at(text@, at as int, word@),
{
    if at > text.len() || word.len() > text.len() - at {
        return false;
    }
    let mut k: usize = 0;
    while k < word.len()
        invariant
            k <= word.len(),
            at + word.len() <= text.len(),
            forall|j: int| 0 <= j < k ==> text@[at + j] == word@[j],
        decreases word.len() - k,
    {
        if text[at + k] != word[k] {
            assert(text@.subrange(at as int, at + word.len())[k as int] != word@[k as int]);
            return false;
        }
        k += 1;
    }
    assert(text@.subrange(at as int, at + word.len()) =~= word@);
    true
}

/// Tells whether `word` stands somewhere in `text`.
pub fn contains_word(text: &Vec<char>, word: &Vec<char>) -> (out: bool)
    ensures
        out == occurs(text@, word@),
{
    let mut at: usize = 0;
    while at < text.len()
        invariant
            at <= text.len(),
            forall|j: int| 0 <= j < at ==> !occurs_at(text@, j, word@),
        decreases text.len() - at,
    {
        if word_at(text, at, word) {
            return true;
        }
        at += 1;
    }
    word_at(text, at, word)
}

/// The text that a list of characters spells.
pub fn text_of(chars: &Vec<char>) -> (out: String)
    ensures
        out@ == chars@,
{
    let mut out = String::new();
    let mut i: usize = 0;
    while i < chars.len()
        invariant
            i <= chars.len(),
            out@ == chars@.take(i as int),
        decreases chars.len() - i,
    {
        out.push(chars[i]);
        assert(chars@.take(i as int).push(chars@[i as int]) == chars@.take(i + 1));
        i += 1;
    }
    assert(chars@.take(chars.len() as int) == chars@);
    out
}

/// Replaces each occurrence of `word` in `text` by `with`, from left to
/// right. An empty word occurs nowhere: the text is left as it is.
pub fn replace_word(text: &Vec<char>, word: &Vec<char>, with: &str) -> (out: String)
    ensures
        out@ == replaced(text@, word@, with@),
{
    if word.len() == 0 {
        return text_of(text);
    }
    let mut out = String::new();
    let mut i: usize = 0;
    assert(text@.skip(0) == text@);
    assert(out@ + replaced(text@, word@, with@) == replaced(text@, word@, with@));
    while i < text.len()
        invariant
            i <= text.len(),
            word.len() > 0,
            out@ + replaced(text@.skip(i as int), word@, with@) == replaced(text@, word@, with@),
        decreases text.len() - i,
    {
        let ghost rest = text@.skip(i as int);
        if word_at(text, i, word) {
            proof {
                assert(rest.subrange(0, word.len() as int) == text@.subrange(
                    i as int,
                    i + word.len(),
                ));
                assert(occurs_at(rest, 0, word@));
                assert(rest.skip(word.len() as int) == text@.skip(i + word.len()));
                assert(out@ + (with@ + replaced(text@.skip(i + word.len()), word@, with@)) == (out@
                    + with@) + replaced(text@.skip(i + word.len()), word@, with@));
            }
            out.append(with);
            i += word.len();
        } else {
            proof {
                if occurs_at(rest, 0, word@) {
                    assert(rest.subrange(0, word.len() as int) == text@.subrange(
                        i as int,
                        i + word.len(),
                    ));
                }
                assert(rest.skip(1) == text@.skip(i + 1));
                assert(rest[0] == text@[i as int]);
                assert(out@ + (seq![text@[i as int]] + replaced(text@.skip(i + 1), word@, with@))
                    == out@.push(text@[i as int]) + replaced(text@.skip(i + 1), word@, with@));
            }
            out.push(text[i]);
            i += 1;
        }
    }
    assert(text@.skip(text.len() as int).len() == 0);
    assert(out@ + Seq::<char>::empty() == out@);
    out
}

} // verus!
