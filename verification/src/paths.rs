//! Path specs and relative paths as text: which specs are glob patterns, and
//! the one separator that patterns and paths are compared under.

use vstd::prelude::*;

verus! {

/// Whether a character is one of the glob metacharacters `*`, `?` and `[`.
pub open spec fn is_glob_meta(c: char) -> bool {
    c == '*' || c == '?' || c == '['
}

/// Whether a path spec is a glob pattern: it holds a glob metacharacter.
/// Every other spec is a literal.
pub open spec fn is_glob_spec(spec: Seq<char>) -> bool {
    exists|i: int| 0 <= i < spec.len() && is_glob_meta(#[trigger] spec[i])
}

/// A path or pattern with every backslash turned into a slash.
pub open spec fn normalized(text: Seq<char>) -> Seq<char> {
    Seq::new(text.len(), |i: int| if text[i] == '\\' { '/' } else { text[i] })
}

/// Tells a glob pattern from a literal path spec.
pub fn is_glob(spec: &str) -> (out: bool)
    ensures
        out == is_glob_spec(spec@),
{
    let mut found = false;
    for c in it: spec.chars()
        invariant
            it.seq() == spec@,
            found == (exists|i: int| 0 <= i < it.index() && is_glob_meta(#[trigger] spec@[i])),
    {
        if c == '*' || c == '?' || c == '[' {
            found = true;
        }
    }
    found
}

/// Writes a path or a pattern with `/` as its only separator.
pub fn normalize_separators(text: &str) -> (out: String)
    ensures
        out@ == normalized(text@),
{
    let mut out = String::new();
    for c in it: text.chars()
        invariant
            it.seq() == text@,
            out@ == normalized(text@).take(it.index()),
    {
        if c == '\\' {
            out.push('/');
        } else {
            out.push(c);
        }
    }
    out
}

} // verus!
