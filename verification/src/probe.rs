//! The path prober: whether what was observed of a folder satisfies the path
//! specs of a rule clause.
//!
//! A literal spec is satisfied when the path it names exists under the
//! folder. A glob spec is satisfied when the pattern compiles and matches the
//! root-relative path of at least one entry of the folder's subtree.

use vstd::prelude::*;
use crate::config::texts;
use crate::glob::{compile, glob_matches, pattern_compiles};
use crate::paths::{is_glob, is_glob_spec, normalized};

verus! {

/// What was observed of one folder on disk.
///
/// Whoever fills it decides what "exists" means: a path that could not be
/// read is left out, so an unreadable entry counts as absent.
#[derive(Debug, Clone)]
pub struct FolderSnapshot {
    /// The literal path specs, as the rules write them, that name an
    /// existing file or directory under the folder.
    pub present: Vec<String>,
    /// The path of every entry of the folder's subtree, relative to the
    /// folder.
    pub entries: Vec<String>,
}

/// What a [`FolderSnapshot`] holds, as mathematical values.
pub struct FolderSnapshotView {
    pub present: Seq<Seq<char>>,
    pub entries: Seq<Seq<char>>,
}

impl View for FolderSnapshot {
    type V = FolderSnapshotView;

    open spec fn view(&self) -> FolderSnapshotView {
        FolderSnapshotView { present: texts(self.present@), entries: texts(self.entries@) }
    }
}

/// Whether a literal spec names a path that exists under the folder.
pub open spec fn literal_satisfied(snapshot: FolderSnapshotView, spec: Seq<char>) -> bool {
    snapshot.present.contains(spec)
}

/// Whether a compiled pattern matches one of the entries.
pub open spec fn some_entry_matches(pattern: Seq<char>, entries: Seq<Seq<char>>) -> bool {
    exists|i: int|
        0 <= i < entries.len() && glob_matches(pattern, normalized(#[trigger] entries[i]))
}

/// Whether a glob spec compiles and matches an entry of the subtree. A
/// pattern that does not compile is satisfied by nothing.
pub open spec fn glob_satisfied(snapshot: FolderSnapshotView, spec: Seq<char>) -> bool {
    pattern_compiles(normalized(spec)) && some_entry_matches(normalized(spec), snapshot.entries)
}

/// Whether one path spec is satisfied, by the rule of its kind.
pub open spec fn spec_satisfied(snapshot: FolderSnapshotView, spec: Seq<char>) -> bool {
    if is_glob_spec(spec) {
        glob_satisfied(snapshot, spec)
    } else {
        literal_satisfied(snapshot, spec)
    }
}

/// Whether an `any` clause is satisfied: it is empty, or one of its specs is
/// satisfied.
pub open spec fn any_satisfied(snapshot: FolderSnapshotView, specs: Seq<Seq<char>>) -> bool {
    specs.len() == 0 || exists|i: int|
        0 <= i < specs.len() && spec_satisfied(snapshot, #[trigger] specs[i])
}

/// Whether an `all` clause is satisfied: each of its specs is satisfied.
pub open spec fn all_satisfied(snapshot: FolderSnapshotView, specs: Seq<Seq<char>>) -> bool {
    forall|i: int| 0 <= i < specs.len() ==> spec_satisfied(snapshot, #[trigger] specs[i])
}

/// Looks a literal spec up among the paths that exist.
pub fn probe_literal(snapshot: &FolderSnapshot, spec: &String) -> (out: bool)
    ensures
        out == literal_satisfied(snapshot@, spec@),
{
    let mut i: usize = 0;
    while i < snapshot.present.len()
        invariant
            i <= snapshot.present.len(),
            forall|j: int| 0 <= j < i ==> snapshot@.present[j] != spec@,
        decreases snapshot.present.len() - i,
    {
        if snapshot.present[i] == *spec {
            assert(snapshot@.present[i as int] == spec@);
            return true;
        }
        i += 1;
    }
    false
}

/// Compiles a glob spec and tries it on the entries, up to the first hit.
pub fn probe_glob(snapshot: &FolderSnapshot, spec: &String) -> (out: bool)
    ensures
        out == glob_satisfied(snapshot@, spec@),
{
    match compile(spec.as_str()) {
        Err(_) => false,
        Ok(matcher) => {
            let mut i: usize = 0;
            while i < snapshot.entries.len()
                invariant
                    i <= snapshot.entries.len(),
                    pattern_compiles(normalized(spec@)),
                    matcher.pattern() == normalized(spec@),
                    forall|j: int|
                        0 <= j < i ==> !glob_matches(
                            normalized(spec@),
                            normalized(#[trigger] snapshot@.entries[j]),
                        ),
                decreases snapshot.entries.len() - i,
            {
                if matcher.matches(snapshot.entries[i].as_str()) {
                    assert(glob_matches(normalized(spec@), normalized(snapshot@.entries[i as int])));
                    return true;
                }
                i += 1;
            }
            false
        },
    }
}

/// Decides one path spec: a glob against the entries, a literal against the
/// paths that exist.
pub fn probe_spec(snapshot: &FolderSnapshot, spec: &String) -> (out: bool)
    ensures
        out == spec_satisfied(snapshot@, spec@),
{
    if is_glob(spec.as_str()) {
        probe_glob(snapshot, spec)
    } else {
        probe_literal(snapshot, spec)
    }
}

/// Whether at least one spec of the list is satisfied, stopping at the first
/// that is. An empty list is satisfied.
pub fn probe_any(snapshot: &FolderSnapshot, specs: &Vec<String>) -> (out: bool)
    ensures
        out == any_satisfied(snapshot@, texts(specs@)),
{
    if specs.len() == 0 {
        return true;
    }
    let mut i: usize = 0;
    while i < specs.len()
        invariant
            i <= specs.len(),
            forall|j: int| 0 <= j < i ==> !spec_satisfied(snapshot@, #[trigger] texts(specs@)[j]),
        decreases specs.len() - i,
    {
        if probe_spec(snapshot, &specs[i]) {
            assert(spec_satisfied(snapshot@, texts(specs@)[i as int]));
            return true;
        }
        i += 1;
    }
    false
}

/// Whether every spec of the list is satisfied, stopping at the first that
/// is not. An empty list is satisfied.
pub fn probe_all(snapshot: &FolderSnapshot, specs: &Vec<String>) -> (out: bool)
    ensures
        out == all_satisfied(snapshot@, texts(specs@)),
{
    let mut i: usize = 0;
    while i < specs.len()
        invariant
            i <= specs.len(),
            forall|j: int| 0 <= j < i ==> spec_satisfied(snapshot@, #[trigger] texts(specs@)[j]),
        decreases specs.len() - i,
    {
        if !probe_spec(snapshot, &specs[i]) {
            assert(!spec_satisfied(snapshot@, texts(specs@)[i as int]));
            return false;
        }
        i += 1;
    }
    true
}

} // verus!
