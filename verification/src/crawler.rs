//! The crawler's selection: which entries of a directory walk become file
//! records.
//!
//! The walk itself is the caller's. What it found comes in as plain values,
//! and the records of the files that are not ignored go out.

use vstd::prelude::*;
use crate::config::texts;
use crate::glob::{
    glob_matches, is_compile_fault, normalized_each, patterns_compile, some_pattern_matches,
    CompileError, PatternSet,
};
use crate::paths::normalized;

verus! {

/// A point in time, as its distance from the epoch and the side of the
/// epoch on which it lies.
#[derive(Debug, Clone, Copy, PartialEq, Eq, Structural)]
pub struct Timestamp {
    /// The whole seconds of the distance.
    pub secs: u64,
    /// The rest of the distance, in nanoseconds.
    pub nanos: u32,
    /// Whether the time lies before the epoch.
    pub before_epoch: bool,
}

/// What could be read of an entry's metadata.
#[derive(Debug, Clone, Copy)]
pub struct EntryMetadata {
    /// The size in bytes.
    pub size: u64,
    /// The time of the last modification, where it could be read.
    pub modified: Option<Timestamp>,
}

/// One entry of a directory walk, as it was read from disk.
#[derive(Debug, Clone)]
pub struct WalkedEntry {
    /// The path of the entry, as the walk gives it.
    pub path: String,
    /// Whether the entry is a regular file.
    pub is_file: bool,
    /// The metadata, where it could be read.
    pub metadata: Option<EntryMetadata>,
    /// The extension of the file name, where it has one.
    pub extension: Option<String>,
}

/// One file that a crawl found.
#[derive(Debug, Clone)]
pub struct FileRecord {
    pub path: String,
    /// The size in bytes.
    pub size: u64,
    /// The time of the last modification, and the epoch itself where the
    /// time is not known.
    pub modified: Timestamp,
    pub extension: Option<String>,
}

/// What a [`WalkedEntry`] holds, as mathematical values.
pub struct WalkedEntryView {
    pub path: Seq<char>,
    pub is_file: bool,
    pub metadata: Option<EntryMetadata>,
    pub extension: Option<Seq<char>>,
}

impl View for WalkedEntry {
    type V = WalkedEntryView;

    open spec fn view(&self) -> WalkedEntryView {
        WalkedEntryView {
            path: self.path@,
            is_file: self.is_file,
            metadata: self.metadata,
            extension: match self.extension {
                Some(extension) => Some(extension@),
                None => None,
            },
        }
    }
}

/// What a [`FileRecord`] holds, as mathematical values.
pub struct FileRecordView {
    pub path: Seq<char>,
    pub size: u64,
    pub modified: Timestamp,
    pub extension: Option<Seq<char>>,
}

impl View for FileRecord {
    type V = FileRecordView;

    open spec fn view(&self) -> FileRecordView {
        FileRecordView {
            path: self.path@,
            size: self.size,
            modified: self.modified,
            extension: match self.extension {
                Some(extension) => Some(extension@),
                None => None,
            },
        }
    }
}

/// The views of a list of walked entries, element by element.
pub open spec fn entries_view(entries: Seq<WalkedEntry>) -> Seq<WalkedEntryView> {
    Seq::new(entries.len(), |i: int| entries[i]@)
}

/// The views of a list of file records, element by element.
pub open spec fn records_view(records: Seq<FileRecord>) -> Seq<FileRecordView> {
    Seq::new(records.len(), |i: int| records[i]@)
}

/// The epoch itself.
pub open spec fn epoch() -> Timestamp {
    Timestamp { secs: 0, nanos: 0, before_epoch: false }
}

/// A time that may be unknown, with the epoch in place of the unknown.
pub open spec fn known_or_epoch(time: Option<Timestamp>) -> Timestamp {
    match time {
        Some(known) => known,
        None => epoch(),
    }
}

/// A time as the catalog stores it: the whole seconds since the epoch as a
/// signed number, zero where the time is not known or lies before the
/// epoch, and wrapped around where the seconds do not fit.
pub open spec fn unix_seconds(time: Option<Timestamp>) -> int {
    let known = known_or_epoch(time);
    if known.before_epoch {
        0
    } else if known.secs <= i64::MAX {
        known.secs as int
    } else {
        known.secs - 0x1_0000_0000_0000_0000
    }
}

/// Whether an entry becomes a record: it is not ignored, it is a regular
/// file, and its metadata could be read.
pub open spec fn is_recorded(entry: WalkedEntryView, ignore: Seq<Seq<char>>) -> bool {
    !some_pattern_matches(ignore, normalized(entry.path)) && entry.is_file && entry.metadata
        is Some
}

/// The record of an entry that becomes one.
pub open spec fn record_of(entry: WalkedEntryView) -> FileRecordView
    recommends
        entry.metadata is Some,
{
    FileRecordView {
        path: entry.path,
        size: entry.metadata->0.size,
        modified: known_or_epoch(entry.metadata->0.modified),
        extension: entry.extension,
    }
}

/// The records of the first `n` entries, in the order of the walk.
pub open spec fn records_of_prefix(
    entries: Seq<WalkedEntryView>,
    ignore: Seq<Seq<char>>,
    n: int,
) -> Seq<FileRecordView>
    decreases n,
{
    if n <= 0 {
        Seq::empty()
    } else if is_recorded(entries[n - 1], ignore) {
        records_of_prefix(entries, ignore, n - 1).push(record_of(entries[n - 1]))
    } else {
        records_of_prefix(entries, ignore, n - 1)
    }
}

/// How deep a crawl walks: without bound where it is recursive, else down
/// to the entries of the root and no further.
pub fn walk_depth(recursive: bool) -> (out: Option<usize>)
    ensures
        out == if recursive {
            None::<usize>
        } else {
            Some(1usize)
        },
{
    if recursive {
        None
    } else {
        Some(1)
    }
}

/// Turns a time into the signed number of seconds that the catalog stores.
pub fn to_unix(time: Option<Timestamp>) -> (out: i64)
    ensures
        out == unix_seconds(time),
{
    match time {
        None => 0,
        Some(known) => {
            if known.before_epoch {
                0
            } else if known.secs <= 0x7FFF_FFFF_FFFF_FFFF {
                known.secs as i64
            } else {
                let above: u64 = known.secs - 0x8000_0000_0000_0000;
                (above as i64) + i64::MIN
            }
        },
    }
}

/// Selects the records of a walk: one for each entry that is a regular
/// file with readable metadata and that none of the `ignore` patterns
/// matches, in the order of the walk.
///
/// The patterns are matched against the whole path of an entry, with `/`
/// as the only separator on both sides. They are compiled first, which a
/// list without patterns always is; where they do not compile, nothing is
/// selected and the fault is reported. The selection itself is that of
/// [`select_records`].
pub fn crawl(entries: &Vec<WalkedEntry>, ignore: &Vec<String>) -> (out: Result<
    Vec<FileRecord>,
    CompileError,
>)
    ensures
        out is Ok <==> patterns_compile(normalized_each(texts(ignore@))),
        ignore.len() == 0 ==> out is Ok,
        match out {
            Ok(records) => records_view(records@) == records_of_prefix(
                entries_view(entries@),
                normalized_each(texts(ignore@)),
                entries.len() as int,
            ),
            Err(error) => is_compile_fault(texts(ignore@), error@),
        },
{
    match PatternSet::compile(ignore) {
        Ok(ignore_set) => Ok(select_records(entries, &ignore_set)),
        Err(error) => Err(error),
    }
}

/// Selects the records of a walk with a compiled set of ignore patterns:
/// one for each entry that is a regular file with readable metadata and
/// that none of the patterns matches, in the order of the walk.
pub fn select_records(entries: &Vec<WalkedEntry>, ignore: &PatternSet) -> (out: Vec<FileRecord>)
    ensures
        records_view(out@) == records_of_prefix(
            entries_view(entries@),
            ignore.patterns(),
            entries.len() as int,
        ),
{
    let ghost patterns = ignore.patterns();
    let mut records: Vec<FileRecord> = Vec::new();
    let mut i: usize = 0;
    while i < entries.len()
        invariant
            i <= entries.len(),
            ignore.patterns() == patterns,
            records_view(records@) == records_of_prefix(entries_view(entries@), patterns, i as int),
        decreases entries.len() - i,
    {
        let entry = &entries[i];
        assert(entries_view(entries@)[i as int] == entry@);
        let ignored = ignore.is_match(entry.path.as_str());
        if !ignored && entry.is_file {
            match entry.metadata {
                Some(metadata) => {
                    let ghost before = records_view(records@);
                    let record = FileRecord {
                        path: entry.path.clone(),
                        size: metadata.size,
                        modified: match metadata.modified {
                            Some(known) => known,
                            None => Timestamp { secs: 0, nanos: 0, before_epoch: false },
                        },
                        extension: match &entry.extension {
                            Some(extension) => Some(extension.clone()),
                            None => None,
                        },
                    };
                    assert(record@ == record_of(entry@));
                    records.push(record);
                    assert(records_view(records@) == before.push(record_of(entry@)));
                },
                None => {},
            }
        }
        i += 1;
    }
    records
}

/// With no ignore pattern no file is left out for its path: every regular
/// file with readable metadata is recorded.
pub proof fn lemma_empty_ignore_leaves_nothing_out(entry: WalkedEntryView)
    ensures
        is_recorded(entry, Seq::empty()) == (entry.is_file && entry.metadata is Some),
{
}

/// One more ignore pattern records no more: each record of a walk under the
/// longer list of patterns is a record of the walk under the shorter list.
pub proof fn lemma_more_patterns_record_no_more(
    entries: Seq<WalkedEntryView>,
    ignore: Seq<Seq<char>>,
    extra: Seq<char>,
    n: int,
    record: FileRecordView,
)
    requires
        0 <= n <= entries.len(),
        records_of_prefix(entries, ignore.push(extra), n).contains(record),
    ensures
        records_of_prefix(entries, ignore, n).contains(record),
    decreases n,
{
    let more = ignore.push(extra);
    if n > 0 {
        let entry = entries[n - 1];
        let longer = records_of_prefix(entries, more, n - 1);
        let shorter = records_of_prefix(entries, ignore, n - 1);
        if is_recorded(entry, more) {
            assert(is_recorded(entry, ignore)) by {
                if some_pattern_matches(ignore, normalized(entry.path)) {
                    let i = choose|i: int|
                        0 <= i < ignore.len() && glob_matches(
                            #[trigger] ignore[i],
                            normalized(entry.path),
                        );
                    assert(more[i] == ignore[i]);
                }
            }
            let all = longer.push(record_of(entry));
            let at = choose|at: int| 0 <= at < all.len() && all[at] == record;
            if at < longer.len() {
                assert(longer[at] == record);
                lemma_more_patterns_record_no_more(entries, ignore, extra, n - 1, record);
                let k = choose|k: int| 0 <= k < shorter.len() && shorter[k] == record;
                assert(shorter.push(record_of(entry))[k] == record);
            } else {
                assert(shorter.push(record_of(entry))[shorter.len() as int] == record);
            }
        } else {
            lemma_more_patterns_record_no_more(entries, ignore, extra, n - 1, record);
            if is_recorded(entry, ignore) {
                let k = choose|k: int| 0 <= k < shorter.len() && shorter[k] == record;
                assert(shorter.push(record_of(entry))[k] == record);
            }
        }
    }
}

} // verus!
