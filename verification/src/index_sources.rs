//! The sources that are indexed, decoded from the rows in which the catalog
//! stores them.

use vstd::prelude::*;
use crate::config::{optional_texts, texts};

verus! {

#[verifier::external_type_specification]
#[verifier::external_body]
pub struct ExJsonError(serde_json::Error);

/// What `serde_json::from_str` reads a text as, where it is asked for a list
/// of strings: the strings, or nothing where the text is not the JSON of
/// such a list.
pub uninterp spec fn json_string_list(text: Seq<char>) -> Option<Seq<Seq<char>>>;

/// Reads a text as the JSON of a list of strings, with
/// `serde_json::from_str`.
///
/// Believed, not proved: the outcome depends on the text alone.
#[verifier::external_body]
fn parse_string_list(text: &str) -> (out: Result<Vec<String>, serde_json::Error>)
    ensures
        match out {
            Ok(list) => json_string_list(text@) == Some(texts(list@)),
            Err(_) => json_string_list(text@) is None,
        },
{
    serde_json::from_str::<Vec<String>>(text)
}

/// A folder that is indexed, with the patterns that narrow what is indexed
/// in it.
#[derive(Debug, Clone)]
pub struct IndexSource {
    pub id: i64,
    pub path: String,
    pub recursive: bool,
    pub include_patterns: Option<Vec<String>>,
    pub exclude_patterns: Option<Vec<String>>,
}

/// A source as the catalog stores it: the flag as a number, each list of
/// patterns as JSON text.
#[derive(Debug, Clone)]
pub struct SourceRow {
    pub id: i64,
    pub path: String,
    pub recursive: i64,
    pub include_patterns: Option<String>,
    pub exclude_patterns: Option<String>,
}

/// What an [`IndexSource`] holds, as mathematical values.
pub struct IndexSourceView {
    pub id: i64,
    pub path: Seq<char>,
    pub recursive: bool,
    pub include_patterns: Option<Seq<Seq<char>>>,
    pub exclude_patterns: Option<Seq<Seq<char>>>,
}

impl View for IndexSource {
    type V = IndexSourceView;

    open spec fn view(&self) -> IndexSourceView {
        IndexSourceView {
            id: self.id,
            path: self.path@,
            recursive: self.recursive,
            include_patterns: optional_texts(self.include_patterns),
            exclude_patterns: optional_texts(self.exclude_patterns),
        }
    }
}

/// What a [`SourceRow`] holds, as mathematical values.
pub struct SourceRowView {
    pub id: i64,
    pub path: Seq<char>,
    pub recursive: i64,
    pub include_patterns: Option<Seq<char>>,
    pub exclude_patterns: Option<Seq<char>>,
}

impl View for SourceRow {
    type V = SourceRowView;

    open spec fn view(&self) -> SourceRowView {
        SourceRowView {
            id: self.id,
            path: self.path@,
            recursive: self.recursive,
            include_patterns: match self.include_patterns {
                Some(stored) => Some(stored@),
                None => None,
            },
            exclude_patterns: match self.exclude_patterns {
                Some(stored) => Some(stored@),
                None => None,
            },
        }
    }
}

/// The views of a list of rows, element by element.
pub open spec fn rows_view(rows: Seq<SourceRow>) -> Seq<SourceRowView> {
    Seq::new(rows.len(), |i: int| rows[i]@)
}

/// The views of a list of sources, element by element.
pub open spec fn sources_view(sources: Seq<IndexSource>) -> Seq<IndexSourceView> {
    Seq::new(sources.len(), |i: int| sources[i]@)
}

/// The patterns that a stored text stands for: none where nothing is
/// stored, the list that the text is the JSON of, and the empty list where
/// the text is not the JSON of a list of strings.
pub open spec fn decoded_patterns(stored: Option<Seq<char>>) -> Option<Seq<Seq<char>>> {
    match stored {
        None => None,
        Some(text) => match json_string_list(text) {
            Some(list) => Some(list),
            None => Some(Seq::empty()),
        },
    }
}

/// The source that a row stands for. The source is recursive where the
/// stored flag is 1.
pub open spec fn decoded_source(row: SourceRowView) -> IndexSourceView {
    IndexSourceView {
        id: row.id,
        path: row.path,
        recursive: row.recursive == 1,
        include_patterns: decoded_patterns(row.include_patterns),
        exclude_patterns: decoded_patterns(row.exclude_patterns),
    }
}

/// Decodes a stored list of patterns.
pub fn decode_patterns(stored: &Option<String>) -> (out: Option<Vec<String>>)
    ensures
        optional_texts(out) == decoded_patterns(
            match *stored {
                Some(text) => Some(text@),
                None => None,
            },
        ),
{
    match stored {
        None => None,
        Some(text) => match parse_string_list(text.as_str()) {
            Ok(list) => Some(list),
            Err(_) => {
                let empty: Vec<String> = Vec::new();
                assert(texts(empty@) == Seq::<Seq<char>>::empty());
                Some(empty)
            },
        },
    }
}

/// The number under which a flag is stored: 1 for set, 0 for clear.
pub fn stored_flag(flag: bool) -> (out: i32)
    ensures
        out == if flag {
            1i32
        } else {
            0i32
        },
{
    if flag {
        1
    } else {
        0
    }
}

/// Reads a flag back from the number under which it is stored: set where
/// the number is 1, clear for every other number.
pub fn flag_is_set(stored: i64) -> (out: bool)
    ensures
        out == (stored == 1),
{
    stored == 1
}

/// Decodes the rows of the table of sources, in their order.
pub fn list_sources(rows: &Vec<SourceRow>) -> (out: Vec<IndexSource>)
    ensures
        out.len() == rows.len(),
        forall|i: int|
            0 <= i < rows.len() ==> (#[trigger] sources_view(out@)[i]) == decoded_source(
                rows_view(rows@)[i],
            ),
{
    let mut sources: Vec<IndexSource> = Vec::new();
    let mut i: usize = 0;
    while i < rows.len()
        invariant
            i <= rows.len(),
            sources.len() == i,
            forall|j: int|
                0 <= j < i ==> (#[trigger] sources_view(sources@)[j]) == decoded_source(
                    rows_view(rows@)[j],
                ),
        decreases rows.len() - i,
    {
        let row = &rows[i];
        let source = IndexSource {
            id: row.id,
            path: row.path.clone(),
            recursive: flag_is_set(row.recursive),
            include_patterns: decode_patterns(&row.include_patterns),
            exclude_patterns: decode_patterns(&row.exclude_patterns),
        };
        assert(source@ == decoded_source(rows_view(rows@)[i as int]));
        let ghost before = sources@;
        sources.push(source);
        assert forall|j: int| 0 <= j < i + 1 implies (#[trigger] sources_view(sources@)[j])
            == decoded_source(rows_view(rows@)[j]) by {
            if j < i {
                assert(sources_view(before)[j] == decoded_source(rows_view(rows@)[j]));
                assert(sources@[j] == before[j]);
            }
        }
        i += 1;
    }
    sources
}

} // verus!
