//! Validation of a loaded configuration: what must hold before any folder is
//! classified with it.

use vstd::prelude::*;
use vstd::string::StringExecFns;
use crate::config::{
    texts, AppConfig, AppConfigView, FolderTypeConfig, FolderTypeConfigView, FolderTypesFile,
    FolderTypesFileView,
};
use crate::folder_type::{classification, is_first_match, unknown_id};
use crate::probe::FolderSnapshotView;

verus! {

/// Why a configuration is refused.
#[derive(Debug, Clone)]
pub enum ConfigError {
    /// Two folder types have this id.
    DuplicateTypeId(String),
    /// No folder type has the id `"unknown"`.
    MissingUnknownType,
    /// A launcher entry has an id that is empty or all whitespace.
    EmptyAppId,
    /// The launcher entry with this id has a command that is empty or all
    /// whitespace.
    EmptyAppCommand(String),
    /// Two launcher entries have this id.
    DuplicateAppId(String),
}

/// What a [`ConfigError`] says, as mathematical values.
pub enum ConfigErrorView {
    DuplicateTypeId(Seq<char>),
    MissingUnknownType,
    EmptyAppId,
    EmptyAppCommand(Seq<char>),
    DuplicateAppId(Seq<char>),
}

impl View for ConfigError {
    type V = ConfigErrorView;

    open spec fn view(&self) -> ConfigErrorView {
        match self {
            ConfigError::DuplicateTypeId(id) => ConfigErrorView::DuplicateTypeId(id@),
            ConfigError::MissingUnknownType => ConfigErrorView::MissingUnknownType,
            ConfigError::EmptyAppId => ConfigErrorView::EmptyAppId,
            ConfigError::EmptyAppCommand(id) => ConfigErrorView::EmptyAppCommand(id@),
            ConfigError::DuplicateAppId(id) => ConfigErrorView::DuplicateAppId(id@),
        }
    }
}

impl ConfigError {
    /// The error in words.
    pub open spec fn text(self) -> Seq<char> {
        match self {
            ConfigError::DuplicateTypeId(id) => "Duplicate folder type ID found in config: "@
                + id@,
            ConfigError::MissingUnknownType => "Missing required 'unknown' folder type in config"@,
            ConfigError::EmptyAppId => "App entries must have a non-empty id"@,
            ConfigError::EmptyAppCommand(id) => "App entries must have a non-empty command (id: "@
                + id@ + ")"@,
            ConfigError::DuplicateAppId(id) => "Duplicate app ID found in config: "@ + id@,
        }
    }

    /// The error in words.
    pub fn message(&self) -> (out: String)
        ensures
            out@ == self.text(),
    {
        match self {
            ConfigError::DuplicateTypeId(id) => {
                let mut out = "Duplicate folder type ID found in config: ".to_owned();
                out.append(id.as_str());
                out
            },
            ConfigError::MissingUnknownType => {
                "Missing required 'unknown' folder type in config".to_owned()
            },
            ConfigError::EmptyAppId => "App entries must have a non-empty id".to_owned(),
            ConfigError::EmptyAppCommand(id) => {
                let mut out = "App entries must have a non-empty command (id: ".to_owned();
                out.append(id.as_str());
                out.append(")");
                out
            },
            ConfigError::DuplicateAppId(id) => {
                let mut out = "Duplicate app ID found in config: ".to_owned();
                out.append(id.as_str());
                out
            },
        }
    }
}

/// The characters with the Unicode property `White_Space`.
pub open spec fn is_whitespace(c: char) -> bool {
    let code = c as u32;
    ||| 0x09 <= code <= 0x0D
    ||| code == 0x20
    ||| code == 0x85
    ||| code == 0xA0
    ||| code == 0x1680
    ||| 0x2000 <= code <= 0x200A
    ||| code == 0x2028
    ||| code == 0x2029
    ||| code == 0x202F
    ||| code == 0x205F
    ||| code == 0x3000
}

/// Whether a text is empty once the whitespace at both ends is trimmed off:
/// it holds nothing but whitespace.
pub open spec fn is_blank(text: Seq<char>) -> bool {
    forall|i: int| 0 <= i < text.len() ==> is_whitespace(#[trigger] text[i])
}

/// Whether the id at position `j` also stands at an earlier position.
pub open spec fn repeats_earlier(ids: Seq<Seq<char>>, j: int) -> bool {
    exists|i: int| 0 <= i < j && #[trigger] ids[i] == ids[j]
}

/// Whether `j` is the first position whose id repeats an earlier one.
pub open spec fn is_first_repeat(ids: Seq<Seq<char>>, j: int) -> bool {
    &&& 0 <= j < ids.len()
    &&& repeats_earlier(ids, j)
    &&& forall|k: int| 0 <= k < j ==> !repeats_earlier(ids, k)
}

/// The ids of a list of folder types, in order.
pub open spec fn type_ids(types: Seq<FolderTypeConfigView>) -> Seq<Seq<char>> {
    Seq::new(types.len(), |i: int| types[i].id)
}

/// The ids of a list of launcher entries, in order.
pub open spec fn app_ids(apps: Seq<AppConfigView>) -> Seq<Seq<char>> {
    Seq::new(apps.len(), |i: int| apps[i].id)
}

/// What is wrong with the launcher entry at position `k`, if anything: a
/// blank id, else a blank command, else an id that an earlier entry has.
pub open spec fn app_fault(apps: Seq<AppConfigView>, k: int) -> Option<ConfigErrorView> {
    if is_blank(apps[k].id) {
        Some(ConfigErrorView::EmptyAppId)
    } else if is_blank(apps[k].command) {
        Some(ConfigErrorView::EmptyAppCommand(apps[k].id))
    } else if repeats_earlier(app_ids(apps), k) {
        Some(ConfigErrorView::DuplicateAppId(apps[k].id))
    } else {
        None
    }
}

/// Whether `k` is the first position of a launcher entry with a fault.
pub open spec fn is_first_app_fault(apps: Seq<AppConfigView>, k: int) -> bool {
    &&& 0 <= k < apps.len()
    &&& app_fault(apps, k) is Some
    &&& forall|m: int| 0 <= m < k ==> app_fault(apps, m) is None
}

/// Whether a configuration may be used: the ids of its folder types are
/// distinct and one of them is `"unknown"`; every launcher entry has an id
/// and a command that are not blank, and the ids of the entries are
/// distinct.
pub open spec fn config_valid(config: FolderTypesFileView) -> bool {
    &&& forall|j: int| 0 <= j < config.types.len() ==> !repeats_earlier(type_ids(config.types), j)
    &&& type_ids(config.types).contains(unknown_id())
    &&& forall|k: int| 0 <= k < config.apps.len() ==> app_fault(config.apps, k) is None
}

/// Whether `error` is the first thing wrong with the configuration: the
/// first repeated type id, else the missing `"unknown"` type, else the first
/// fault of the first faulty launcher entry.
pub open spec fn is_first_fault(config: FolderTypesFileView, error: ConfigErrorView) -> bool {
    let ids = type_ids(config.types);
    match error {
        ConfigErrorView::DuplicateTypeId(id) => exists|j: int|
            is_first_repeat(ids, j) && #[trigger] ids[j] == id,
        ConfigErrorView::MissingUnknownType => {
            &&& forall|j: int| 0 <= j < ids.len() ==> !repeats_earlier(ids, j)
            &&& !ids.contains(unknown_id())
        },
        _ => {
            &&& forall|j: int| 0 <= j < ids.len() ==> !repeats_earlier(ids, j)
            &&& ids.contains(unknown_id())
            &&& exists|k: int|
                is_first_app_fault(config.apps, k) && #[trigger] app_fault(config.apps, k) == Some(
                    error,
                )
        },
    }
}

/// Tells whether a character is whitespace.
pub fn is_whitespace_char(c: char) -> (out: bool)
    ensures
        out == is_whitespace(c),
{
    let code: u32 = c as u32;
    (0x09 <= code && code <= 0x0D) || code == 0x20 || code == 0x85 || code == 0xA0 || code
        == 0x1680 || (0x2000 <= code && code <= 0x200A) || code == 0x2028 || code == 0x2029
        || code == 0x202F || code == 0x205F || code == 0x3000
}

/// Tells whether a text is empty or all whitespace.
pub fn is_blank_text(text: &str) -> (out: bool)
    ensures
        out == is_blank(text@),
{
    let mut blank = true;
    for c in it: text.chars()
        invariant
            it.seq() == text@,
            blank == (forall|i: int| 0 <= i < it.index() ==> is_whitespace(#[trigger] text@[i])),
    {
        if !is_whitespace_char(c) {
            blank = false;
        }
    }
    blank
}

/// Tells whether the id at position `j` also stands at an earlier position.
fn occurs_earlier(ids: &Vec<String>, j: usize) -> (out: bool)
    requires
        j < ids.len(),
    ensures
        out == repeats_earlier(texts(ids@), j as int),
{
    let mut i: usize = 0;
    while i < j
        invariant
            i <= j < ids.len(),
            forall|m: int| 0 <= m < i ==> #[trigger] texts(ids@)[m] != texts(ids@)[j as int],
        decreases j - i,
    {
        if ids[i] == ids[j] {
            assert(texts(ids@)[i as int] == texts(ids@)[j as int]);
            return true;
        }
        i += 1;
    }
    false
}

/// Tells whether one of the ids is `"unknown"`.
fn has_unknown(ids: &Vec<String>) -> (out: bool)
    ensures
        out == texts(ids@).contains(unknown_id()),
{
    let unknown = "unknown".to_owned();
    let mut i: usize = 0;
    while i < ids.len()
        invariant
            i <= ids.len(),
            unknown@ == unknown_id(),
            forall|m: int| 0 <= m < i ==> #[trigger] texts(ids@)[m] != unknown_id(),
        decreases ids.len() - i,
    {
        if ids[i] == unknown {
            assert(texts(ids@)[i as int] == unknown_id());
            return true;
        }
        i += 1;
    }
    false
}

/// Copies the ids of the folder types, in order.
fn collect_type_ids(types: &Vec<FolderTypeConfig>) -> (out: Vec<String>)
    ensures
        out.len() == types.len(),
        texts(out@) == type_ids(crate::config::definitions_view(types@)),
{
    let mut ids: Vec<String> = Vec::new();
    let mut i: usize = 0;
    while i < types.len()
        invariant
            i <= types.len(),
            ids.len() == i,
            forall|m: int| 0 <= m < i ==> (#[trigger] ids@[m])@ == types@[m].id@,
        decreases types.len() - i,
    {
        ids.push(types[i].id.clone());
        i += 1;
    }
    assert(texts(ids@) =~= type_ids(crate::config::definitions_view(types@)));
    ids
}

/// Copies the ids of the launcher entries, in order.
fn collect_app_ids(apps: &Vec<AppConfig>) -> (out: Vec<String>)
    ensures
        out.len() == apps.len(),
        texts(out@) == app_ids(crate::config::apps_view(apps@)),
{
    let mut ids: Vec<String> = Vec::new();
    let mut i: usize = 0;
    while i < apps.len()
        invariant
            i <= apps.len(),
            ids.len() == i,
            forall|m: int| 0 <= m < i ==> (#[trigger] ids@[m])@ == apps@[m].id@,
        decreases apps.len() - i,
    {
        ids.push(apps[i].id.clone());
        i += 1;
    }
    assert(texts(ids@) =~= app_ids(crate::config::apps_view(apps@)));
    ids
}

/// Checks a configuration and names the first thing wrong with it.
///
/// The folder types are checked first, in order, for a repeated id; then for
/// the `"unknown"` type; then the launcher entries, in order, each for a
/// blank id, a blank command and a repeated id.
pub fn validate_config(config: &FolderTypesFile) -> (out: Result<(), ConfigError>)
    ensures
        out is Ok <==> config_valid(config@),
        out is Err ==> is_first_fault(config@, out->Err_0@),
{
    let ids = collect_type_ids(&config.types);
    let ghost tids = type_ids(config@.types);
    let mut j: usize = 0;
    while j < ids.len()
        invariant
            j <= ids.len(),
            texts(ids@) == tids,
            tids == type_ids(config@.types),
            forall|k: int| 0 <= k < j ==> !repeats_earlier(tids, k),
        decreases ids.len() - j,
    {
        if occurs_earlier(&ids, j) {
            let id = ids[j].clone();
            proof {
                assert(is_first_repeat(tids, j as int));
                assert(tids[j as int] == id@);
            }
            return Err(ConfigError::DuplicateTypeId(id));
        }
        j += 1;
    }
    if !has_unknown(&ids) {
        return Err(ConfigError::MissingUnknownType);
    }
    let names = collect_app_ids(&config.apps);
    let ghost apps = config@.apps;
    let mut k: usize = 0;
    while k < config.apps.len()
        invariant
            k <= config.apps.len(),
            names.len() == config.apps.len(),
            apps == config@.apps,
            texts(names@) == app_ids(apps),
            tids == type_ids(config@.types),
            forall|j: int| 0 <= j < tids.len() ==> !repeats_earlier(tids, j),
            tids.contains(unknown_id()),
            forall|m: int| 0 <= m < k ==> app_fault(apps, m) is None,
        decreases config.apps.len() - k,
    {
        let app = &config.apps[k];
        assert(apps[k as int] == app@);
        if is_blank_text(app.id.as_str()) {
            proof {
                assert(is_first_app_fault(apps, k as int));
                assert(app_fault(apps, k as int) == Some(ConfigErrorView::EmptyAppId));
            }
            return Err(ConfigError::EmptyAppId);
        }
        if is_blank_text(app.command.as_str()) {
            let id = app.id.clone();
            proof {
                assert(is_first_app_fault(apps, k as int));
                assert(app_fault(apps, k as int) == Some(ConfigErrorView::EmptyAppCommand(id@)));
            }
            return Err(ConfigError::EmptyAppCommand(id));
        }
        if occurs_earlier(&names, k) {
            let id = app.id.clone();
            proof {
                assert(is_first_app_fault(apps, k as int));
                assert(app_fault(apps, k as int) == Some(ConfigErrorView::DuplicateAppId(id@)));
            }
            return Err(ConfigError::DuplicateAppId(id));
        }
        k += 1;
    }
    Ok(())
}

/// A configuration that is refused is refused for one reason only: the
/// first fault is unique.
pub proof fn lemma_first_fault_is_unique(
    config: FolderTypesFileView,
    one: ConfigErrorView,
    other: ConfigErrorView,
)
    requires
        is_first_fault(config, one),
        is_first_fault(config, other),
    ensures
        one == other,
{
    let ids = type_ids(config.types);
    match (one, other) {
        (ConfigErrorView::DuplicateTypeId(a), ConfigErrorView::DuplicateTypeId(b)) => {
            let j = choose|j: int| is_first_repeat(ids, j) && #[trigger] ids[j] == a;
            let k = choose|k: int| is_first_repeat(ids, k) && #[trigger] ids[k] == b;
            assert(j == k);
        },
        (ConfigErrorView::DuplicateTypeId(a), _) => {
            let j = choose|j: int| is_first_repeat(ids, j) && #[trigger] ids[j] == a;
            assert(repeats_earlier(ids, j));
        },
        (_, ConfigErrorView::DuplicateTypeId(b)) => {
            let k = choose|k: int| is_first_repeat(ids, k) && #[trigger] ids[k] == b;
            assert(repeats_earlier(ids, k));
        },
        (ConfigErrorView::MissingUnknownType, _) => {},
        (_, ConfigErrorView::MissingUnknownType) => {},
        _ => {
            let m = choose|m: int|
                is_first_app_fault(config.apps, m) && #[trigger] app_fault(config.apps, m) == Some(
                    one,
                );
            let n = choose|n: int|
                is_first_app_fault(config.apps, n) && #[trigger] app_fault(config.apps, n) == Some(
                    other,
                );
            assert(m == n);
        },
    }
}

/// A configuration that may be used has no fault.
pub proof fn lemma_valid_config_has_no_fault(config: FolderTypesFileView, error: ConfigErrorView)
    requires
        config_valid(config),
    ensures
        !is_first_fault(config, error),
{
    let ids = type_ids(config.types);
    if is_first_fault(config, error) {
        match error {
            ConfigErrorView::DuplicateTypeId(id) => {
                let j = choose|j: int| is_first_repeat(ids, j) && #[trigger] ids[j] == id;
                assert(repeats_earlier(ids, j));
            },
            ConfigErrorView::MissingUnknownType => {},
            _ => {
                let k = choose|k: int|
                    is_first_app_fault(config.apps, k) && #[trigger] app_fault(config.apps, k)
                        == Some(error);
                assert(app_fault(config.apps, k) is Some);
            },
        }
    }
}

/// With a configuration that may be used, every folder is classified as one
/// of the configured types.
pub proof fn lemma_valid_config_classifies_within_its_types(
    config: FolderTypesFileView,
    snapshot: FolderSnapshotView,
)
    requires
        config_valid(config),
    ensures
        type_ids(config.types).contains(classification(snapshot, config.types)),
{
    let ids = type_ids(config.types);
    if exists|k: int| is_first_match(snapshot, config.types, k) {
        let k = choose|k: int| is_first_match(snapshot, config.types, k);
        assert(ids[k] == config.types[k].id);
    }
}

} // verus!
