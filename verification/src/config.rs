//! The rule model: folder-type definitions, their detection rules, and the
//! launcher entries that share the configuration file.

use vstd::prelude::*;

verus! {

/// The views of a sequence of strings, element by element.
pub open spec fn texts(v: Seq<String>) -> Seq<Seq<char>> {
    Seq::new(v.len(), |i: int| v[i]@)
}

/// The views of an optional list of strings.
pub open spec fn optional_texts(v: Option<Vec<String>>) -> Option<Seq<Seq<char>>> {
    match v {
        Some(list) => Some(texts(list@)),
        None => None,
    }
}

/// Copies a list of strings.
pub fn copy_texts(list: &Vec<String>) -> (out: Vec<String>)
    ensures
        texts(out@) == texts(list@),
{
    let mut out: Vec<String> = Vec::new();
    let mut i: usize = 0;
    while i < list.len()
        invariant
            i <= list.len(),
            out.len() == i,
            forall|j: int| 0 <= j < i ==> (#[trigger] out@[j])@ == list@[j]@,
        decreases list.len() - i,
    {
        out.push(list[i].clone());
        i += 1;
    }
    assert(texts(out@) =~= texts(list@));
    out
}

/// A detection rule: two optional clauses of path specs.
///
/// `any` asks for at least one of its specs, `all` for every one of its
/// specs. A clause that is absent asks for nothing.
#[derive(Debug, Clone)]
pub struct DetectRule {
    pub any: Option<Vec<String>>,
    pub all: Option<Vec<String>>,
}

/// What a [`DetectRule`] says, as mathematical values.
pub struct DetectRuleView {
    pub any: Option<Seq<Seq<char>>>,
    pub all: Option<Seq<Seq<char>>>,
}

impl View for DetectRule {
    type V = DetectRuleView;

    open spec fn view(&self) -> DetectRuleView {
        DetectRuleView { any: optional_texts(self.any), all: optional_texts(self.all) }
    }
}

/// One folder type of the configuration, with the rule that detects it.
#[derive(Debug, Clone)]
pub struct FolderTypeConfig {
    pub id: String,
    pub label: String,
    pub icon: String,
    pub detect: Option<DetectRule>,
}

/// What a [`FolderTypeConfig`] says, as mathematical values.
pub struct FolderTypeConfigView {
    pub id: Seq<char>,
    pub label: Seq<char>,
    pub icon: Seq<char>,
    pub detect: Option<DetectRuleView>,
}

impl View for FolderTypeConfig {
    type V = FolderTypeConfigView;

    open spec fn view(&self) -> FolderTypeConfigView {
        FolderTypeConfigView {
            id: self.id@,
            label: self.label@,
            icon: self.icon@,
            detect: match self.detect {
                Some(rule) => Some(rule@),
                None => None,
            },
        }
    }
}

/// The part of a folder type that is shown to a user.
#[derive(Debug, Clone)]
pub struct FolderTypePublic {
    pub id: String,
    pub label: String,
    pub icon: String,
}

/// One launcher entry of the configuration.
#[derive(Debug, Clone)]
pub struct AppConfig {
    pub id: String,
    pub name: String,
    pub icon: String,
    pub command: String,
    pub default: bool,
}

/// What an [`AppConfig`] says, as mathematical values.
pub struct AppConfigView {
    pub id: Seq<char>,
    pub name: Seq<char>,
    pub icon: Seq<char>,
    pub command: Seq<char>,
    pub default: bool,
}

impl View for AppConfig {
    type V = AppConfigView;

    open spec fn view(&self) -> AppConfigView {
        AppConfigView {
            id: self.id@,
            name: self.name@,
            icon: self.icon@,
            command: self.command@,
            default: self.default,
        }
    }
}

/// The part of a launcher entry that is shown to a user: all but the command.
#[derive(Debug, Clone)]
pub struct AppPublic {
    pub id: String,
    pub name: String,
    pub icon: String,
    pub default: bool,
}

/// The configuration file as a whole. The order of `types` is significant:
/// the first type whose rule is satisfied wins.
#[derive(Debug)]
pub struct FolderTypesFile {
    pub types: Vec<FolderTypeConfig>,
    pub apps: Vec<AppConfig>,
}

/// The views of a list of folder types, element by element.
pub open spec fn definitions_view(defs: Seq<FolderTypeConfig>) -> Seq<FolderTypeConfigView> {
    Seq::new(defs.len(), |i: int| defs[i]@)
}

/// The views of a list of launcher entries, element by element.
pub open spec fn apps_view(apps: Seq<AppConfig>) -> Seq<AppConfigView> {
    Seq::new(apps.len(), |i: int| apps[i]@)
}

/// What a [`FolderTypesFile`] says, as mathematical values.
pub struct FolderTypesFileView {
    pub types: Seq<FolderTypeConfigView>,
    pub apps: Seq<AppConfigView>,
}

impl View for FolderTypesFile {
    type V = FolderTypesFileView;

    open spec fn view(&self) -> FolderTypesFileView {
        FolderTypesFileView { types: definitions_view(self.types@), apps: apps_view(self.apps@) }
    }
}

impl FolderTypeConfig {
    /// The identity, label and icon of this type, without its rule.
    pub fn to_public(&self) -> (out: FolderTypePublic)
        ensures
            out.id@ == self.id@,
            out.label@ == self.label@,
            out.icon@ == self.icon@,
    {
        FolderTypePublic {
            id: self.id.clone(),
            label: self.label.clone(),
            icon: self.icon.clone(),
        }
    }
}

impl AppConfig {
    /// The identity, name, icon and default flag of this entry, without its
    /// command.
    pub fn to_public(&self) -> (out: AppPublic)
        ensures
            out.id@ == self.id@,
            out.name@ == self.name@,
            out.icon@ == self.icon@,
            out.default == self.default,
    {
        AppPublic {
            id: self.id.clone(),
            name: self.name.clone(),
            icon: self.icon.clone(),
            default: self.default,
        }
    }
}

} // verus!
