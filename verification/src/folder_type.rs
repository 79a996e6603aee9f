//! The classifier: the first folder type, in the order of the configuration,
//! whose rule is satisfied by what was observed of a folder.

use vstd::prelude::*;
use crate::config::{
    definitions_view, DetectRule, DetectRuleView, FolderTypeConfig, FolderTypeConfigView,
};
use crate::probe::{
    all_satisfied, any_satisfied, probe_all, probe_any, FolderSnapshot, FolderSnapshotView,
};

verus! {

/// The id that stands for "no rule matched".
pub open spec fn unknown_id() -> Seq<char> {
    "unknown"@
}

/// The specs of a clause. An absent clause has none.
pub open spec fn clause_specs(clause: Option<Seq<Seq<char>>>) -> Seq<Seq<char>> {
    match clause {
        Some(specs) => specs,
        None => Seq::empty(),
    }
}

/// Whether a rule is satisfied: its `any` clause and its `all` clause both
/// are.
pub open spec fn rule_satisfied(snapshot: FolderSnapshotView, rule: DetectRuleView) -> bool {
    any_satisfied(snapshot, clause_specs(rule.any)) && all_satisfied(
        snapshot,
        clause_specs(rule.all),
    )
}

/// Whether a definition is matched: it has a rule, and the rule is
/// satisfied. A definition without a rule is never matched.
pub open spec fn definition_matches(
    snapshot: FolderSnapshotView,
    definition: FolderTypeConfigView,
) -> bool {
    match definition.detect {
        Some(rule) => rule_satisfied(snapshot, rule),
        None => false,
    }
}

/// Whether `k` is the position of the first definition that is matched.
pub open spec fn is_first_match(
    snapshot: FolderSnapshotView,
    definitions: Seq<FolderTypeConfigView>,
    k: int,
) -> bool {
    &&& 0 <= k < definitions.len()
    &&& definition_matches(snapshot, definitions[k])
    &&& forall|j: int| 0 <= j < k ==> !definition_matches(snapshot, #[trigger] definitions[j])
}

/// The id of the first definition that is matched, or `"unknown"` where none
/// is.
pub open spec fn classification(
    snapshot: FolderSnapshotView,
    definitions: Seq<FolderTypeConfigView>,
) -> Seq<char> {
    if exists|k: int| is_first_match(snapshot, definitions, k) {
        definitions[choose|k: int| is_first_match(snapshot, definitions, k)].id
    } else {
        unknown_id()
    }
}

/// The classification is the id of the earliest matched definition,
/// whatever is matched after it.
pub proof fn lemma_earliest_match_wins(
    snapshot: FolderSnapshotView,
    definitions: Seq<FolderTypeConfigView>,
    k: int,
)
    requires
        is_first_match(snapshot, definitions, k),
    ensures
        classification(snapshot, definitions) == definitions[k].id,
{
    let chosen = choose|c: int| is_first_match(snapshot, definitions, c);
    assert(is_first_match(snapshot, definitions, chosen));
    if chosen < k {
        assert(!definition_matches(snapshot, definitions[chosen]));
    }
    if k < chosen {
        assert(!definition_matches(snapshot, definitions[k]));
    }
}

/// Where no definition is matched, the classification is `"unknown"`.
pub proof fn lemma_no_match_is_unknown(
    snapshot: FolderSnapshotView,
    definitions: Seq<FolderTypeConfigView>,
)
    requires
        forall|j: int|
            0 <= j < definitions.len() ==> !definition_matches(snapshot, #[trigger] definitions[j]),
    ensures
        classification(snapshot, definitions) == unknown_id(),
{
    assert forall|k: int| !is_first_match(snapshot, definitions, k) by {
        if 0 <= k < definitions.len() {
            assert(!definition_matches(snapshot, definitions[k]));
        }
    }
}

/// Of two definitions that the same folder satisfies, the earlier one gives
/// the classification.
pub proof fn lemma_first_of_two_wins(
    snapshot: FolderSnapshotView,
    earlier: FolderTypeConfigView,
    later: FolderTypeConfigView,
)
    requires
        definition_matches(snapshot, earlier),
        definition_matches(snapshot, later),
    ensures
        classification(snapshot, seq![earlier, later]) == earlier.id,
{
    let definitions = seq![earlier, later];
    assert(definitions[0] == earlier);
    assert(is_first_match(snapshot, definitions, 0));
    lemma_earliest_match_wins(snapshot, definitions, 0);
}

/// In a list of any length, a matched definition never gives the
/// classification while a matched definition stands before it: the
/// classification comes from a matched definition at or before the earlier
/// of the two.
pub proof fn lemma_later_match_never_wins(
    snapshot: FolderSnapshotView,
    definitions: Seq<FolderTypeConfigView>,
    i: int,
    j: int,
)
    requires
        0 <= i < j < definitions.len(),
        definition_matches(snapshot, definitions[i]),
        definition_matches(snapshot, definitions[j]),
    ensures
        exists|k: int|
            0 <= k <= i && is_first_match(snapshot, definitions, k) && classification(
                snapshot,
                definitions,
            ) == #[trigger] definitions[k].id,
    decreases i,
{
    if forall|m: int| 0 <= m < i ==> !definition_matches(snapshot, #[trigger] definitions[m]) {
        assert(is_first_match(snapshot, definitions, i));
        lemma_earliest_match_wins(snapshot, definitions, i);
    } else {
        let m = choose|m: int|
            0 <= m < i && definition_matches(snapshot, #[trigger] definitions[m]);
        lemma_later_match_never_wins(snapshot, definitions, m, j);
    }
}

/// An absent clause is satisfied by every folder, and so is a rule whose two
/// clauses are both absent.
pub proof fn lemma_absent_clauses_are_satisfied(snapshot: FolderSnapshotView)
    ensures
        any_satisfied(snapshot, clause_specs(None)),
        all_satisfied(snapshot, clause_specs(None)),
        rule_satisfied(snapshot, DetectRuleView { any: None, all: None }),
{
}

/// A clause does not weaken the other: a rule with one clause absent is
/// satisfied exactly when the clause that is present is.
pub proof fn lemma_single_clause_decides(snapshot: FolderSnapshotView, specs: Seq<Seq<char>>)
    ensures
        rule_satisfied(snapshot, DetectRuleView { any: Some(specs), all: None }) == any_satisfied(
            snapshot,
            specs,
        ),
        rule_satisfied(snapshot, DetectRuleView { any: None, all: Some(specs) }) == all_satisfied(
            snapshot,
            specs,
        ),
{
}

/// Where the list of definitions ends in an entry with the id `"unknown"`,
/// the classification is the id of one of the definitions.
pub proof fn lemma_classification_is_defined(
    snapshot: FolderSnapshotView,
    definitions: Seq<FolderTypeConfigView>,
)
    requires
        definitions.len() > 0,
        definitions.last().id == unknown_id(),
    ensures
        exists|i: int|
            0 <= i < definitions.len() && classification(snapshot, definitions)
                == #[trigger] definitions[i].id,
{
    if exists|k: int| is_first_match(snapshot, definitions, k) {
        let k = choose|k: int| is_first_match(snapshot, definitions, k);
        assert(classification(snapshot, definitions) == definitions[k].id);
    } else {
        let last = definitions.len() - 1;
        assert(classification(snapshot, definitions) == definitions[last].id);
    }
}

/// Evaluates one rule: the `any` clause, then, if that holds, the `all`
/// clause.
pub fn rule_matches(snapshot: &FolderSnapshot, rule: &DetectRule) -> (out: bool)
    ensures
        out == rule_satisfied(snapshot@, rule@),
{
    let any_ok = match &rule.any {
        Some(specs) => probe_any(snapshot, specs),
        None => true,
    };
    if !any_ok {
        return false;
    }
    match &rule.all {
        Some(specs) => probe_all(snapshot, specs),
        None => true,
    }
}

/// Classifies a folder: the id of the first definition, in the given order,
/// whose rule is satisfied, and `"unknown"` where there is none. Definitions
/// without a rule are passed over.
pub fn detect_folder_type(snapshot: &FolderSnapshot, definitions: &Vec<FolderTypeConfig>) -> (out:
    String)
    ensures
        out@ == classification(snapshot@, definitions_view(definitions@)),
{
    let mut i: usize = 0;
    while i < definitions.len()
        invariant
            i <= definitions.len(),
            forall|j: int|
                0 <= j < i ==> !definition_matches(
                    snapshot@,
                    #[trigger] definitions_view(definitions@)[j],
                ),
        decreases definitions.len() - i,
    {
        let matched = match &definitions[i].detect {
            Some(rule) => rule_matches(snapshot, rule),
            None => false,
        };
        if matched {
            proof {
                assert(definitions_view(definitions@)[i as int] == definitions[i as int]@);
                lemma_earliest_match_wins(snapshot@, definitions_view(definitions@), i as int);
            }
            return definitions[i].id.clone();
        }
        assert(definitions_view(definitions@)[i as int] == definitions[i as int]@);
        i += 1;
    }
    proof {
        lemma_no_match_is_unknown(snapshot@, definitions_view(definitions@));
    }
    "unknown".to_owned()
}

/// The folder types that are known by name.
#[derive(Debug, Clone, Copy, PartialEq, Eq, Structural)]
pub enum FolderType {
    NextJS,
    ReactNative,
    Kotlin,
    Flutter,
    MinecraftMod,
    Python,
    ChromeExtension,
    CPP,
    Typescript,
    Unknown,
}

impl FolderType {
    /// The id under which the type is stored and configured.
    pub open spec fn id(self) -> Seq<char> {
        match self {
            FolderType::NextJS => "next"@,
            FolderType::ReactNative => "react-native"@,
            FolderType::Kotlin => "kotlin"@,
            FolderType::Flutter => "flutter"@,
            FolderType::MinecraftMod => "minecraft"@,
            FolderType::Python => "python"@,
            FolderType::ChromeExtension => "chrome"@,
            FolderType::CPP => "cpp"@,
            FolderType::Typescript => "typescript"@,
            FolderType::Unknown => unknown_id(),
        }
    }

    /// The id under which the type is stored and configured.
    pub fn as_str(&self) -> (out: &'static str)
        ensures
            out@ == self.id(),
    {
        match self {
            FolderType::NextJS => "next",
            FolderType::ReactNative => "react-native",
            FolderType::Kotlin => "kotlin",
            FolderType::Flutter => "flutter",
            FolderType::MinecraftMod => "minecraft",
            FolderType::Python => "python",
            FolderType::ChromeExtension => "chrome",
            FolderType::CPP => "cpp",
            FolderType::Typescript => "typescript",
            FolderType::Unknown => "unknown",
        }
    }
}

} // verus!
