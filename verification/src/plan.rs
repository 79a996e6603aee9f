//! What has to be observed of a folder before it can be classified: the
//! literal paths to look for, and whether its subtree has to be walked.

use vstd::prelude::*;
use crate::config::{definitions_view, texts, FolderTypeConfig, FolderTypeConfigView};
use crate::folder_type::{
    classification, clause_specs, definition_matches, is_first_match, lemma_earliest_match_wins,
};
use crate::paths::{is_glob, is_glob_spec};
use crate::probe::{spec_satisfied, FolderSnapshotView};

verus! {

/// The observations that a list of definitions calls for.
#[derive(Debug, Clone)]
pub struct ProbePlan {
    /// The literal path specs of the rules, in the order of the rules. The
    /// ones that exist under a folder make up the `present` list of its
    /// snapshot.
    pub literals: Vec<String>,
    /// Whether a rule holds a glob spec, so that the `entries` of the
    /// snapshot are read.
    pub walk: bool,
}

/// The literal specs among a list of specs, in order.
pub open spec fn literals_of(specs: Seq<Seq<char>>) -> Seq<Seq<char>>
    decreases specs.len(),
{
    if specs.len() == 0 {
        Seq::empty()
    } else if is_glob_spec(specs.last()) {
        literals_of(specs.drop_last())
    } else {
        literals_of(specs.drop_last()).push(specs.last())
    }
}

/// Whether a list of specs holds a glob spec.
pub open spec fn has_glob(specs: Seq<Seq<char>>) -> bool {
    exists|i: int| 0 <= i < specs.len() && is_glob_spec(#[trigger] specs[i])
}

/// The specs of a definition's rule: those of the `any` clause, then those
/// of the `all` clause. A definition without a rule has none.
pub open spec fn definition_specs(definition: FolderTypeConfigView) -> Seq<Seq<char>> {
    match definition.detect {
        Some(rule) => clause_specs(rule.any) + clause_specs(rule.all),
        None => Seq::empty(),
    }
}

/// The literal specs of the first `n` definitions, in order.
pub open spec fn planned_literals_upto(definitions: Seq<FolderTypeConfigView>, n: int) -> Seq<
    Seq<char>,
>
    decreases n,
{
    if n <= 0 {
        Seq::empty()
    } else {
        planned_literals_upto(definitions, n - 1) + literals_of(
            definition_specs(definitions[n - 1]),
        )
    }
}

/// The literal specs of all the definitions, in order.
pub open spec fn planned_literals(definitions: Seq<FolderTypeConfigView>) -> Seq<Seq<char>> {
    planned_literals_upto(definitions, definitions.len() as int)
}

/// Whether one of the definitions holds a glob spec.
pub open spec fn plan_walks(definitions: Seq<FolderTypeConfigView>) -> bool {
    exists|i: int|
        0 <= i < definitions.len() && has_glob(definition_specs(#[trigger] definitions[i]))
}

/// A literal spec of a list is among the literals of that list.
pub proof fn lemma_literals_of_holds_each_literal(specs: Seq<Seq<char>>, i: int)
    requires
        0 <= i < specs.len(),
        !is_glob_spec(specs[i]),
    ensures
        literals_of(specs).contains(specs[i]),
    decreases specs.len(),
{
    let rest = literals_of(specs.drop_last());
    if i == specs.len() - 1 {
        assert(rest.push(specs.last()).last() == specs[i]);
    } else {
        lemma_literals_of_holds_each_literal(specs.drop_last(), i);
        let at = choose|at: int| 0 <= at < rest.len() && rest[at] == specs[i];
        if !is_glob_spec(specs.last()) {
            assert(rest.push(specs.last())[at] == specs[i]);
        }
    }
}

/// The literals of a definition are among the planned literals.
pub proof fn lemma_plan_holds_each_literal(
    definitions: Seq<FolderTypeConfigView>,
    n: int,
    i: int,
    spec: Seq<char>,
)
    requires
        0 <= i < n <= definitions.len(),
        literals_of(definition_specs(definitions[i])).contains(spec),
    ensures
        planned_literals_upto(definitions, n).contains(spec),
    decreases n,
{
    let earlier = planned_literals_upto(definitions, n - 1);
    let last = literals_of(definition_specs(definitions[n - 1]));
    if i == n - 1 {
        let at = choose|at: int| 0 <= at < last.len() && last[at] == spec;
        assert((earlier + last)[earlier.len() + at] == spec);
    } else {
        lemma_plan_holds_each_literal(definitions, n - 1, i, spec);
        let at = choose|at: int| 0 <= at < earlier.len() && earlier[at] == spec;
        assert((earlier + last)[at] == spec);
    }
}

/// Whether two snapshots are the same as far as the plan of the definitions
/// looks: they agree on each planned literal, and on the entries where the
/// plan walks.
pub open spec fn same_under_plan(
    a: FolderSnapshotView,
    b: FolderSnapshotView,
    definitions: Seq<FolderTypeConfigView>,
) -> bool {
    &&& forall|spec: Seq<char>| #[trigger]
        planned_literals(definitions).contains(spec) ==> (a.present.contains(spec)
            <==> b.present.contains(spec))
    &&& plan_walks(definitions) ==> a.entries == b.entries
}

/// Two snapshots that are the same under the plan satisfy the same
/// definitions.
pub proof fn lemma_plan_decides_each_definition(
    a: FolderSnapshotView,
    b: FolderSnapshotView,
    definitions: Seq<FolderTypeConfigView>,
    i: int,
)
    requires
        same_under_plan(a, b, definitions),
        0 <= i < definitions.len(),
    ensures
        definition_matches(a, definitions[i]) == definition_matches(b, definitions[i]),
{
    match definitions[i].detect {
        None => {},
        Some(rule) => {
            let any = clause_specs(rule.any);
            let all = clause_specs(rule.all);
            let specs = definition_specs(definitions[i]);
            assert forall|j: int| 0 <= j < specs.len() implies spec_satisfied(a, specs[j])
                == spec_satisfied(b, specs[j]) by {
                if is_glob_spec(specs[j]) {
                    assert(has_glob(definition_specs(definitions[i])));
                    assert(plan_walks(definitions));
                    assert(a.entries == b.entries);
                } else {
                    lemma_literals_of_holds_each_literal(specs, j);
                    lemma_plan_holds_each_literal(
                        definitions,
                        definitions.len() as int,
                        i,
                        specs[j],
                    );
                    assert(planned_literals(definitions).contains(specs[j]));
                }
            }
            assert forall|j: int| 0 <= j < any.len() implies spec_satisfied(a, #[trigger] any[j])
                == spec_satisfied(b, any[j]) by {
                assert(specs[j] == any[j]);
            }
            assert forall|j: int| 0 <= j < all.len() implies spec_satisfied(a, #[trigger] all[j])
                == spec_satisfied(b, all[j]) by {
                assert(specs[any.len() + j] == all[j]);
            }
        },
    }
}

/// The plan is enough: two snapshots that are the same under the plan of the
/// definitions get the same classification. What the plan does not ask for
/// has no part in the result.
pub proof fn lemma_plan_is_sufficient(
    a: FolderSnapshotView,
    b: FolderSnapshotView,
    definitions: Seq<FolderTypeConfigView>,
)
    requires
        same_under_plan(a, b, definitions),
    ensures
        classification(a, definitions) == classification(b, definitions),
{
    assert forall|i: int| 0 <= i < definitions.len() implies definition_matches(
        a,
        #[trigger] definitions[i],
    ) == definition_matches(b, definitions[i]) by {
        lemma_plan_decides_each_definition(a, b, definitions, i);
    }
    if exists|k: int| is_first_match(a, definitions, k) {
        let k = choose|k: int| is_first_match(a, definitions, k);
        assert(is_first_match(b, definitions, k));
        lemma_earliest_match_wins(a, definitions, k);
        lemma_earliest_match_wins(b, definitions, k);
    } else {
        assert forall|k: int| !is_first_match(b, definitions, k) by {
            if is_first_match(b, definitions, k) {
                assert(is_first_match(a, definitions, k));
            }
        }
    }
}

/// Appends the literal specs of one clause to the plan, and tells whether
/// the clause holds a glob spec.
fn plan_clause(specs: &Vec<String>, literals: &mut Vec<String>) -> (glob: bool)
    ensures
        texts(final(literals)@) == texts(old(literals)@) + literals_of(texts(specs@)),
        glob == has_glob(texts(specs@)),
{
    let ghost before = texts(literals@);
    let mut glob = false;
    let mut i: usize = 0;
    while i < specs.len()
        invariant
            i <= specs.len(),
            texts(literals@) == before + literals_of(texts(specs@).take(i as int)),
            glob == has_glob(texts(specs@).take(i as int)),
        decreases specs.len() - i,
    {
        let ghost seen = texts(specs@).take(i as int);
        let ghost next = texts(specs@).take(i + 1);
        proof {
            assert(next.drop_last() == seen);
            assert(next.last() == specs@[i as int]@);
            if has_glob(seen) {
                let at = choose|at: int| 0 <= at < seen.len() && is_glob_spec(#[trigger] seen[at]);
                assert(is_glob_spec(next[at]));
            }
            if has_glob(next) && !is_glob_spec(next.last()) {
                let at = choose|at: int| 0 <= at < next.len() && is_glob_spec(#[trigger] next[at]);
                assert(is_glob_spec(seen[at]));
            }
        }
        if is_glob(specs[i].as_str()) {
            glob = true;
        } else {
            let ghost held = texts(literals@);
            literals.push(specs[i].clone());
            assert(texts(literals@) == held.push(specs@[i as int]@));
        }
        i += 1;
    }
    assert(texts(specs@).take(specs.len() as int) == texts(specs@));
    glob
}

/// Reads off the definitions what has to be observed of a folder: every
/// literal spec of every rule, and whether any rule holds a glob spec.
pub fn plan_probes(definitions: &Vec<FolderTypeConfig>) -> (out: ProbePlan)
    ensures
        texts(out.literals@) == planned_literals(definitions_view(definitions@)),
        out.walk == plan_walks(definitions_view(definitions@)),
{
    let ghost defs = definitions_view(definitions@);
    let mut literals: Vec<String> = Vec::new();
    let mut walk = false;
    let mut i: usize = 0;
    while i < definitions.len()
        invariant
            i <= definitions.len(),
            defs == definitions_view(definitions@),
            texts(literals@) == planned_literals_upto(defs, i as int),
            walk == (exists|k: int| 0 <= k < i && has_glob(definition_specs(#[trigger] defs[k]))),
        decreases definitions.len() - i,
    {
        assert(defs[i as int] == definitions[i as int]@);
        match &definitions[i].detect {
            None => {
                assert(literals_of(definition_specs(defs[i as int])) == Seq::<Seq<char>>::empty());
            },
            Some(rule) => {
                let ghost any = clause_specs(rule@.any);
                let ghost all = clause_specs(rule@.all);
                let mut glob = false;
                match &rule.any {
                    Some(specs) => {
                        glob = plan_clause(specs, &mut literals);
                    },
                    None => {},
                }
                match &rule.all {
                    Some(specs) => {
                        let more = plan_clause(specs, &mut literals);
                        glob = glob || more;
                    },
                    None => {},
                }
                proof {
                    lemma_literals_of_concat(any, all);
                    lemma_has_glob_concat(any, all);
                    assert(literals_of(any).len() == 0 <== any.len() == 0);
                    assert(literals_of(all).len() == 0 <== all.len() == 0);
                }
                if glob {
                    walk = true;
                }
            },
        }
        i += 1;
    }
    ProbePlan { literals, walk }
}

/// The literals of two lists, one after the other, are the literals of the
/// first followed by those of the second.
pub proof fn lemma_literals_of_concat(first: Seq<Seq<char>>, second: Seq<Seq<char>>)
    ensures
        literals_of(first + second) == literals_of(first) + literals_of(second),
    decreases second.len(),
{
    if second.len() == 0 {
        assert(first + second == first);
        assert(literals_of(first) + literals_of(second) == literals_of(first));
    } else {
        let whole = first + second;
        assert(whole.drop_last() == first + second.drop_last());
        assert(whole.last() == second.last());
        lemma_literals_of_concat(first, second.drop_last());
        if !is_glob_spec(second.last()) {
            assert((literals_of(first) + literals_of(second.drop_last())).push(second.last())
                == literals_of(first) + literals_of(second.drop_last()).push(second.last()));
        }
    }
}

/// Two lists, one after the other, hold a glob spec exactly when one of them
/// does.
pub proof fn lemma_has_glob_concat(first: Seq<Seq<char>>, second: Seq<Seq<char>>)
    ensures
        has_glob(first + second) == (has_glob(first) || has_glob(second)),
{
    let whole = first + second;
    if has_glob(first) {
        let at = choose|at: int| 0 <= at < first.len() && is_glob_spec(#[trigger] first[at]);
        assert(is_glob_spec(whole[at]));
    }
    if has_glob(second) {
        let at = choose|at: int| 0 <= at < second.len() && is_glob_spec(#[trigger] second[at]);
        assert(is_glob_spec(whole[first.len() + at]));
    }
    if has_glob(whole) {
        let at = choose|at: int| 0 <= at < whole.len() && is_glob_spec(#[trigger] whole[at]);
        if at < first.len() {
            assert(is_glob_spec(first[at]));
        } else {
            assert(is_glob_spec(second[at - first.len()]));
        }
    }
}

} // verus!
