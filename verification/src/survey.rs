//! Classifying a folder one observation at a time.
//!
//! The rules are evaluated in their order on what is known of the folder so
//! far. Where the next spec cannot be decided from that, the evaluation
//! stops and names the one observation it needs: whether a literal path
//! exists, or the walk of the subtree. A caller makes the observation, adds
//! it to the findings, and asks again. Nothing is looked at that the
//! evaluation does not reach: a satisfied spec ends its `any` clause, a
//! failed spec ends its `all` clause, and the first satisfied rule ends the
//! classification.

use vstd::prelude::*;
use crate::config::{
    copy_texts, definitions_view, texts, DetectRule, DetectRuleView, FolderTypeConfig, FolderTypeConfigView,
};
use crate::folder_type::{
    classification, clause_specs, definition_matches, is_first_match, lemma_earliest_match_wins,
    lemma_no_match_is_unknown, rule_satisfied, unknown_id,
};
use crate::glob::{compile, glob_matches, pattern_compiles};
use crate::paths::{is_glob, is_glob_spec, normalized};
use crate::plan::{
    definition_specs, lemma_literals_of_holds_each_literal, lemma_plan_holds_each_literal,
    planned_literals,
};
use crate::probe::{some_entry_matches, spec_satisfied, FolderSnapshot, FolderSnapshotView};

verus! {

/// One observation that the evaluation asks for.
#[derive(Debug, Clone)]
pub enum Request {
    /// Whether the path that this literal spec names exists under the
    /// folder.
    Exists(String),
    /// The paths of all entries of the folder's subtree, relative to the
    /// folder.
    Walk,
}

/// Where the evaluation stands.
#[derive(Debug, Clone)]
pub enum Step {
    /// This observation is needed before the evaluation can go on.
    Ask(Request),
    /// The folder is classified, as the type with this id.
    Done(String),
}

/// What a [`Request`] says, as mathematical values.
pub enum RequestView {
    Exists(Seq<char>),
    Walk,
}

/// What a [`Step`] says, as mathematical values.
pub enum StepView {
    Ask(RequestView),
    Done(Seq<char>),
}

impl View for Request {
    type V = RequestView;

    open spec fn view(&self) -> RequestView {
        match self {
            Request::Exists(spec) => RequestView::Exists(spec@),
            Request::Walk => RequestView::Walk,
        }
    }
}

impl View for Step {
    type V = StepView;

    open spec fn view(&self) -> StepView {
        match self {
            Step::Ask(request) => StepView::Ask(request@),
            Step::Done(folder_type) => StepView::Done(folder_type@),
        }
    }
}

/// Whether a spec, a clause or a rule is satisfied, as far as the findings
/// tell.
pub enum Verdict {
    Yes,
    No,
    /// It cannot be told before this observation is made.
    Ask(RequestView),
}

/// What is known of a folder, as mathematical values: for some literal
/// specs whether their path exists, and the walk where it was made.
pub struct FindingsView {
    pub literals: Seq<(Seq<char>, bool)>,
    pub entries: Option<Seq<Seq<char>>>,
}

impl FindingsView {
    /// Whether no literal spec was recorded twice.
    pub open spec fn wf(self) -> bool {
        forall|i: int, j: int|
            0 <= i < self.literals.len() && 0 <= j < self.literals.len() && i != j
                ==> self.literals[i].0 != self.literals[j].0
    }

    /// Whether it is known if the path of a literal spec exists.
    pub open spec fn knows(self, spec: Seq<char>) -> bool {
        exists|i: int| 0 <= i < self.literals.len() && (#[trigger] self.literals[i]).0 == spec
    }

    /// What is known of the path of a literal spec.
    pub open spec fn known(self, spec: Seq<char>) -> Option<bool> {
        if self.knows(spec) {
            let i = choose|i: int|
                0 <= i < self.literals.len() && (#[trigger] self.literals[i]).0 == spec;
            Some(self.literals[i].1)
        } else {
            None
        }
    }

    /// Whether a snapshot of the folder is in keeping with the findings: it
    /// holds a literal exactly where the literal was found to exist, and its
    /// entries are those of the walk where the walk was made.
    pub open spec fn agrees(self, snapshot: FolderSnapshotView) -> bool {
        &&& forall|i: int|
            0 <= i < self.literals.len() ==> snapshot.present.contains(
                (#[trigger] self.literals[i]).0,
            ) == self.literals[i].1
        &&& match self.entries {
            Some(entries) => snapshot.entries == entries,
            None => true,
        }
    }

    /// The literals among the first `n` that were found to exist, in the
    /// order in which they were recorded.
    pub open spec fn present_upto(self, n: int) -> Seq<Seq<char>>
        decreases n,
    {
        if n <= 0 {
            Seq::empty()
        } else if self.literals[n - 1].1 {
            self.present_upto(n - 1).push(self.literals[n - 1].0)
        } else {
            self.present_upto(n - 1)
        }
    }

    /// The findings as a snapshot: the literals that were found to exist,
    /// and the entries of the walk, none where no walk was made.
    pub open spec fn snapshot(self) -> FolderSnapshotView {
        FolderSnapshotView {
            present: self.present_upto(self.literals.len() as int),
            entries: match self.entries {
                Some(entries) => entries,
                None => Seq::empty(),
            },
        }
    }
}

/// The verdict on one spec. A glob that does not compile fails without a
/// walk; any other glob needs the walk; a literal needs to be looked for.
pub open spec fn verdict_of_spec(findings: FindingsView, spec: Seq<char>) -> Verdict {
    if is_glob_spec(spec) {
        if !pattern_compiles(normalized(spec)) {
            Verdict::No
        } else {
            match findings.entries {
                None => Verdict::Ask(RequestView::Walk),
                Some(entries) => if some_entry_matches(normalized(spec), entries) {
                    Verdict::Yes
                } else {
                    Verdict::No
                },
            }
        }
    } else {
        match findings.known(spec) {
            Some(true) => Verdict::Yes,
            Some(false) => Verdict::No,
            None => Verdict::Ask(RequestView::Exists(spec)),
        }
    }
}

/// The verdict on the specs of an `any` clause from position `from` on:
/// that of the first spec that does not fail, and failure where each fails.
pub open spec fn verdict_of_any_from(
    findings: FindingsView,
    specs: Seq<Seq<char>>,
    from: int,
) -> Verdict
    decreases specs.len() - from,
{
    if from < 0 || from >= specs.len() {
        Verdict::No
    } else {
        match verdict_of_spec(findings, specs[from]) {
            Verdict::No => verdict_of_any_from(findings, specs, from + 1),
            other => other,
        }
    }
}

/// The verdict on an `any` clause. An empty clause is satisfied.
pub open spec fn verdict_of_any(findings: FindingsView, specs: Seq<Seq<char>>) -> Verdict {
    if specs.len() == 0 {
        Verdict::Yes
    } else {
        verdict_of_any_from(findings, specs, 0)
    }
}

/// The verdict on the specs of an `all` clause from position `from` on:
/// that of the first spec that is not satisfied, and satisfaction where
/// each is satisfied.
pub open spec fn verdict_of_all_from(
    findings: FindingsView,
    specs: Seq<Seq<char>>,
    from: int,
) -> Verdict
    decreases specs.len() - from,
{
    if from < 0 || from >= specs.len() {
        Verdict::Yes
    } else {
        match verdict_of_spec(findings, specs[from]) {
            Verdict::Yes => verdict_of_all_from(findings, specs, from + 1),
            other => other,
        }
    }
}

/// The verdict on a rule: that of its `any` clause unless that clause is
/// satisfied, and then that of its `all` clause.
pub open spec fn verdict_of_rule(findings: FindingsView, rule: DetectRuleView) -> Verdict {
    match verdict_of_any(findings, clause_specs(rule.any)) {
        Verdict::Yes => verdict_of_all_from(findings, clause_specs(rule.all), 0),
        other => other,
    }
}

/// Where the evaluation of the definitions from position `from` on stands:
/// at the first definition whose rule does not fail. A definition without a
/// rule is passed over.
pub open spec fn step_from(
    findings: FindingsView,
    definitions: Seq<FolderTypeConfigView>,
    from: int,
) -> StepView
    decreases definitions.len() - from,
{
    if from < 0 || from >= definitions.len() {
        StepView::Done(unknown_id())
    } else {
        match definitions[from].detect {
            None => step_from(findings, definitions, from + 1),
            Some(rule) => match verdict_of_rule(findings, rule) {
                Verdict::Yes => StepView::Done(definitions[from].id),
                Verdict::Ask(request) => StepView::Ask(request),
                Verdict::No => step_from(findings, definitions, from + 1),
            },
        }
    }
}

/// Where the evaluation of the definitions stands, given the findings.
pub open spec fn next_step_of(
    findings: FindingsView,
    definitions: Seq<FolderTypeConfigView>,
) -> StepView {
    step_from(findings, definitions, 0)
}

/// One literal spec with what was found of its path.
#[derive(Debug, Clone)]
struct Finding {
    spec: String,
    exists: bool,
}

/// What is known of a folder so far.
#[derive(Debug)]
pub struct Findings {
    literals: Vec<Finding>,
    entries: Option<Vec<String>>,
}

/// The views of a list of findings, element by element.
spec fn literals_view(literals: Seq<Finding>) -> Seq<(Seq<char>, bool)> {
    Seq::new(literals.len(), |i: int| (literals[i].spec@, literals[i].exists))
}

impl View for Findings {
    type V = FindingsView;

    closed spec fn view(&self) -> FindingsView {
        FindingsView {
            literals: literals_view(self.literals@),
            entries: match self.entries {
                Some(entries) => Some(texts(entries@)),
                None => None,
            },
        }
    }
}

impl Findings {
    #[verifier::type_invariant]
    spec fn no_spec_twice(self) -> bool {
        self@.wf()
    }

    /// Nothing is known yet.
    pub fn new() -> (out: Findings)
        ensures
            out@.wf(),
            out@.literals.len() == 0,
            out@.entries is None,
    {
        Findings { literals: Vec::new(), entries: None }
    }

    /// What is known of the path of a literal spec.
    pub fn lookup(&self, spec: &String) -> (out: Option<bool>)
        ensures
            self@.wf(),
            out == self@.known(spec@),
    {
        proof {
            use_type_invariant(self);
        }
        let mut i: usize = 0;
        while i < self.literals.len()
            invariant
                i <= self.literals.len(),
                self@.wf(),
                self@.literals.len() == self.literals.len(),
                forall|j: int| 0 <= j < i ==> (#[trigger] self@.literals[j]).0 != spec@,
            decreases self.literals.len() - i,
        {
            if self.literals[i].spec == *spec {
                proof {
                    assert(self@.literals[i as int].0 == spec@);
                    let c = choose|c: int|
                        0 <= c < self@.literals.len() && (#[trigger] self@.literals[c]).0 == spec@;
                    assert(c == i);
                }
                return Some(self.literals[i].exists);
            }
            i += 1;
        }
        None
    }

    /// The findings with one more: whether the path of a literal spec
    /// exists. What is already known of the spec stands.
    pub fn with_exists(self, spec: String, exists: bool) -> (out: Findings)
        ensures
            out@.wf(),
            out@.entries == self@.entries,
            out@.literals == if self@.knows(spec@) {
                self@.literals
            } else {
                self@.literals.push((spec@, exists))
            },
            is_answered(self@, out@, RequestView::Exists(spec@)),
    {
        proof {
            use_type_invariant(&self);
        }
        match self.lookup(&spec) {
            Some(_) => self,
            None => {
                let ghost before = self@;
                let Findings { literals, entries } = self;
                let mut literals = literals;
                assert(literals_view(literals@) == before.literals);
                literals.push(Finding { spec, exists });
                proof {
                    let after = literals_view(literals@);
                    assert(after =~= before.literals.push((spec@, exists)));
                    assert forall|i: int, j: int|
                        0 <= i < after.len() && 0 <= j < after.len() && i != j implies after[i].0
                        != after[j].0 by {
                        if i < before.literals.len() && j < before.literals.len() {
                            assert(before.literals[i].0 != before.literals[j].0);
                        } else if i < before.literals.len() {
                            assert(before.literals[i].0 != spec@);
                        } else {
                            assert(before.literals[j].0 != spec@);
                        }
                    }
                    assert(after[before.literals.len() as int].0 == spec@);
                    assert forall|known: Seq<char>| before.knows(known) implies (exists|i: int|
                        0 <= i < after.len() && (#[trigger] after[i]).0 == known) by {
                        let i = choose|i: int|
                            0 <= i < before.literals.len() && (#[trigger] before.literals[i]).0
                                == known;
                        assert(after[i].0 == known);
                    }
                }
                Findings { literals, entries }
            },
        }
    }

    /// The findings with the walk of the subtree. A walk that was already
    /// recorded stands.
    pub fn with_walk(self, entries: Vec<String>) -> (out: Findings)
        ensures
            out@.wf(),
            out@.literals == self@.literals,
            out@.entries == match self@.entries {
                Some(walked) => Some(walked),
                None => Some(texts(entries@)),
            },
            is_answered(self@, out@, RequestView::Walk),
    {
        proof {
            use_type_invariant(&self);
        }
        if self.entries.is_some() {
            self
        } else {
            let ghost before = self@;
            let Findings { literals, entries: _ } = self;
            assert(literals_view(literals@) == before.literals);
            Findings { literals, entries: Some(entries) }
        }
    }

    /// The findings as a snapshot of the folder: the literals that were
    /// found to exist, and the entries of the walk. The snapshot is in
    /// keeping with the findings.
    pub fn snapshot(&self) -> (out: FolderSnapshot)
        ensures
            self@.wf(),
            out@ == self@.snapshot(),
            self@.agrees(out@),
    {
        proof {
            use_type_invariant(self);
        }
        let mut present: Vec<String> = Vec::new();
        let mut i: usize = 0;
        while i < self.literals.len()
            invariant
                i <= self.literals.len(),
                texts(present@) == self@.present_upto(i as int),
            decreases self.literals.len() - i,
        {
            if self.literals[i].exists {
                let ghost before = texts(present@);
                present.push(self.literals[i].spec.clone());
                assert(texts(present@) == before.push(self@.literals[i as int].0));
            }
            i += 1;
        }
        let entries = match &self.entries {
            Some(entries) => copy_texts(entries),
            None => Vec::new(),
        };
        proof {
            lemma_snapshot_agrees(self@);
        }
        let out = FolderSnapshot { present, entries };
        assert(out@.entries == self@.snapshot().entries);
        out
    }
}

/// The literals that were found to exist are those that the snapshot of
/// the findings holds.
pub proof fn lemma_present_upto_holds(findings: FindingsView, n: int, spec: Seq<char>)
    requires
        0 <= n <= findings.literals.len(),
    ensures
        findings.present_upto(n).contains(spec) <==> exists|i: int|
            0 <= i < n && (#[trigger] findings.literals[i]).0 == spec && findings.literals[i].1,
    decreases n,
{
    if n > 0 {
        lemma_present_upto_holds(findings, n - 1, spec);
        let earlier = findings.present_upto(n - 1);
        let last = findings.literals[n - 1];
        if last.1 {
            let all = earlier.push(last.0);
            if all.contains(spec) {
                let at = choose|at: int| 0 <= at < all.len() && all[at] == spec;
                if at < earlier.len() {
                    assert(earlier[at] == spec);
                } else {
                    assert(findings.literals[n - 1].0 == spec);
                }
            }
            if exists|i: int|
                0 <= i < n && (#[trigger] findings.literals[i]).0 == spec && findings.literals[i].1 {
                let i = choose|i: int|
                    0 <= i < n && (#[trigger] findings.literals[i]).0 == spec
                        && findings.literals[i].1;
                if i == n - 1 {
                    assert(all[earlier.len() as int] == spec);
                } else {
                    let at = choose|at: int| 0 <= at < earlier.len() && earlier[at] == spec;
                    assert(all[at] == spec);
                }
            }
        }
    }
}

/// Findings in which no spec stands twice are in keeping with the snapshot
/// made of them.
pub proof fn lemma_snapshot_agrees(findings: FindingsView)
    requires
        findings.wf(),
    ensures
        findings.agrees(findings.snapshot()),
{
    let snapshot = findings.snapshot();
    let n = findings.literals.len() as int;
    assert forall|i: int| 0 <= i < n implies snapshot.present.contains(
        (#[trigger] findings.literals[i]).0,
    ) == findings.literals[i].1 by {
        let spec = findings.literals[i].0;
        lemma_present_upto_holds(findings, n, spec);
        if snapshot.present.contains(spec) {
            let k = choose|k: int|
                0 <= k < n && (#[trigger] findings.literals[k]).0 == spec && findings.literals[k].1;
            assert(k == i);
        }
    }
}

/// A verdict on a spec that is not a request tells whether the spec is
/// satisfied, for every snapshot that is in keeping with the findings.
pub proof fn lemma_verdict_of_spec_is_sound(
    findings: FindingsView,
    snapshot: FolderSnapshotView,
    spec: Seq<char>,
)
    requires
        findings.agrees(snapshot),
    ensures
        verdict_of_spec(findings, spec) is Yes ==> spec_satisfied(snapshot, spec),
        verdict_of_spec(findings, spec) is No ==> !spec_satisfied(snapshot, spec),
{
    if !is_glob_spec(spec) && findings.knows(spec) {
        let i = choose|i: int|
            0 <= i < findings.literals.len() && (#[trigger] findings.literals[i]).0 == spec;
        assert(snapshot.present.contains(findings.literals[i].0) == findings.literals[i].1);
    }
}

/// A verdict on the rest of an `any` clause that is not a request tells
/// whether one of the remaining specs is satisfied.
pub proof fn lemma_verdict_of_any_is_sound(
    findings: FindingsView,
    snapshot: FolderSnapshotView,
    specs: Seq<Seq<char>>,
    from: int,
)
    requires
        findings.agrees(snapshot),
        0 <= from <= specs.len(),
    ensures
        verdict_of_any_from(findings, specs, from) is Yes ==> exists|i: int|
            from <= i < specs.len() && spec_satisfied(snapshot, #[trigger] specs[i]),
        verdict_of_any_from(findings, specs, from) is No ==> forall|i: int|
            from <= i < specs.len() ==> !spec_satisfied(snapshot, #[trigger] specs[i]),
    decreases specs.len() - from,
{
    if from < specs.len() {
        lemma_verdict_of_spec_is_sound(findings, snapshot, specs[from]);
        lemma_verdict_of_any_is_sound(findings, snapshot, specs, from + 1);
        if verdict_of_any_from(findings, specs, from) is Yes {
            if verdict_of_spec(findings, specs[from]) is Yes {
                assert(spec_satisfied(snapshot, specs[from]));
            } else {
                let i = choose|i: int|
                    from + 1 <= i < specs.len() && spec_satisfied(snapshot, #[trigger] specs[i]);
                assert(from <= i < specs.len());
            }
        }
    }
}

/// A verdict on the rest of an `all` clause that is not a request tells
/// whether each of the remaining specs is satisfied.
pub proof fn lemma_verdict_of_all_is_sound(
    findings: FindingsView,
    snapshot: FolderSnapshotView,
    specs: Seq<Seq<char>>,
    from: int,
)
    requires
        findings.agrees(snapshot),
        0 <= from <= specs.len(),
    ensures
        verdict_of_all_from(findings, specs, from) is Yes ==> forall|i: int|
            from <= i < specs.len() ==> spec_satisfied(snapshot, #[trigger] specs[i]),
        verdict_of_all_from(findings, specs, from) is No ==> exists|i: int|
            from <= i < specs.len() && !spec_satisfied(snapshot, #[trigger] specs[i]),
    decreases specs.len() - from,
{
    if from < specs.len() {
        lemma_verdict_of_spec_is_sound(findings, snapshot, specs[from]);
        lemma_verdict_of_all_is_sound(findings, snapshot, specs, from + 1);
        if verdict_of_all_from(findings, specs, from) is No {
            if verdict_of_spec(findings, specs[from]) is No {
                assert(!spec_satisfied(snapshot, specs[from]));
            } else {
                let i = choose|i: int|
                    from + 1 <= i < specs.len() && !spec_satisfied(snapshot, #[trigger] specs[i]);
                assert(from <= i < specs.len());
            }
        }
    }
}

/// A verdict on a rule that is not a request tells whether the rule is
/// satisfied.
pub proof fn lemma_verdict_of_rule_is_sound(
    findings: FindingsView,
    snapshot: FolderSnapshotView,
    rule: DetectRuleView,
)
    requires
        findings.agrees(snapshot),
    ensures
        verdict_of_rule(findings, rule) is Yes ==> rule_satisfied(snapshot, rule),
        verdict_of_rule(findings, rule) is No ==> !rule_satisfied(snapshot, rule),
{
    let any = clause_specs(rule.any);
    let all = clause_specs(rule.all);
    lemma_verdict_of_any_is_sound(findings, snapshot, any, 0);
    lemma_verdict_of_all_is_sound(findings, snapshot, all, 0);
}

/// Where the evaluation from position `from` on is done, and no definition
/// before `from` is matched, its result is the classification of every
/// snapshot that is in keeping with the findings.
pub proof fn lemma_done_from_is_classification(
    findings: FindingsView,
    snapshot: FolderSnapshotView,
    definitions: Seq<FolderTypeConfigView>,
    from: int,
)
    requires
        findings.agrees(snapshot),
        0 <= from <= definitions.len(),
        forall|j: int| 0 <= j < from ==> !definition_matches(snapshot, #[trigger] definitions[j]),
        step_from(findings, definitions, from) is Done,
    ensures
        step_from(findings, definitions, from) == StepView::Done(
            classification(snapshot, definitions),
        ),
    decreases definitions.len() - from,
{
    if from >= definitions.len() {
        lemma_no_match_is_unknown(snapshot, definitions);
    } else {
        match definitions[from].detect {
            None => {
                lemma_done_from_is_classification(findings, snapshot, definitions, from + 1);
            },
            Some(rule) => {
                lemma_verdict_of_rule_is_sound(findings, snapshot, rule);
                match verdict_of_rule(findings, rule) {
                    Verdict::Yes => {
                        assert(is_first_match(snapshot, definitions, from));
                        lemma_earliest_match_wins(snapshot, definitions, from);
                    },
                    Verdict::Ask(_) => {},
                    Verdict::No => {
                        lemma_done_from_is_classification(
                            findings,
                            snapshot,
                            definitions,
                            from + 1,
                        );
                    },
                }
            },
        }
    }
}

/// Soundness: where the evaluation is done, its result is the
/// classification of every snapshot that is in keeping with the findings,
/// whatever else the snapshot holds.
pub proof fn lemma_done_is_classification(
    findings: FindingsView,
    snapshot: FolderSnapshotView,
    definitions: Seq<FolderTypeConfigView>,
)
    requires
        findings.agrees(snapshot),
        next_step_of(findings, definitions) is Done,
    ensures
        next_step_of(findings, definitions) == StepView::Done(
            classification(snapshot, definitions),
        ),
{
    lemma_done_from_is_classification(findings, snapshot, definitions, 0);
}

/// Where the evaluation is done, its result is the classification of the
/// snapshot that is made of the findings.
pub proof fn lemma_done_classifies_own_snapshot(
    findings: FindingsView,
    definitions: Seq<FolderTypeConfigView>,
)
    requires
        findings.wf(),
        next_step_of(findings, definitions) is Done,
    ensures
        next_step_of(findings, definitions) == StepView::Done(
            classification(findings.snapshot(), definitions),
        ),
{
    lemma_snapshot_agrees(findings);
    lemma_done_is_classification(findings, findings.snapshot(), definitions);
}

/// A request of a verdict on a spec asks for what is not known yet: a
/// literal of which nothing was recorded, or the walk where none was made.
pub open spec fn is_new_request(findings: FindingsView, request: RequestView) -> bool {
    match request {
        RequestView::Exists(spec) => !is_glob_spec(spec) && !findings.knows(spec),
        RequestView::Walk => findings.entries is None,
    }
}

/// The verdict on the rest of a clause asks only for what is not known.
pub proof fn lemma_clause_requests_are_new(
    findings: FindingsView,
    specs: Seq<Seq<char>>,
    from: int,
)
    requires
        0 <= from <= specs.len(),
    ensures
        verdict_of_any_from(findings, specs, from) is Ask ==> is_new_request(
            findings,
            verdict_of_any_from(findings, specs, from)->Ask_0,
        ),
        verdict_of_all_from(findings, specs, from) is Ask ==> is_new_request(
            findings,
            verdict_of_all_from(findings, specs, from)->Ask_0,
        ),
    decreases specs.len() - from,
{
    if from < specs.len() {
        lemma_clause_requests_are_new(findings, specs, from + 1);
    }
}

/// The evaluation from position `from` on asks only for what is not known.
pub proof fn lemma_requests_from_are_new(
    findings: FindingsView,
    definitions: Seq<FolderTypeConfigView>,
    from: int,
)
    requires
        0 <= from <= definitions.len(),
    ensures
        step_from(findings, definitions, from) is Ask ==> is_new_request(
            findings,
            step_from(findings, definitions, from)->Ask_0,
        ),
    decreases definitions.len() - from,
{
    if from < definitions.len() {
        lemma_requests_from_are_new(findings, definitions, from + 1);
        match definitions[from].detect {
            None => {},
            Some(rule) => {
                lemma_clause_requests_are_new(findings, clause_specs(rule.any), 0);
                lemma_clause_requests_are_new(findings, clause_specs(rule.all), 0);
            },
        }
    }
}

/// Progress: the evaluation never asks for what the findings already hold.
/// Each answer therefore adds to the findings, and an answered request is
/// not made again.
pub proof fn lemma_requests_are_new(
    findings: FindingsView,
    definitions: Seq<FolderTypeConfigView>,
)
    ensures
        next_step_of(findings, definitions) is Ask ==> is_new_request(
            findings,
            next_step_of(findings, definitions)->Ask_0,
        ),
{
    lemma_requests_from_are_new(findings, definitions, 0);
}

/// The request of a verdict on the rest of a clause, where it asks for a
/// literal, asks for one of the remaining specs of the clause.
pub proof fn lemma_clause_asks_for_own_literal(
    findings: FindingsView,
    specs: Seq<Seq<char>>,
    from: int,
    spec: Seq<char>,
)
    requires
        0 <= from <= specs.len(),
        verdict_of_any_from(findings, specs, from) == Verdict::Ask(RequestView::Exists(spec))
            || verdict_of_all_from(findings, specs, from) == Verdict::Ask(
            RequestView::Exists(spec),
        ),
    ensures
        exists|j: int| from <= j < specs.len() && #[trigger] specs[j] == spec,
    decreases specs.len() - from,
{
    if from < specs.len() {
        if verdict_of_spec(findings, specs[from]) == Verdict::Ask(RequestView::Exists(spec)) {
            assert(specs[from] == spec);
        } else {
            lemma_clause_asks_for_own_literal(findings, specs, from + 1, spec);
            let j = choose|j: int| from + 1 <= j < specs.len() && #[trigger] specs[j] == spec;
            assert(from <= j < specs.len());
        }
    }
}

/// A literal that the evaluation asks for is one of the planned literals of
/// the definitions.
pub proof fn lemma_asked_literal_is_planned(
    findings: FindingsView,
    definitions: Seq<FolderTypeConfigView>,
    from: int,
    spec: Seq<char>,
)
    requires
        0 <= from <= definitions.len(),
        step_from(findings, definitions, from) == StepView::Ask(RequestView::Exists(spec)),
    ensures
        !is_glob_spec(spec),
        planned_literals(definitions).contains(spec),
    decreases definitions.len() - from,
{
    lemma_requests_from_are_new(findings, definitions, from);
    if from < definitions.len() {
        match definitions[from].detect {
            None => {
                lemma_asked_literal_is_planned(findings, definitions, from + 1, spec);
            },
            Some(rule) => {
                match verdict_of_rule(findings, rule) {
                    Verdict::Ask(request) => {
                        let any = clause_specs(rule.any);
                        let all = clause_specs(rule.all);
                        let specs = definition_specs(definitions[from]);
                        if verdict_of_any(findings, any) is Yes {
                            lemma_clause_asks_for_own_literal(findings, all, 0, spec);
                            let j = choose|j: int| 0 <= j < all.len() && #[trigger] all[j] == spec;
                            assert(specs[any.len() + j] == spec);
                            lemma_literals_of_holds_each_literal(specs, any.len() + j);
                        } else {
                            lemma_clause_asks_for_own_literal(findings, any, 0, spec);
                            let j = choose|j: int| 0 <= j < any.len() && #[trigger] any[j] == spec;
                            assert(specs[j] == spec);
                            lemma_literals_of_holds_each_literal(specs, j);
                        }
                        lemma_plan_holds_each_literal(
                            definitions,
                            definitions.len() as int,
                            from,
                            spec,
                        );
                    },
                    Verdict::No => {
                        lemma_asked_literal_is_planned(findings, definitions, from + 1, spec);
                    },
                    Verdict::Yes => {},
                }
            },
        }
    }
}

/// How many of the first `n` literals of a list the findings do not hold.
pub open spec fn open_literals_upto(
    findings: FindingsView,
    literals: Seq<Seq<char>>,
    n: int,
) -> nat
    decreases n,
{
    if n <= 0 {
        0
    } else if findings.knows(literals[n - 1]) {
        open_literals_upto(findings, literals, n - 1)
    } else {
        open_literals_upto(findings, literals, n - 1) + 1
    }
}

/// How many observations are open at most: the planned literals that the
/// findings do not hold, and the walk where it was not made.
pub open spec fn open_observations(
    findings: FindingsView,
    definitions: Seq<FolderTypeConfigView>,
) -> nat {
    let planned = planned_literals(definitions);
    open_literals_upto(findings, planned, planned.len() as int) + if findings.entries is None {
        1nat
    } else {
        0nat
    }
}

/// Whether `after` are the findings `before` with the request answered:
/// what was asked for is known, and nothing that was known is lost.
pub open spec fn is_answered(before: FindingsView, after: FindingsView, request: RequestView) -> bool {
    &&& forall|spec: Seq<char>| before.knows(spec) ==> #[trigger] after.knows(spec)
    &&& before.entries is Some ==> after.entries is Some
    &&& match request {
        RequestView::Exists(spec) => after.knows(spec),
        RequestView::Walk => after.entries is Some,
    }
}

/// Findings that hold more leave no more literals open.
pub proof fn lemma_open_literals_shrink(
    before: FindingsView,
    after: FindingsView,
    literals: Seq<Seq<char>>,
    n: int,
)
    requires
        0 <= n <= literals.len(),
        forall|spec: Seq<char>| before.knows(spec) ==> #[trigger] after.knows(spec),
    ensures
        open_literals_upto(after, literals, n) <= open_literals_upto(before, literals, n),
        forall|k: int|
            0 <= k < n && !before.knows(#[trigger] literals[k]) && after.knows(literals[k])
                ==> open_literals_upto(after, literals, n) < open_literals_upto(
                before,
                literals,
                n,
            ),
    decreases n,
{
    if n > 0 {
        lemma_open_literals_shrink(before, after, literals, n - 1);
        if before.knows(literals[n - 1]) {
            assert(after.knows(literals[n - 1]));
        }
    }
}

/// Termination: each answer to a request brings the end closer. A survey
/// that starts with nothing known is done after at most one answer for each
/// planned literal and one for the walk.
pub proof fn lemma_each_answer_brings_the_end_closer(
    before: FindingsView,
    after: FindingsView,
    definitions: Seq<FolderTypeConfigView>,
)
    requires
        next_step_of(before, definitions) is Ask,
        is_answered(before, after, next_step_of(before, definitions)->Ask_0),
    ensures
        open_observations(after, definitions) < open_observations(before, definitions),
{
    let planned = planned_literals(definitions);
    lemma_open_literals_shrink(before, after, planned, planned.len() as int);
    lemma_requests_are_new(before, definitions);
    match next_step_of(before, definitions)->Ask_0 {
        RequestView::Exists(spec) => {
            lemma_asked_literal_is_planned(before, definitions, 0, spec);
            let k = choose|k: int| 0 <= k < planned.len() && planned[k] == spec;
            assert(!before.knows(planned[k]) && after.knows(planned[k]));
        },
        RequestView::Walk => {},
    }
}

/// A verdict, with the request as a value that can be handed out.
enum Outcome {
    Yes,
    No,
    Ask(Request),
}

impl Outcome {
    spec fn verdict(self) -> Verdict {
        match self {
            Outcome::Yes => Verdict::Yes,
            Outcome::No => Verdict::No,
            Outcome::Ask(request) => Verdict::Ask(request@),
        }
    }
}

/// Judges one spec on the findings.
fn judge_spec(findings: &Findings, spec: &String) -> (out: Outcome)
    ensures
        out.verdict() == verdict_of_spec(findings@, spec@),
{
    if is_glob(spec.as_str()) {
        match compile(spec.as_str()) {
            Err(_) => Outcome::No,
            Ok(matcher) => match &findings.entries {
                None => Outcome::Ask(Request::Walk),
                Some(entries) => {
                    let mut i: usize = 0;
                    while i < entries.len()
                        invariant
                            i <= entries.len(),
                            is_glob_spec(spec@),
                            pattern_compiles(normalized(spec@)),
                            findings@.entries == Some(texts(entries@)),
                            matcher.pattern() == normalized(spec@),
                            forall|j: int|
                                0 <= j < i ==> !glob_matches(
                                    normalized(spec@),
                                    normalized(#[trigger] texts(entries@)[j]),
                                ),
                        decreases entries.len() - i,
                    {
                        if matcher.matches(entries[i].as_str()) {
                            assert(glob_matches(
                                normalized(spec@),
                                normalized(texts(entries@)[i as int]),
                            ));
                            return Outcome::Yes;
                        }
                        i += 1;
                    }
                    Outcome::No
                },
            },
        }
    } else {
        match findings.lookup(spec) {
            Some(true) => Outcome::Yes,
            Some(false) => Outcome::No,
            None => Outcome::Ask(Request::Exists(spec.clone())),
        }
    }
}

/// Judges an `any` clause on the findings, up to the first spec that does
/// not fail.
fn judge_any(findings: &Findings, specs: &Vec<String>) -> (out: Outcome)
    ensures
        out.verdict() == verdict_of_any(findings@, texts(specs@)),
{
    if specs.len() == 0 {
        return Outcome::Yes;
    }
    let mut i: usize = 0;
    while i < specs.len()
        invariant
            i <= specs.len(),
            verdict_of_any_from(findings@, texts(specs@), i as int) == verdict_of_any_from(
                findings@,
                texts(specs@),
                0,
            ),
        decreases specs.len() - i,
    {
        match judge_spec(findings, &specs[i]) {
            Outcome::No => {},
            other => {
                return other;
            },
        }
        i += 1;
    }
    Outcome::No
}

/// Judges an `all` clause on the findings, up to the first spec that is not
/// satisfied.
fn judge_all(findings: &Findings, specs: &Vec<String>) -> (out: Outcome)
    ensures
        out.verdict() == verdict_of_all_from(findings@, texts(specs@), 0),
{
    let mut i: usize = 0;
    while i < specs.len()
        invariant
            i <= specs.len(),
            verdict_of_all_from(findings@, texts(specs@), i as int) == verdict_of_all_from(
                findings@,
                texts(specs@),
                0,
            ),
        decreases specs.len() - i,
    {
        match judge_spec(findings, &specs[i]) {
            Outcome::Yes => {},
            other => {
                return other;
            },
        }
        i += 1;
    }
    Outcome::Yes
}

/// Judges a rule on the findings: the `any` clause, then, where that is
/// satisfied, the `all` clause.
fn judge_rule(findings: &Findings, rule: &DetectRule) -> (out: Outcome)
    ensures
        out.verdict() == verdict_of_rule(findings@, rule@),
{
    let any = match &rule.any {
        Some(specs) => judge_any(findings, specs),
        None => Outcome::Yes,
    };
    match any {
        Outcome::Yes => match &rule.all {
            Some(specs) => judge_all(findings, specs),
            None => Outcome::Yes,
        },
        other => other,
    }
}

/// Evaluates the definitions on what is known of a folder, up to the first
/// observation that is missing: the request for it comes back, or, where
/// nothing is missing, the folder's type.
///
/// The type is the classification of the snapshot that is made of the
/// findings, and a request is for something that the findings do not hold.
pub fn next_step(findings: &Findings, definitions: &Vec<FolderTypeConfig>) -> (out: Step)
    ensures
        out@ == next_step_of(findings@, definitions_view(definitions@)),
        out is Done ==> out@ == StepView::Done(
            classification(findings@.snapshot(), definitions_view(definitions@)),
        ),
        out is Ask ==> is_new_request(findings@, out@->Ask_0),
{
    let ghost defs = definitions_view(definitions@);
    proof {
        use_type_invariant(findings);
        lemma_requests_are_new(findings@, defs);
        if next_step_of(findings@, defs) is Done {
            lemma_done_classifies_own_snapshot(findings@, defs);
        }
    }
    let mut i: usize = 0;
    while i < definitions.len()
        invariant
            i <= definitions.len(),
            defs == definitions_view(definitions@),
            step_from(findings@, defs, i as int) == step_from(findings@, defs, 0),
            next_step_of(findings@, defs) is Done ==> next_step_of(findings@, defs)
                == StepView::Done(classification(findings@.snapshot(), defs)),
            next_step_of(findings@, defs) is Ask ==> is_new_request(
                findings@,
                next_step_of(findings@, defs)->Ask_0,
            ),
        decreases definitions.len() - i,
    {
        assert(defs[i as int] == definitions[i as int]@);
        match &definitions[i].detect {
            None => {},
            Some(rule) => match judge_rule(findings, rule) {
                Outcome::Yes => {
                    return Step::Done(definitions[i].id.clone());
                },
                Outcome::Ask(request) => {
                    return Step::Ask(request);
                },
                Outcome::No => {},
            },
        }
        i += 1;
    }
    Step::Done("unknown".to_owned())
}

} // verus!
