//! Glob patterns, compiled once and matched against paths.
//!
//! The matching itself is globset's. Patterns and paths reach it with `/` as
//! their only separator, so that a pattern means the same on every platform,
//! and matching is case-sensitive.
//!
//! A pattern whose alternations are nested very deep, and a list of
//! patterns that is very large, is refused here and never reaches globset,
//! which has no such limits of its own and fails hard beyond them.

use vstd::prelude::*;
use crate::config::texts;
use crate::paths::{normalize_separators, normalized};

verus! {

#[verifier::external_type_specification]
#[verifier::external_body]
pub struct ExGlobSet(globset::GlobSet);

#[verifier::external_type_specification]
#[verifier::external_body]
pub struct ExGlobSetBuilder(globset::GlobSetBuilder);

#[verifier::external_type_specification]
#[verifier::external_body]
pub struct ExGlobError(globset::Error);

/// The deepest that the alternations of a pattern may be nested for the
/// pattern to be handed to globset.
///
/// globset takes one stack frame for each level of nesting, of several
/// hundred bytes, when it writes the regular expression of a glob and when
/// it drops a glob. At this depth the frames come to about a third of a
/// megabyte, where a thread may have no more than one megabyte of stack.
pub const MAX_NESTING_DEPTH: usize = 512;

/// The largest sum, over the patterns of one set, of their lengths in
/// characters and their number.
pub const MAX_SET_CHARS: usize = 1_048_576;

/// The largest product, for one set, of the number of its patterns and the
/// sum bounded by [`MAX_SET_CHARS`], plus one.
pub const MAX_SET_WEIGHT: u64 = 268_435_456;

/// Whether `globset::Glob::new` accepts the pattern. The options are
/// globset's defaults, here and below: matching is case-sensitive, and a
/// wildcard may match a separator.
pub uninterp spec fn glob_parses(pattern: Seq<char>) -> bool;

/// Whether `globset::GlobSetBuilder::build` succeeds on a builder that holds
/// exactly these patterns, in this order.
pub uninterp spec fn glob_set_builds(patterns: Seq<Seq<char>>) -> bool;

/// Whether a glob set that holds this one pattern matches the path, as
/// `globset::GlobSet::is_match` tells it.
pub uninterp spec fn glob_matches(pattern: Seq<char>, path: Seq<char>) -> bool;

/// The patterns that were added to a builder, in the order in which they
/// were added.
pub uninterp spec fn builder_patterns(builder: globset::GlobSetBuilder) -> Seq<Seq<char>>;

/// The patterns that a glob set was built from, in the order in which they
/// were added.
pub uninterp spec fn glob_set_patterns(set: globset::GlobSet) -> Seq<Seq<char>>;

/// Where the reading of a pattern stands with respect to character classes.
#[derive(Debug, Clone, Copy, PartialEq, Eq, Structural)]
pub enum ClassState {
    /// Outside any class.
    Outside,
    /// Just behind the `[` that opens a class.
    Opened,
    /// Just behind the `!` or `^` that negates a class.
    Negated,
    /// Behind the first member of a class.
    Inside,
}

/// Where the reading of a pattern stands: with respect to classes, how many
/// alternations are open, and how many were open at most.
pub struct BraceScan {
    pub class: ClassState,
    pub depth: nat,
    pub deepest: nat,
}

/// The reading of a pattern after one more character, as globset groups the
/// characters of a pattern without backslashes.
///
/// A `[` opens a class. The class may begin with `!` or `^`, its first
/// member may be `]`, and the next `]` closes it. Outside a class a `{`
/// opens an alternation and a `}` closes the one that was opened last.
/// Inside a class braces are members like any other character.
pub open spec fn scan_step(scan: BraceScan, c: char) -> BraceScan {
    match scan.class {
        ClassState::Outside => if c == '[' {
            BraceScan { class: ClassState::Opened, ..scan }
        } else if c == '{' {
            BraceScan {
                class: ClassState::Outside,
                depth: scan.depth + 1,
                deepest: if scan.depth + 1 > scan.deepest {
                    scan.depth + 1
                } else {
                    scan.deepest
                },
            }
        } else if c == '}' && scan.depth > 0 {
            BraceScan { depth: (scan.depth - 1) as nat, ..scan }
        } else {
            scan
        },
        ClassState::Opened => if c == '!' || c == '^' {
            BraceScan { class: ClassState::Negated, ..scan }
        } else {
            BraceScan { class: ClassState::Inside, ..scan }
        },
        ClassState::Negated => BraceScan { class: ClassState::Inside, ..scan },
        ClassState::Inside => if c == ']' {
            BraceScan { class: ClassState::Outside, ..scan }
        } else {
            scan
        },
    }
}

/// The reading of the first `n` characters of a pattern.
pub open spec fn scan_upto(text: Seq<char>, n: int) -> BraceScan
    decreases n,
{
    if n <= 0 {
        BraceScan { class: ClassState::Outside, depth: 0, deepest: 0 }
    } else {
        scan_step(scan_upto(text, n - 1), text[n - 1])
    }
}

/// How deep the alternations of a pattern are nested at most.
pub open spec fn nesting_depth(text: Seq<char>) -> nat {
    scan_upto(text, text.len() as int).deepest
}

/// Whether a pattern may be handed to globset: its alternations are nested
/// no deeper than [`MAX_NESTING_DEPTH`].
pub open spec fn pattern_within_bounds(pattern: Seq<char>) -> bool {
    nesting_depth(pattern) <= MAX_NESTING_DEPTH
}

/// The sum of the lengths, in characters, of the first `n` patterns.
pub open spec fn total_chars_upto(patterns: Seq<Seq<char>>, n: int) -> nat
    decreases n,
{
    if n <= 0 {
        0
    } else {
        total_chars_upto(patterns, n - 1) + patterns[n - 1].len()
    }
}

/// The sum of the lengths, in characters, of the patterns.
pub open spec fn total_chars(patterns: Seq<Seq<char>>) -> nat {
    total_chars_upto(patterns, patterns.len() as int)
}

/// Whether a list of patterns is small enough for a set of them to be
/// built: the sum of their lengths and their number is within
/// [`MAX_SET_CHARS`], and their number times that sum plus one is within
/// [`MAX_SET_WEIGHT`].
pub open spec fn set_within_bounds(patterns: Seq<Seq<char>>) -> bool {
    &&& total_chars(patterns) + patterns.len() <= MAX_SET_CHARS
    &&& patterns.len() * (total_chars(patterns) + patterns.len() + 1) <= MAX_SET_WEIGHT
}

/// Makes an empty builder with `globset::GlobSetBuilder::new`.
///
/// Believed, not proved: the new builder holds no pattern.
#[verifier::external_body]
fn new_builder() -> (out: globset::GlobSetBuilder)
    ensures
        builder_patterns(out).len() == 0,
{
    globset::GlobSetBuilder::new()
}

/// Parses a pattern with `globset::Glob::new` and, where it parses, adds the
/// glob to the builder with `globset::GlobSetBuilder::add`.
///
/// Believed, not proved: the call succeeds exactly when the pattern parses;
/// the builder then holds the pattern after those it held, and on failure
/// holds what it held.
///
/// Backslashes are kept out, since globset reads them differently from one
/// platform to the next. Deep nesting is kept out: globset nests one
/// alternation in another without a limit of its own, and writes the
/// regular expression of a glob, and drops a glob, by a recursion that is
/// as deep as the alternations are nested.
#[verifier::external_body]
fn add_pattern(builder: &mut globset::GlobSetBuilder, pattern: &str) -> (out: Result<
    (),
    globset::Error,
>)
    requires
        !pattern@.contains('\\'),
        pattern_within_bounds(pattern@),
    ensures
        out is Ok <==> glob_parses(pattern@),
        out is Ok ==> builder_patterns(*final(builder)) == builder_patterns(*old(builder)).push(
            pattern@,
        ),
        out is Err ==> builder_patterns(*final(builder)) == builder_patterns(*old(builder)),
{
    let glob = globset::Glob::new(pattern)?;
    builder.add(glob);
    Ok(())
}

/// Builds the set of a builder's patterns with
/// `globset::GlobSetBuilder::build`.
///
/// Believed, not proved: whether the call succeeds depends on the patterns
/// alone, it succeeds where there are none, and the set holds the patterns
/// of the builder.
///
/// The set is kept small, because globset unwraps the construction of the
/// Aho-Corasick matcher that it uses for the literal prefixes and suffixes
/// of the patterns. That construction fails where its states, its dense
/// transitions or its match entries pass 2^31 - 2. A literal is no longer
/// than its pattern and one separator, and a character is at most four
/// bytes, so with `n` patterns of `t` characters in all there are at most
/// `4 * (t + n)` bytes of literals: at most that many states and four more,
/// at most 256 dense transitions for each state, and, since no literal is
/// empty, at most `n` match entries for each state. The two bounds of
/// [`set_within_bounds`] keep each of the three below 2^31 - 2.
#[verifier::external_body]
fn build_set(builder: &globset::GlobSetBuilder) -> (out: Result<globset::GlobSet, globset::Error>)
    requires
        set_within_bounds(builder_patterns(*builder)),
    ensures
        out is Ok <==> glob_set_builds(builder_patterns(*builder)),
        builder_patterns(*builder).len() == 0 ==> out is Ok,
        out is Ok ==> glob_set_patterns(out->Ok_0) == builder_patterns(*builder),
{
    builder.build()
}

/// Asks `globset::GlobSet::is_match` whether any glob of the set matches the
/// path.
///
/// Believed, not proved: the answer is that of the set's patterns, one by
/// one. Backslashes are kept out, since globset turns them into separators on
/// some platforms only.
#[verifier::external_body]
fn set_is_match(set: &globset::GlobSet, path: &str) -> (out: bool)
    requires
        !path@.contains('\\'),
    ensures
        out == (exists|i: int|
            0 <= i < glob_set_patterns(*set).len() && glob_matches(
                #[trigger] glob_set_patterns(*set)[i],
                path@,
            )),
{
    set.is_match(path)
}

/// Each text of a list, with `/` as its only separator.
pub open spec fn normalized_each(list: Seq<Seq<char>>) -> Seq<Seq<char>> {
    Seq::new(list.len(), |i: int| normalized(list[i]))
}

/// Whether a pattern is accepted: its alternations are nested no deeper
/// than may be handed to globset, and it parses as a glob.
pub open spec fn pattern_accepted(pattern: Seq<char>) -> bool {
    pattern_within_bounds(pattern) && glob_parses(pattern)
}

/// Whether a pattern compiles into a matcher: the list of this one pattern
/// compiles into a set.
pub open spec fn pattern_compiles(pattern: Seq<char>) -> bool {
    patterns_compile(seq![pattern])
}

/// Whether `k` is the position of the first pattern that is not accepted.
pub open spec fn is_first_refused(patterns: Seq<Seq<char>>, k: int) -> bool {
    &&& 0 <= k < patterns.len()
    &&& !pattern_accepted(patterns[k])
    &&& forall|j: int| 0 <= j < k ==> pattern_accepted(#[trigger] patterns[j])
}

/// Whether a list of patterns compiles into a set: each of them is
/// accepted, the list is small enough, and the set of them builds.
pub open spec fn patterns_compile(patterns: Seq<Seq<char>>) -> bool {
    &&& forall|j: int| 0 <= j < patterns.len() ==> pattern_accepted(#[trigger] patterns[j])
    &&& set_within_bounds(patterns)
    &&& glob_set_builds(patterns)
}

/// Whether some pattern of the list matches the path.
pub open spec fn some_pattern_matches(patterns: Seq<Seq<char>>, path: Seq<char>) -> bool {
    exists|i: int| 0 <= i < patterns.len() && glob_matches(#[trigger] patterns[i], path)
}

/// A normalized text holds no backslash.
pub proof fn lemma_normalized_has_no_backslash(text: Seq<char>)
    ensures
        !normalized(text).contains('\\'),
{
    assert forall|i: int| 0 <= i < normalized(text).len() implies normalized(text)[i] != '\\' by {}
}

/// Why patterns did not compile.
#[derive(Debug, Clone)]
pub enum CompileError {
    /// This pattern, as it was given, is not a well-formed glob, or its
    /// alternations are nested deeper than [`MAX_NESTING_DEPTH`].
    Pattern(String),
    /// Each pattern is accepted, but the list of them is over the bounds of
    /// [`set_within_bounds`], or globset could not build the set of them,
    /// which it refuses where the compiled set grows too large.
    SetTooLarge,
}

/// What a [`CompileError`] says, as mathematical values.
pub enum CompileErrorView {
    Pattern(Seq<char>),
    SetTooLarge,
}

impl View for CompileError {
    type V = CompileErrorView;

    open spec fn view(&self) -> CompileErrorView {
        match self {
            CompileError::Pattern(pattern) => CompileErrorView::Pattern(pattern@),
            CompileError::SetTooLarge => CompileErrorView::SetTooLarge,
        }
    }
}

/// Whether `error` is what keeps the given patterns from compiling: the
/// first of them that is not accepted; else, where each is accepted, that
/// the list is too large or that the set of them does not build.
pub open spec fn is_compile_fault(given: Seq<Seq<char>>, error: CompileErrorView) -> bool {
    match error {
        CompileErrorView::Pattern(pattern) => exists|k: int|
            is_first_refused(normalized_each(given), k) && #[trigger] given[k] == pattern,
        CompileErrorView::SetTooLarge => {
            &&& forall|j: int|
                0 <= j < given.len() ==> pattern_accepted(#[trigger] normalized_each(given)[j])
            &&& !set_within_bounds(normalized_each(given)) || !glob_set_builds(
                normalized_each(given),
            )
        },
    }
}

/// Tells how deep the alternations of a pattern are nested at most.
pub fn alternation_depth(pattern: &str) -> (out: usize)
    ensures
        out == nesting_depth(pattern@),
{
    let length = pattern.unicode_len();
    let mut class = ClassState::Outside;
    let mut depth: usize = 0;
    let mut deepest: usize = 0;
    for c in it: pattern.chars()
        invariant
            it.seq() == pattern@,
            length == pattern@.len(),
            scan_upto(pattern@, it.index()) == (BraceScan {
                class,
                depth: depth as nat,
                deepest: deepest as nat,
            }),
            depth <= deepest <= it.index() <= length,
    {
        match class {
            ClassState::Outside => {
                if c == '[' {
                    class = ClassState::Opened;
                } else if c == '{' {
                    depth += 1;
                    if depth > deepest {
                        deepest = depth;
                    }
                } else if c == '}' && depth > 0 {
                    depth -= 1;
                }
            },
            ClassState::Opened => {
                if c == '!' || c == '^' {
                    class = ClassState::Negated;
                } else {
                    class = ClassState::Inside;
                }
            },
            ClassState::Negated => {
                class = ClassState::Inside;
            },
            ClassState::Inside => {
                if c == ']' {
                    class = ClassState::Outside;
                }
            },
        }
    }
    deepest
}

/// Tells whether a pattern, with `/` as its only separator, may be handed
/// to globset.
fn is_within_bounds(pattern: &str) -> (out: bool)
    ensures
        out == pattern_within_bounds(pattern@),
{
    alternation_depth(pattern) <= MAX_NESTING_DEPTH
}

/// A list of one pattern is small enough for a set of it to be built
/// exactly when the pattern and the one that it counts as are within
/// [`MAX_SET_CHARS`].
pub proof fn lemma_single_pattern_bounds(pattern: Seq<char>)
    ensures
        set_within_bounds(seq![pattern]) <==> pattern.len() + 1 <= MAX_SET_CHARS,
{
    let single = seq![pattern];
    assert(total_chars_upto(single, 0) == 0);
    assert(total_chars_upto(single, 1) == pattern.len());
    assert(single.len() * (total_chars(single) + single.len() + 1) == pattern.len() + 2)
        by (nonlinear_arith)
        requires
            single.len() == 1,
            total_chars(single) == pattern.len(),
    ;
}

/// A compiled list of glob patterns, matched together.
pub struct PatternSet {
    set: globset::GlobSet,
}

impl PatternSet {
    /// The patterns that the set was compiled from, each with `/` as its
    /// only separator.
    pub closed spec fn patterns(&self) -> Seq<Seq<char>> {
        glob_set_patterns(self.set)
    }

    /// Compiles a list of glob patterns into one set. Backslashes in the
    /// patterns count as separators.
    ///
    /// The first pattern that is not accepted is reported. A list without
    /// patterns compiles, into a set that matches nothing.
    pub fn compile(patterns: &Vec<String>) -> (out: Result<PatternSet, CompileError>)
        ensures
            out is Ok <==> patterns_compile(normalized_each(texts(patterns@))),
            patterns.len() == 0 ==> out is Ok,
            match out {
                Ok(set) => set.patterns() == normalized_each(texts(patterns@)),
                Err(error) => is_compile_fault(texts(patterns@), error@),
            },
    {
        let ghost wanted = normalized_each(texts(patterns@));
        let mut builder = new_builder();
        let mut total: usize = 0;
        let mut over = false;
        let mut i: usize = 0;
        while i < patterns.len()
            invariant
                i <= patterns.len(),
                wanted == normalized_each(texts(patterns@)),
                builder_patterns(builder) == wanted.take(i as int),
                forall|j: int| 0 <= j < i ==> pattern_accepted(#[trigger] wanted[j]),
                over <==> total_chars_upto(wanted, i as int) > MAX_SET_CHARS,
                !over ==> total == total_chars_upto(wanted, i as int),
                total <= MAX_SET_CHARS,
            decreases patterns.len() - i,
        {
            proof {
                lemma_normalized_has_no_backslash(patterns@[i as int]@);
            }
            let text = normalize_separators(patterns[i].as_str());
            assert(text@ == wanted[i as int]);
            let length = text.as_str().unicode_len();
            let accepted = is_within_bounds(text.as_str()) && add_pattern(
                &mut builder,
                text.as_str(),
            ).is_ok();
            if !accepted {
                let pattern = patterns[i].clone();
                proof {
                    assert(is_first_refused(wanted, i as int));
                    assert(texts(patterns@)[i as int] == pattern@);
                }
                return Err(CompileError::Pattern(pattern));
            }
            assert(wanted.take(i as int).push(wanted[i as int]) == wanted.take(i + 1));
            if !over {
                if length > MAX_SET_CHARS - total {
                    over = true;
                } else {
                    total += length;
                }
            }
            i += 1;
        }
        assert(wanted.take(patterns.len() as int) == wanted);
        let count = patterns.len();
        if over || count > MAX_SET_CHARS || total + count > MAX_SET_CHARS {
            return Err(CompileError::SetTooLarge);
        }
        let number: u64 = count as u64;
        let sum: u64 = (total + count + 1) as u64;
        assert(number * sum <= 0x10_0000 * 0x10_0001 && (number == 0 ==> number * sum == 0))
            by (nonlinear_arith)
            requires
                0 <= number <= 0x10_0000,
                0 <= sum <= 0x10_0001,
        ;
        if number * sum > MAX_SET_WEIGHT {
            return Err(CompileError::SetTooLarge);
        }
        match build_set(&builder) {
            Ok(set) => Ok(PatternSet { set }),
            Err(_) => Err(CompileError::SetTooLarge),
        }
    }

    /// Whether one of the patterns matches the path. Backslashes in the path
    /// count as separators.
    pub fn is_match(&self, path: &str) -> (out: bool)
        ensures
            out == some_pattern_matches(self.patterns(), normalized(path@)),
    {
        proof {
            lemma_normalized_has_no_backslash(path@);
        }
        let text = normalize_separators(path);
        set_is_match(&self.set, text.as_str())
    }
}

/// A compiled glob pattern, to be matched against any number of paths.
pub struct Matcher {
    set: globset::GlobSet,
}

impl Matcher {
    #[verifier::type_invariant]
    spec fn holds_one_pattern(self) -> bool {
        glob_set_patterns(self.set).len() == 1
    }

    /// The pattern that this matcher was compiled from, with `/` as its only
    /// separator.
    pub closed spec fn pattern(&self) -> Seq<char> {
        glob_set_patterns(self.set)[0]
    }

    /// Whether the path, relative to the folder that is being probed,
    /// matches the pattern. Backslashes in the path count as separators.
    pub fn matches(&self, relative_path: &str) -> (out: bool)
        ensures
            out == glob_matches(self.pattern(), normalized(relative_path@)),
    {
        proof {
            use_type_invariant(self);
            lemma_normalized_has_no_backslash(relative_path@);
        }
        let path = normalize_separators(relative_path);
        let out = set_is_match(&self.set, path.as_str());
        proof {
            let patterns = glob_set_patterns(self.set);
            if out {
                let i = choose|i: int|
                    0 <= i < patterns.len() && glob_matches(#[trigger] patterns[i], path@);
                assert(i == 0);
            }
        }
        out
    }
}

/// Compiles a glob pattern into a matcher.
///
/// Backslashes in the pattern count as separators. A pattern that is not
/// accepted comes back as an error, which a caller reads as "matches
/// nothing".
pub fn compile(pattern: &str) -> (out: Result<Matcher, CompileError>)
    ensures
        out is Ok <==> pattern_compiles(normalized(pattern@)),
        match out {
            Ok(matcher) => matcher.pattern() == normalized(pattern@),
            Err(CompileError::Pattern(refused)) => refused@ == pattern@ && !pattern_accepted(
                normalized(pattern@),
            ),
            Err(CompileError::SetTooLarge) => pattern_accepted(normalized(pattern@)),
        },
{
    proof {
        lemma_normalized_has_no_backslash(pattern@);
    }
    let text = normalize_separators(pattern);
    if !is_within_bounds(text.as_str()) {
        return Err(CompileError::Pattern(pattern.to_owned()));
    }
    let mut builder = new_builder();
    match add_pattern(&mut builder, text.as_str()) {
        Err(_) => Err(CompileError::Pattern(pattern.to_owned())),
        Ok(()) => {
            proof {
                let single = seq![normalized(pattern@)];
                assert(builder_patterns(builder) == single);
                assert(single[0] == normalized(pattern@));
                lemma_single_pattern_bounds(normalized(pattern@));
            }
            if text.as_str().unicode_len() >= MAX_SET_CHARS {
                return Err(CompileError::SetTooLarge);
            }
            match build_set(&builder) {
                Ok(set) => Ok(Matcher { set }),
                Err(_) => Err(CompileError::SetTooLarge),
            }
        },
    }
}

} // verus!
