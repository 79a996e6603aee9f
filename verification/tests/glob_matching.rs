use folder_classifier::glob::{
    alternation_depth, compile, CompileError, PatternSet, MAX_NESTING_DEPTH, MAX_SET_CHARS,
    MAX_SET_WEIGHT,
};
use folder_classifier::paths::{is_glob, normalize_separators};

#[test]
fn recursive_pattern_matches_a_nested_file() {
    let matcher = compile("**/background.*").expect("the pattern is well formed");
    assert!(matcher.matches("vendor/tools/extension/src/background.js"));
    assert!(matcher.matches("src/background.ts"));
    assert!(!matcher.matches("src/foreground.js"));
    assert!(!matcher.matches("background"));
}

#[test]
fn matching_is_case_sensitive() {
    let matcher = compile("*.JS").expect("the pattern is well formed");
    assert!(matcher.matches("main.JS"));
    assert!(!matcher.matches("main.js"));
}

#[test]
fn unclosed_class_does_not_compile() {
    match compile("src\\[abc") {
        Err(CompileError::Pattern(pattern)) => assert_eq!(pattern, "src\\[abc"),
        _ => panic!("the class is never closed"),
    }
}

#[test]
fn unbalanced_alternates_do_not_compile() {
    assert!(compile("{a,b").is_err());
    assert!(compile("a,b}").is_err());
}

#[test]
fn backslashes_are_separators_in_patterns_and_paths() {
    let matcher = compile("src\\*.rs").expect("the pattern is well formed");
    assert!(matcher.matches("src/main.rs"));
    assert!(matcher.matches("src\\main.rs"));
    let plain = compile("src/main.rs").expect("the pattern is well formed");
    assert!(plain.matches("src\\main.rs"));
    assert!(!plain.matches("src-main.rs"));
}

#[test]
fn a_matcher_is_reusable() {
    let matcher = compile("*.toml").expect("the pattern is well formed");
    let hits: Vec<bool> = ["Cargo.toml", "Cargo.lock", "a/b.toml"]
        .iter()
        .map(|p| matcher.matches(p))
        .collect();
    assert_eq!(hits, vec![true, false, true]);
}

#[test]
fn metacharacters_tell_globs_from_literals() {
    assert!(is_glob("*.rs"));
    assert!(is_glob("src/?.rs"));
    assert!(is_glob("[ab].rs"));
    assert!(!is_glob("package.json"));
    assert!(!is_glob("src/{a,b}.rs"));
    assert!(!is_glob(""));
}

#[test]
fn normalizing_rewrites_every_backslash() {
    assert_eq!(normalize_separators("a\\b\\c/d"), "a/b/c/d");
    assert_eq!(normalize_separators("plain"), "plain");
    assert_eq!(normalize_separators(""), "");
}

fn patterns(items: &[&str]) -> Vec<String> {
    items.iter().map(|s| s.to_string()).collect()
}

#[test]
fn a_set_matches_where_one_of_its_patterns_does() {
    let set = match PatternSet::compile(&patterns(&["*.log", "target/**", "**/node_modules"])) {
        Ok(set) => set,
        Err(_) => panic!("the patterns are well formed"),
    };
    assert!(set.is_match("build.log"));
    assert!(set.is_match("target/debug/app"));
    assert!(set.is_match("web/node_modules"));
    assert!(set.is_match("target\\debug\\app"));
    assert!(!set.is_match("src/main.rs"));
    assert!(!set.is_match("target"));
}

#[test]
fn an_empty_set_compiles_and_matches_nothing() {
    let set = match PatternSet::compile(&vec![]) {
        Ok(set) => set,
        Err(_) => panic!("there is nothing to refuse"),
    };
    assert!(!set.is_match(""));
    assert!(!set.is_match("anything"));
}

#[test]
fn a_set_reports_its_first_malformed_pattern() {
    match PatternSet::compile(&patterns(&["*.rs", "a{b", "[z-a]", "ok"])) {
        Err(CompileError::Pattern(pattern)) => assert_eq!(pattern, "a{b"),
        _ => panic!("two of the patterns are malformed"),
    }
    match PatternSet::compile(&patterns(&["[z-a]"])) {
        Err(CompileError::Pattern(pattern)) => assert_eq!(pattern, "[z-a]"),
        _ => panic!("the range runs backwards"),
    }
}

#[test]
fn a_set_and_a_matcher_agree_on_one_pattern() {
    for pattern in ["*.rs", "src/**/mod.rs", "**/x", "a?c", "[ab]*", "lit"] {
        let matcher = compile(pattern).expect("the pattern is well formed");
        let set = match PatternSet::compile(&patterns(&[pattern])) {
            Ok(set) => set,
            Err(_) => panic!("the pattern is well formed"),
        };
        for path in ["main.rs", "src/a/b/mod.rs", "src/mod.rs", "x", "q/x", "abc", "a/c", "lit", "b"] {
            assert_eq!(matcher.matches(path), set.is_match(path), "{pattern} on {path}");
        }
    }
}

#[test]
fn a_pattern_may_be_as_long_as_a_set_may_be_large() {
    let longest = "é".repeat(MAX_SET_CHARS - 1);
    let matcher = compile(&longest).expect("the pattern is within the bound of a set");
    assert!(matcher.matches(&longest));
    assert!(!matcher.matches("é"));
    let longer = "é".repeat(MAX_SET_CHARS);
    assert!(matches!(compile(&longer), Err(CompileError::SetTooLarge)));
    assert!(matches!(PatternSet::compile(&vec![longer]), Err(CompileError::SetTooLarge)));
}

#[test]
fn nesting_is_counted_as_the_glob_is_read() {
    assert_eq!(alternation_depth(""), 0);
    assert_eq!(alternation_depth("src/*.rs"), 0);
    assert_eq!(alternation_depth("{a,b}"), 1);
    assert_eq!(alternation_depth("{a,b}{c,d}{e,f}"), 1);
    assert_eq!(alternation_depth("{{a,b},{c,{d}}}x{"), 3);
    assert_eq!(alternation_depth("}}}{"), 1);
    // Braces in a class are members of the class.
    assert_eq!(alternation_depth("[{]{[{]}"), 1);
    assert_eq!(alternation_depth("{[}]{[}]{[}]"), 3);
    // A class may begin with a negation, and its first member may be `]`.
    assert_eq!(alternation_depth("[]{]{"), 1);
    assert_eq!(alternation_depth("[!]{]{"), 1);
    assert_eq!(alternation_depth("[^]{]{"), 1);
    assert_eq!(alternation_depth("[!!]{"), 1);
    assert_eq!(alternation_depth("[a]{]{"), 2);
    assert_eq!(alternation_depth("[{{{"), 0);
}

#[test]
fn any_number_of_alternations_side_by_side_compiles() {
    let empty = "{}".repeat(33);
    let matcher = compile(&empty).expect("no alternation is nested in another");
    assert!(matcher.matches(""));
    assert!(!matcher.matches("x"));
    let flat = "{a,b}".repeat(1_000);
    assert_eq!(alternation_depth(&flat), 1);
    let matcher = compile(&flat).expect("no alternation is nested in another");
    assert!(matcher.matches(&"ab".repeat(500)));
    assert!(!matcher.matches(&"ab".repeat(499)));
    let classes = "[{]".repeat(1_000);
    let matcher = compile(&classes).expect("the braces are members of classes");
    assert!(matcher.matches(&"{".repeat(1_000)));
}

#[test]
fn alternations_may_be_nested_as_deep_as_the_limit_and_no_deeper() {
    assert_eq!(MAX_NESTING_DEPTH, 512);
    let nested = |depth: usize, inner: &str| {
        format!("{}{}{}", "{".repeat(depth), inner, "}".repeat(depth))
    };
    let deep = nested(200, "x");
    let matcher = compile(&deep).expect("the nesting is within the limit");
    assert!(matcher.matches("x"));
    assert!(!matcher.matches("y"));
    let deepest = nested(MAX_NESTING_DEPTH, "");
    let matcher = compile(&deepest).expect("the nesting is as deep as the limit");
    assert!(matcher.matches(""));
    let deeper = nested(MAX_NESTING_DEPTH + 1, "");
    match compile(&deeper) {
        Err(CompileError::Pattern(pattern)) => assert_eq!(pattern, deeper),
        _ => panic!("the nesting is a level too deep"),
    }
    match PatternSet::compile(&patterns(&["*.rs", &deeper])) {
        Err(CompileError::Pattern(pattern)) => assert_eq!(pattern, deeper),
        _ => panic!("the nesting of the second pattern is a level too deep"),
    }
}

#[test]
fn nesting_that_the_regular_expression_cannot_hold_does_not_build() {
    let nested = format!("{}x{}", "{".repeat(400), "}".repeat(400));
    assert!(matches!(compile(&nested), Err(CompileError::SetTooLarge)));
}

#[test]
fn deeply_nested_braces_are_refused_before_they_are_parsed() {
    let bomb = format!("{}*{}", "{".repeat(32_767), "}".repeat(32_767));
    assert!(matches!(compile(&bomb), Err(CompileError::Pattern(_))));
    assert!(matches!(PatternSet::compile(&vec![bomb]), Err(CompileError::Pattern(_))));
}

#[test]
fn a_set_may_be_as_large_as_its_bounds_and_no_larger() {
    assert_eq!(MAX_SET_CHARS, 1_048_576);
    assert_eq!(MAX_SET_WEIGHT, 268_435_456);
    let many: Vec<String> = (0..4_096).map(|i| format!("dir{i}/*")).collect();
    let set = match PatternSet::compile(&many) {
        Ok(set) => set,
        Err(_) => panic!("the set is within its bounds"),
    };
    assert!(set.is_match("dir4095/file"));
    assert!(!set.is_match("dir4096/file"));

    // 16 patterns of 65,535 characters: the lengths and the number add up to the bound.
    let long: Vec<String> = (0..16).map(|i| format!("{}{}", "a".repeat(65_534), i % 10)).collect();
    assert_eq!(16 * 65_535 + 16, MAX_SET_CHARS);
    assert!(PatternSet::compile(&long).is_ok());
    // One character more is over the bound on the sum.
    let mut longer = long.clone();
    longer[0].push('b');
    assert!(matches!(PatternSet::compile(&longer), Err(CompileError::SetTooLarge)));

    // 16,384 patterns of one character: 16,384 * (16,384 + 16,384 + 1) is over the weight.
    let crowd: Vec<String> = (0..16_384).map(|_| "a".to_string()).collect();
    assert!(matches!(PatternSet::compile(&crowd), Err(CompileError::SetTooLarge)));
    // 11,584 patterns of one character: 11,584 * 23,169 = 268,389,696 is just within it.
    let fewer: Vec<String> = (0..11_584).map(|_| "a".to_string()).collect();
    assert!(11_584u64 * 23_169 <= MAX_SET_WEIGHT);
    assert!(PatternSet::compile(&fewer).is_ok());
    // 11,585 * 23,171 = 268,436,035 is just over it.
    let more: Vec<String> = (0..11_585).map(|_| "a".to_string()).collect();
    assert!(11_585u64 * 23_171 > MAX_SET_WEIGHT);
    assert!(matches!(PatternSet::compile(&more), Err(CompileError::SetTooLarge)));
}

#[test]
fn a_malformed_pattern_is_reported_before_the_size_of_the_set() {
    let mut crowd: Vec<String> = (0..16_384).map(|_| "a".to_string()).collect();
    crowd.push("[".to_string());
    match PatternSet::compile(&crowd) {
        Err(CompileError::Pattern(pattern)) => assert_eq!(pattern, "["),
        _ => panic!("the last pattern is malformed"),
    }
}

#[test]
fn overlapping_prefixes_within_the_bounds_build() {
    let ladder: Vec<String> = (1..=600).map(|n| format!("{}*", "a".repeat(n))).collect();
    let set = match PatternSet::compile(&ladder) {
        Ok(set) => set,
        Err(_) => panic!("the set is within its bounds"),
    };
    assert!(set.is_match("ab"));
    assert!(!set.is_match("ba"));
    let taller: Vec<String> = (1..=2_048).map(|n| format!("{}*", "a".repeat(n))).collect();
    assert!(matches!(PatternSet::compile(&taller), Err(CompileError::SetTooLarge)));
}
