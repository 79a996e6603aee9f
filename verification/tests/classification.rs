use folder_classifier::config::{DetectRule, FolderTypeConfig};
use folder_classifier::folder_type::{detect_folder_type, rule_matches, FolderType};
use folder_classifier::probe::{probe_all, probe_any, probe_glob, probe_literal, probe_spec, FolderSnapshot};

fn strings(items: &[&str]) -> Vec<String> {
    items.iter().map(|s| s.to_string()).collect()
}

fn snapshot(present: &[&str], entries: &[&str]) -> FolderSnapshot {
    FolderSnapshot { present: strings(present), entries: strings(entries) }
}

fn definition(id: &str, any: Option<&[&str]>, all: Option<&[&str]>) -> FolderTypeConfig {
    FolderTypeConfig {
        id: id.to_string(),
        label: id.to_uppercase(),
        icon: format!("{id}.svg"),
        detect: Some(DetectRule { any: any.map(strings), all: all.map(strings) }),
    }
}

fn fallback(id: &str) -> FolderTypeConfig {
    FolderTypeConfig {
        id: id.to_string(),
        label: id.to_uppercase(),
        icon: format!("{id}.svg"),
        detect: None,
    }
}

#[test]
fn literal_spec_is_satisfied_when_the_path_exists() {
    let rule = DetectRule { any: Some(strings(&["package.json"])), all: None };
    assert!(rule_matches(&snapshot(&["package.json"], &[]), &rule));
    assert!(!rule_matches(&snapshot(&[], &[]), &rule));
    assert!(!rule_matches(&snapshot(&["package.json5"], &["package.json"]), &rule));
}

#[test]
fn glob_spec_is_satisfied_by_a_deeply_nested_entry() {
    let rule = DetectRule { any: Some(strings(&["**/background.*"])), all: None };
    let nested = snapshot(
        &[],
        &[
            "vendor",
            "vendor/tools",
            "vendor/tools/extension",
            "vendor/tools/extension/src",
            "vendor/tools/extension/src/background.js",
        ],
    );
    assert!(rule_matches(&nested, &rule));
    assert!(!rule_matches(&snapshot(&[], &[]), &rule));
    assert!(!rule_matches(&snapshot(&["**/background.*"], &[]), &rule));
}

#[test]
fn next_project_is_told_from_unknown() {
    let definitions =
        vec![definition("next", Some(&[".next", "next.config.js"]), None), fallback("unknown")];
    assert_eq!(detect_folder_type(&snapshot(&[], &[]), &definitions), "unknown");
    assert_eq!(detect_folder_type(&snapshot(&["next.config.js"], &[]), &definitions), "next");
    assert_eq!(detect_folder_type(&snapshot(&[".next"], &[]), &definitions), "next");
}

#[test]
fn first_matching_definition_wins() {
    let cheap = definition("typescript", Some(&["package.json"]), None);
    let costly = definition("chrome", Some(&["**/extension.json"]), None);
    let folder = snapshot(&["package.json"], &["public/extension.json"]);
    assert_eq!(detect_folder_type(&folder, &vec![cheap.clone(), costly.clone()]), "typescript");
    assert_eq!(detect_folder_type(&folder, &vec![costly, cheap]), "chrome");
}

#[test]
fn a_later_match_does_not_displace_an_earlier_one() {
    let definitions = vec![
        definition("flutter", Some(&["pubspec.yaml"]), Some(&["lib"])),
        definition("kotlin", Some(&["build.gradle"]), None),
        definition("anything", None, None),
        fallback("unknown"),
    ];
    let folder = snapshot(&["build.gradle", "lib"], &[]);
    assert_eq!(detect_folder_type(&folder, &definitions), "kotlin");
}

#[test]
fn absent_clauses_are_satisfied_by_every_folder() {
    let open_rule = DetectRule { any: None, all: None };
    assert!(rule_matches(&snapshot(&[], &[]), &open_rule));
    assert!(rule_matches(&snapshot(&["a"], &["b", "c/d"]), &open_rule));
    let definitions = vec![definition("anything", None, None), fallback("unknown")];
    assert_eq!(detect_folder_type(&snapshot(&[], &[]), &definitions), "anything");
}

#[test]
fn empty_clauses_are_satisfied_like_absent_ones() {
    let folder = snapshot(&[], &[]);
    assert!(probe_any(&folder, &vec![]));
    assert!(probe_all(&folder, &vec![]));
    let rule = DetectRule { any: Some(vec![]), all: Some(vec![]) };
    assert!(rule_matches(&folder, &rule));
}

#[test]
fn any_needs_one_spec_and_all_needs_each() {
    let folder = snapshot(&["app.json", "lib"], &[]);
    assert!(probe_any(&folder, &strings(&["missing", "lib"])));
    assert!(!probe_any(&folder, &strings(&["missing", "absent"])));
    assert!(probe_all(&folder, &strings(&["app.json", "lib"])));
    assert!(!probe_all(&folder, &strings(&["app.json", "missing", "lib"])));
}

#[test]
fn both_clauses_must_hold() {
    let rule = DetectRule {
        any: Some(strings(&["pubspec.yaml", "pubspec.lock"])),
        all: Some(strings(&["lib"])),
    };
    assert!(rule_matches(&snapshot(&["pubspec.lock", "lib"], &[]), &rule));
    assert!(!rule_matches(&snapshot(&["pubspec.lock"], &[]), &rule));
    assert!(!rule_matches(&snapshot(&["lib"], &[]), &rule));
}

#[test]
fn definitions_without_a_rule_are_passed_over() {
    let definitions = vec![fallback("manual"), definition("cpp", Some(&["Makefile"]), None)];
    assert_eq!(detect_folder_type(&snapshot(&["Makefile"], &[]), &definitions), "cpp");
    assert_eq!(detect_folder_type(&snapshot(&[], &[]), &definitions), "unknown");
}

#[test]
fn no_definitions_classify_as_unknown() {
    assert_eq!(detect_folder_type(&snapshot(&["package.json"], &["src"]), &vec![]), "unknown");
}

#[test]
fn classification_stays_within_the_defined_ids() {
    let definitions = vec![
        definition("next", Some(&[".next"]), None),
        definition("python", None, Some(&["requirements.txt"])),
        definition("docs", Some(&["**/*.md"]), None),
        fallback("unknown"),
    ];
    let ids: Vec<String> = definitions.iter().map(|d| d.id.clone()).collect();
    let folders = [
        snapshot(&[], &[]),
        snapshot(&[".next"], &[]),
        snapshot(&["requirements.txt"], &["README.md"]),
        snapshot(&[], &["docs/guide/intro.md"]),
        snapshot(&["unrelated"], &["a/b/c"]),
    ];
    let expected = ["unknown", "next", "python", "docs", "unknown"];
    for (folder, want) in folders.iter().zip(expected) {
        let got = detect_folder_type(folder, &definitions);
        assert!(ids.contains(&got));
        assert_eq!(got, want);
    }
}

#[test]
fn classification_is_repeatable() {
    let definitions = vec![definition("docs", Some(&["**/*.md"]), None), fallback("unknown")];
    let folder = snapshot(&[], &["docs/intro.md"]);
    let first = detect_folder_type(&folder, &definitions);
    let second = detect_folder_type(&folder, &definitions);
    assert_eq!(first, "docs");
    assert_eq!(first, second);
}

#[test]
fn a_glob_that_does_not_compile_matches_nothing_and_spares_its_siblings() {
    let folder = snapshot(&["src/[abc"], &["src/a", "src/[abc", "notes.txt"]);
    assert!(!probe_glob(&folder, &"src/[abc".to_string()));
    assert!(!probe_spec(&folder, &"src/[abc".to_string()));
    assert!(probe_any(&folder, &strings(&["src/[abc", "*.txt"])));
    assert!(!probe_all(&folder, &strings(&["*.txt", "src/[abc"])));
}

#[test]
fn the_kind_of_a_spec_decides_where_it_is_looked_up() {
    let folder = snapshot(&["README.md"], &["docs/README.md"]);
    assert!(probe_literal(&folder, &"README.md".to_string()));
    assert!(!probe_literal(&folder, &"docs/README.md".to_string()));
    assert!(probe_spec(&folder, &"README.md".to_string()));
    assert!(!probe_spec(&folder, &"docs/README.md".to_string()));
    assert!(probe_spec(&folder, &"docs/*.md".to_string()));
    assert!(!probe_spec(&folder, &"src/*.md".to_string()));
}

#[test]
fn entries_with_backslashes_match_slash_patterns() {
    let folder = snapshot(&[], &["src\\background.ts"]);
    assert!(probe_glob(&folder, &"src/background.*".to_string()));
    assert!(probe_glob(&folder, &"src\\background.*".to_string()));
}

#[test]
fn literal_lookup_is_exact() {
    let folder = snapshot(&["Makefile"], &[]);
    assert!(!probe_literal(&folder, &"makefile".to_string()));
    assert!(!probe_literal(&folder, &"Makefile ".to_string()));
    assert!(!probe_literal(&folder, &"".to_string()));
}

#[test]
fn named_types_have_their_stored_ids() {
    let all = [
        (FolderType::NextJS, "next"),
        (FolderType::ReactNative, "react-native"),
        (FolderType::Kotlin, "kotlin"),
        (FolderType::Flutter, "flutter"),
        (FolderType::MinecraftMod, "minecraft"),
        (FolderType::Python, "python"),
        (FolderType::ChromeExtension, "chrome"),
        (FolderType::CPP, "cpp"),
        (FolderType::Typescript, "typescript"),
        (FolderType::Unknown, "unknown"),
    ];
    for (folder_type, id) in all {
        assert_eq!(folder_type.as_str(), id);
    }
}
