use folder_classifier::config::{DetectRule, FolderTypeConfig};
use folder_classifier::folder_type::detect_folder_type;
use folder_classifier::plan::plan_probes;
use folder_classifier::probe::FolderSnapshot;

fn list(items: &[&str]) -> Vec<String> {
    items.iter().map(|s| s.to_string()).collect()
}

fn entry(id: &str, any: Option<&[&str]>, all: Option<&[&str]>) -> FolderTypeConfig {
    FolderTypeConfig {
        id: id.to_string(),
        label: String::new(),
        icon: String::new(),
        detect: Some(DetectRule { any: any.map(list), all: all.map(list) }),
    }
}

fn bare(id: &str) -> FolderTypeConfig {
    FolderTypeConfig { id: id.to_string(), label: String::new(), icon: String::new(), detect: None }
}

#[test]
fn the_plan_lists_the_literals_in_rule_order() {
    let definitions = vec![
        entry("chrome", Some(&["src/background.ts", "**/background.*"]), Some(&["public/extension.json"])),
        bare("manual"),
        entry("cpp", Some(&["CMakeLists.txt", "Makefile"]), None),
        entry("docs", None, Some(&["*.md", "docs"])),
        bare("unknown"),
    ];
    let plan = plan_probes(&definitions);
    assert_eq!(
        plan.literals,
        list(&["src/background.ts", "public/extension.json", "CMakeLists.txt", "Makefile", "docs"])
    );
    assert!(plan.walk);
}

#[test]
fn literal_rules_need_no_walk() {
    let definitions = vec![entry("next", Some(&[".next", "next.config.js"]), None), bare("unknown")];
    let plan = plan_probes(&definitions);
    assert_eq!(plan.literals, list(&[".next", "next.config.js"]));
    assert!(!plan.walk);
}

#[test]
fn no_rules_need_nothing() {
    let plan = plan_probes(&vec![bare("unknown"), entry("open", None, None)]);
    assert!(plan.literals.is_empty());
    assert!(!plan.walk);
    let plan = plan_probes(&vec![]);
    assert!(plan.literals.is_empty());
    assert!(!plan.walk);
}

#[test]
fn what_the_plan_leaves_out_does_not_change_the_result() {
    let definitions = vec![
        entry("next", Some(&[".next"]), None),
        entry("python", None, Some(&["requirements.txt"])),
        bare("unknown"),
    ];
    let plan = plan_probes(&definitions);
    assert!(!plan.walk);
    let lean = FolderSnapshot { present: list(&["requirements.txt"]), entries: vec![] };
    let rich = FolderSnapshot {
        present: list(&["requirements.txt", "setup.py", "venv"]),
        entries: list(&["setup.py", "venv", "venv/bin"]),
    };
    assert_eq!(detect_folder_type(&lean, &definitions), "python");
    assert_eq!(detect_folder_type(&rich, &definitions), "python");
}
