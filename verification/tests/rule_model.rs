use folder_classifier::config::{AppConfig, DetectRule, FolderTypeConfig};

#[test]
fn a_folder_type_is_published_without_its_rule() {
    let config = FolderTypeConfig {
        id: "next".to_string(),
        label: "Next.js".to_string(),
        icon: "next.svg".to_string(),
        detect: Some(DetectRule { any: Some(vec![".next".to_string()]), all: None }),
    };
    let public = config.to_public();
    assert_eq!(public.id, "next");
    assert_eq!(public.label, "Next.js");
    assert_eq!(public.icon, "next.svg");
}

#[test]
fn an_app_is_published_without_its_command() {
    let config = AppConfig {
        id: "code".to_string(),
        name: "VS Code".to_string(),
        icon: "code.svg".to_string(),
        command: "code {path}".to_string(),
        default: true,
    };
    let public = config.to_public();
    assert_eq!(public.id, "code");
    assert_eq!(public.name, "VS Code");
    assert_eq!(public.icon, "code.svg");
    assert!(public.default);
    let other = AppConfig { default: false, ..config };
    assert!(!other.to_public().default);
}
