use folder_classifier::actions::{
    action_with_id, execute_action, find_app, run_action, run_app_command, Action, ActionError,
    ActionTarget, Launch, TargetKind,
};
use folder_classifier::config::AppConfig;

fn app(id: &str, command: &str) -> AppConfig {
    AppConfig {
        id: id.to_string(),
        name: id.to_uppercase(),
        icon: String::new(),
        command: command.to_string(),
        default: false,
    }
}

#[test]
fn the_editor_opens_folders_only() {
    let folder = ActionTarget::Folder("C:/work/site".to_string());
    assert!(matches!(execute_action("open_vscode", folder), Ok(Launch::Editor(p)) if p == "C:/work/site"));
    let file = ActionTarget::File("C:/work/site/a.txt".to_string());
    assert!(matches!(execute_action("open_vscode", file), Err(ActionError::Incompatible)));
}

#[test]
fn the_explorer_shows_folders_and_files() {
    let folder = ActionTarget::Folder("C:/work".to_string());
    assert!(matches!(execute_action("open_in_explorer", folder), Ok(Launch::Explorer(p)) if p == "C:/work"));
    let file = ActionTarget::File("C:/work/a.txt".to_string());
    assert!(matches!(execute_action("open_in_explorer", file), Ok(Launch::Explorer(p)) if p == "C:/work/a.txt"));
}

#[test]
fn the_system_default_opens_files_only() {
    let file = ActionTarget::File("notes.md".to_string());
    assert!(matches!(execute_action("open_default", file), Ok(Launch::SystemDefault(p)) if p == "notes.md"));
    let folder = ActionTarget::Folder("notes".to_string());
    assert!(matches!(execute_action("open_default", folder), Err(ActionError::Incompatible)));
}

#[test]
fn an_unknown_action_launches_nothing() {
    for id in ["", "open", "OPEN_VSCODE", "open_vscode ", "open_defaults"] {
        let folder = ActionTarget::Folder("x".to_string());
        assert!(matches!(execute_action(id, folder), Err(ActionError::Incompatible)), "{id}");
        let file = ActionTarget::File("x".to_string());
        assert!(matches!(execute_action(id, file), Err(ActionError::Incompatible)), "{id}");
    }
}

#[test]
fn a_placeholder_is_replaced_by_the_path() {
    assert_eq!(run_app_command("code {path}", "C:\\work\\site"), "code C:\\work\\site");
    assert_eq!(run_app_command("{path}", "p"), "p");
    assert_eq!(run_app_command("a {path} b {path}", "X"), "a X b X");
    assert_eq!(run_app_command("{path}{path}", "ab"), "abab");
    assert_eq!(run_app_command("wt -d \"{path}\"", "D:\\my dir"), "wt -d \"D:\\my dir\"");
}

#[test]
fn a_command_without_placeholder_gets_the_quoted_path() {
    assert_eq!(run_app_command("code", "C:\\work\\site"), "code \"C:\\work\\site\"");
    assert_eq!(run_app_command("", "p"), " \"p\"");
    assert_eq!(run_app_command("a {path", "p"), "a {path \"p\"");
    assert_eq!(run_app_command("a {PATH}", "p"), "a {PATH} \"p\"");
}

#[test]
fn replacement_agrees_with_the_standard_library() {
    let commands = ["{path}", "x{path}y", "{{path}}", "{path{path}", "{pat{path}h}", "päth {path} ü", "none"];
    let paths = ["", "p", "{path}", "a b", "ü/ß"];
    for command in commands {
        for path in paths {
            let expected = if command.contains("{path}") {
                command.replace("{path}", path)
            } else {
                format!("{} \"{}\"", command, path)
            };
            assert_eq!(run_app_command(command, path), expected, "{command} with {path}");
        }
    }
}

#[test]
fn the_first_app_with_the_id_is_found() {
    let apps = vec![app("code", "code {path}"), app("term", "wt"), app("code", "other")];
    assert_eq!(find_app(&apps, "code").map(|a| a.command.as_str()), Some("code {path}"));
    assert_eq!(find_app(&apps, "term").map(|a| a.command.as_str()), Some("wt"));
    assert!(find_app(&apps, "Code").is_none());
    assert!(find_app(&vec![], "code").is_none());
}

#[test]
fn running_an_app_gives_its_command_line() {
    let apps = vec![app("code", "code {path}"), app("term", "wt")];
    assert_eq!(run_action(&apps, "code", "D:\\src").ok(), Some("code D:\\src".to_string()));
    assert_eq!(run_action(&apps, "term", "D:\\src").ok(), Some("wt \"D:\\src\"".to_string()));
}

#[test]
fn running_an_unknown_app_names_the_id() {
    let apps = vec![app("code", "code {path}")];
    match run_action(&apps, "vim", "D:\\src") {
        Err(error) => {
            assert!(matches!(&error, ActionError::UnknownApp(id) if id == "vim"));
            assert_eq!(error.message(), "Unknown app id: vim");
        },
        Ok(line) => panic!("nothing should be launched, got {line}"),
    }
}

#[test]
fn errors_have_their_messages() {
    assert_eq!(ActionError::Incompatible.message(), "Unknown action or incompatible target");
    assert_eq!(ActionError::UnknownApp(String::new()).message(), "Unknown app id: ");
}

#[test]
fn the_tables_of_actions_are_closed() {
    assert_eq!(action_with_id("open_vscode"), Some(Action::OpenVscode));
    assert_eq!(action_with_id("open_in_explorer"), Some(Action::OpenInExplorer));
    assert_eq!(action_with_id("open_default"), Some(Action::OpenDefault));
    assert_eq!(action_with_id("open_everything"), None);
    assert_eq!(action_with_id(""), None);
    let takes = |action: Action| (action.accepts(TargetKind::Folder), action.accepts(TargetKind::File));
    assert_eq!(takes(Action::OpenVscode), (true, false));
    assert_eq!(takes(Action::OpenInExplorer), (true, true));
    assert_eq!(takes(Action::OpenDefault), (false, true));
}
