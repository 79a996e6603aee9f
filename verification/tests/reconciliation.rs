use folder_classifier::config::{DetectRule, FolderTypeConfig};
use folder_classifier::probe::FolderSnapshot;
use folder_classifier::reconcile::{
    first_failed_write, next_write, redetect_folder_type, redetect_folder_types, FolderRow,
    FolderTypeUpdate, ObservedFolder,
};

fn texts(items: &[&str]) -> Vec<String> {
    items.iter().map(|s| s.to_string()).collect()
}

fn rules() -> Vec<FolderTypeConfig> {
    let rule = |id: &str, any: &[&str]| FolderTypeConfig {
        id: id.to_string(),
        label: id.to_string(),
        icon: String::new(),
        detect: Some(DetectRule { any: Some(texts(any)), all: None }),
    };
    vec![
        rule("next", &[".next", "next.config.js"]),
        rule("python", &["requirements.txt"]),
        FolderTypeConfig {
            id: "unknown".to_string(),
            label: "Unknown".to_string(),
            icon: String::new(),
            detect: None,
        },
    ]
}

fn folder(id: i64, stored: &str, locked: bool, present: Option<&[&str]>) -> ObservedFolder {
    ObservedFolder {
        row: FolderRow {
            id,
            name: format!("folder-{id}"),
            folder_type: stored.to_string(),
            path: format!("/projects/folder-{id}"),
            folder_type_locked: locked,
        },
        snapshot: present.map(|p| FolderSnapshot { present: texts(p), entries: vec![] }),
    }
}

fn pairs(updates: &[FolderTypeUpdate]) -> Vec<(i64, String)> {
    updates.iter().map(|u| (u.id, u.folder_type.clone())).collect()
}

fn write_back(folders: &mut [ObservedFolder], updates: &[FolderTypeUpdate]) {
    for update in updates {
        for folder in folders.iter_mut() {
            if folder.row.id == update.id {
                folder.row.folder_type = update.folder_type.clone();
            }
        }
    }
}

fn sample() -> Vec<ObservedFolder> {
    vec![
        folder(5, "unknown", false, Some(&["next.config.js"])),
        folder(4, "python", true, Some(&[".next"])),
        folder(3, "python", false, None),
        folder(2, "python", false, Some(&["requirements.txt"])),
        folder(1, "next", false, Some(&[])),
    ]
}

#[test]
fn a_pass_updates_what_differs_in_folder_order() {
    let updates = redetect_folder_types(&sample(), &rules());
    assert_eq!(pairs(&updates), vec![(5, "next".to_string()), (1, "unknown".to_string())]);
}

#[test]
fn a_second_pass_issues_nothing() {
    let mut folders = sample();
    let first = redetect_folder_types(&folders, &rules());
    assert_eq!(first.len(), 2);
    write_back(&mut folders, &first);
    let second = redetect_folder_types(&folders, &rules());
    assert!(second.is_empty());
}

#[test]
fn a_locked_folder_is_never_altered() {
    let locked = folder(4, "python", true, Some(&[".next"]));
    assert_eq!(redetect_folder_type(&locked, &rules()), None);
    let unlocked = folder(4, "python", false, Some(&[".next"]));
    assert_eq!(redetect_folder_type(&unlocked, &rules()), Some("next".to_string()));

    let mut folders = sample();
    let updates = redetect_folder_types(&folders, &rules());
    assert!(updates.iter().all(|u| u.id != 4));
    write_back(&mut folders, &updates);
    assert_eq!(folders[1].row.folder_type, "python");
    assert!(folders[1].row.folder_type_locked);
}

#[test]
fn a_missing_folder_keeps_its_stored_type() {
    let missing = folder(3, "python", false, None);
    assert_eq!(redetect_folder_type(&missing, &rules()), None);

    let mut folders = sample();
    let updates = redetect_folder_types(&folders, &rules());
    assert!(updates.iter().all(|u| u.id != 3));
    write_back(&mut folders, &updates);
    assert_eq!(folders[2].row.folder_type, "python");
}

#[test]
fn a_folder_that_is_stored_right_gets_no_update() {
    let settled = folder(2, "python", false, Some(&["requirements.txt"]));
    assert_eq!(redetect_folder_type(&settled, &rules()), None);
}

#[test]
fn a_folder_that_lost_its_markers_falls_back_to_unknown() {
    let emptied = folder(1, "next", false, Some(&[]));
    assert_eq!(redetect_folder_type(&emptied, &rules()), Some("unknown".to_string()));
}

#[test]
fn a_pass_does_not_touch_the_lock() {
    let mut folders = sample();
    let locks: Vec<bool> = folders.iter().map(|f| f.row.folder_type_locked).collect();
    let updates = redetect_folder_types(&folders, &rules());
    write_back(&mut folders, &updates);
    let after: Vec<bool> = folders.iter().map(|f| f.row.folder_type_locked).collect();
    assert_eq!(locks, after);
}

#[test]
fn a_pass_over_no_folders_issues_nothing() {
    assert!(redetect_folder_types(&vec![], &rules()).is_empty());
}

#[test]
fn folders_are_decided_independently() {
    let folders = sample();
    let together = pairs(&redetect_folder_types(&folders, &rules()));
    let mut one_by_one = Vec::new();
    for folder in &folders {
        if let Some(folder_type) = redetect_folder_type(folder, &rules()) {
            one_by_one.push((folder.row.id, folder_type));
        }
    }
    assert_eq!(together, one_by_one);
}

#[test]
fn every_update_is_tried_whatever_failed_before() {
    assert_eq!(next_write(3, &vec![]), Some(0));
    assert_eq!(next_write(3, &vec![true]), Some(1));
    assert_eq!(next_write(3, &vec![false]), Some(1));
    assert_eq!(next_write(3, &vec![false, false]), Some(2));
    assert_eq!(next_write(3, &vec![false, true, false]), None);
    assert_eq!(next_write(0, &vec![]), None);

    let outcomes = [true, false, true, false];
    let mut tried = Vec::new();
    let mut order = Vec::new();
    while let Some(next) = next_write(outcomes.len(), &tried) {
        order.push(next);
        tried.push(outcomes[next]);
    }
    assert_eq!(order, vec![0, 1, 2, 3]);
    assert_eq!(first_failed_write(&tried), Some(1));
}

#[test]
fn a_pass_fails_with_its_first_failed_write() {
    assert_eq!(first_failed_write(&vec![]), None);
    assert_eq!(first_failed_write(&vec![true, true, true]), None);
    assert_eq!(first_failed_write(&vec![false]), Some(0));
    assert_eq!(first_failed_write(&vec![true, true, false, true, false]), Some(2));
}
