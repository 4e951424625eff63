use ai_vid_editor::folders::{toggle_message, FolderList, WatchedFolder};

fn folder(input: &str, enabled: bool) -> WatchedFolder<u32> {
    WatchedFolder {
        input: input.to_string(),
        output: format!("{}/output", input),
        preset: "youtube".to_string(),
        enabled,
        settings: 7,
    }
}

#[test]
fn add_update_and_toggle() {
    let mut list = FolderList::new(vec![folder("videos", true)]);
    list.add(folder("clips", false));
    assert_eq!(list.len(), 2);
    assert_eq!(list.selected(), 0);
    assert!(list.update(1, "c2".into(), "o2".into(), "shorts".into(), true));
    assert!(!list.update(5, "x".into(), "y".into(), "z".into(), true));
    assert_eq!(list.toggle(1), Some(false));
    assert_eq!(list.toggle(0), Some(false));
    assert_eq!(list.toggle(9), None);
}

#[test]
fn duplicate_selects_the_copy() {
    let mut list = FolderList::new(vec![folder("a", true), folder("b", true)]);
    assert!(list.duplicate(0));
    assert_eq!(list.len(), 3);
    assert_eq!(list.selected(), 2);
    assert!(!list.duplicate(7));
    assert_eq!(list.selected(), 2);
}

#[test]
fn removing_keeps_the_selection_in_the_list() {
    let mut list = FolderList::new(vec![folder("a", true), folder("b", true), folder("c", true)]);
    assert!(list.duplicate(2));
    assert_eq!(list.selected(), 3);
    list.remove(3);
    assert_eq!(list.selected(), 2);
    list.remove(0);
    assert_eq!(list.selected(), 1);
    list.remove(1);
    list.remove(0);
    assert_eq!(list.len(), 0);
    assert_eq!(list.selected(), 0);
}

#[test]
fn toggle_messages() {
    assert_eq!(toggle_message(true, "videos"), "Folder enabled (videos)");
    assert_eq!(toggle_message(false, "/x"), "Folder disabled (/x)");
}

#[test]
fn settings_are_kept_and_copied() {
    let mut list = FolderList::new(vec![folder("a", true)]);
    list.add(WatchedFolder { settings: 9, ..folder("b", false) });
    assert!(list.update(0, "x".into(), "y".into(), "podcast".into(), false));
    assert_eq!(list.get(0).unwrap().settings, 7);
    assert_eq!(list.get(0).unwrap().input, "x");
    assert_eq!(list.toggle(1), Some(true));
    assert_eq!(list.get(1).unwrap().settings, 9);
    assert!(list.duplicate(1));
    let copy = list.get(2).unwrap();
    assert_eq!(copy.settings, 9);
    assert_eq!(copy.input, "b_copy");
    assert_eq!(copy.output, "b/output_copy");
    assert!(list.get(3).is_none());
    list.remove(0);
    assert_eq!(list.get(0).unwrap().settings, 9);
}

#[test]
fn queue_target_follows_selected_folder() {
    let empty: FolderList<u32> = FolderList::new(Vec::new());
    assert_eq!(empty.queue_target(), ("output".to_string(), "youtube".to_string()));
    let list = FolderList::new(vec![WatchedFolder { preset: "podcast".to_string(), ..folder("a", true) }]);
    assert_eq!(list.queue_target(), ("a/output".to_string(), "podcast".to_string()));
}
