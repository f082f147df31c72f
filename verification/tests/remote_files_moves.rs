use vault_core::keymap::KeyMap;
use vault_core::remote::FilesFile;
use vault_core::remote_files::mutations::{add_child, file_children_change_parent_path, file_moved};
use vault_core::remote_files::state::{RemoteFile, RemoteFileType};
use vault_core::store::State;

fn record(path: &str, name: &str, typ: RemoteFileType) -> RemoteFile {
    RemoteFile {
        id: format!("m1:{}", path),
        mount_id: "m1".into(),
        path: path.into(),
        name: name.into(),
        name_lower: name.to_lowercase(),
        typ,
        size: Some(7),
        modified: Some(3),
        hash: None,
        tags: KeyMap::new(),
    }
}

fn example_state() -> State {
    let mut state = State::new();
    for (path, name, typ) in [
        ("/", "", RemoteFileType::Dir),
        ("/a", "a", RemoteFileType::Dir),
        ("/a/x", "x", RemoteFileType::Dir),
        ("/a/x/y", "y", RemoteFileType::File),
        ("/c", "c", RemoteFileType::File),
    ] {
        state.remote_files.files.insert(format!("m1:{}", path), record(path, name, typ));
    }
    state.remote_files.children.insert("m1:/".into(), vec!["m1:/a".into(), "m1:/c".into()]);
    state.remote_files.children.insert("m1:/a".into(), vec!["m1:/a/x".into()]);
    state.remote_files.children.insert("m1:/a/x".into(), vec!["m1:/a/x/y".into()]);
    state
}

#[test]
fn file_children_change_parent_path_moves_the_whole_subtree() {
    let mut state = example_state();

    file_children_change_parent_path(&mut state, &"m1:/a".to_string(), &"/b".to_string());

    let files = &state.remote_files.files;
    assert!(!files.contains_key(&"m1:/a/x".to_string()));
    assert!(!files.contains_key(&"m1:/a/x/y".to_string()));
    let x = files.get(&"m1:/b/x".to_string()).unwrap();
    assert_eq!(x.id, "m1:/b/x");
    assert_eq!(x.path, "/b/x");
    assert_eq!(x.name, "x");
    assert_eq!(x.size, Some(7));
    let y = files.get(&"m1:/b/x/y".to_string()).unwrap();
    assert_eq!(y.id, "m1:/b/x/y");
    assert_eq!(y.path, "/b/x/y");
    assert_eq!(y.typ, RemoteFileType::File);
    // The folder itself and the files outside it stay.
    assert!(files.contains_key(&"m1:/a".to_string()));
    assert!(files.contains_key(&"m1:/c".to_string()));
    let children = &state.remote_files.children;
    assert_eq!(children.get(&"m1:/a".to_string()), Some(&vec![]));
    assert_eq!(children.get(&"m1:/a/x".to_string()), Some(&vec![]));
}

#[test]
fn file_children_change_parent_path_without_children_list_changes_nothing() {
    let mut state = example_state();

    file_children_change_parent_path(&mut state, &"m1:/c".to_string(), &"/d".to_string());

    assert_eq!(state.remote_files.files.len(), 5);
    assert!(state.remote_files.files.contains_key(&"m1:/c".to_string()));
    assert!(!state.remote_files.children.contains_key(&"m1:/c".to_string()));
}

#[test]
fn file_moved_moves_the_record_its_subtree_and_its_place_among_children() {
    let mut state = example_state();
    let new_file = FilesFile {
        name: "b".into(),
        typ: "dir".into(),
        size: 0,
        modified: 5,
        hash: None,
        tags: KeyMap::new(),
    };

    file_moved(&mut state, &"m1".to_string(), &"/a".to_string(), &"/b".to_string(), new_file);

    let files = &state.remote_files.files;
    assert!(!files.contains_key(&"m1:/a".to_string()));
    assert!(!files.contains_key(&"m1:/a/x".to_string()));
    let b = files.get(&"m1:/b".to_string()).unwrap();
    assert_eq!(b.path, "/b");
    assert_eq!(b.name, "b");
    assert_eq!(b.typ, RemoteFileType::Dir);
    assert_eq!(b.modified, Some(5));
    assert_eq!(files.get(&"m1:/b/x/y".to_string()).unwrap().path, "/b/x/y");
    assert_eq!(
        state.remote_files.children.get(&"m1:/".to_string()),
        Some(&vec!["m1:/b".to_string(), "m1:/c".to_string()])
    );
}

#[test]
fn file_moved_from_the_root_changes_nothing() {
    let mut state = example_state();
    let new_file = FilesFile {
        name: "b".into(),
        typ: "dir".into(),
        size: 0,
        modified: 5,
        hash: None,
        tags: KeyMap::new(),
    };

    file_moved(&mut state, &"m1".to_string(), &"/".to_string(), &"/b".to_string(), new_file);

    assert_eq!(state.remote_files.files.len(), 5);
    assert!(!state.remote_files.files.contains_key(&"m1:/b".to_string()));
}

#[test]
fn get_file_unique_id_writes_negative_numbers_in_decimal() {
    assert_eq!(
        vault_core::remote_files::selectors::get_file_unique_id("m1", "/a", Some(-5), Some(i64::MIN), Some("h")),
        "5d79fefb98b4bfde1f3e2a4171dc910f"
    );
}

#[test]
fn add_child_sorts_and_keeps_the_order_of_ties() {
    let mut state = State::new();
    state.remote_files.files.insert("m1:/B".into(), record("/B", "B", RemoteFileType::File));
    state.remote_files.files.insert("m1:/b".into(), record("/b", "b", RemoteFileType::File));
    state.remote_files.files.insert("m1:/a".into(), record("/a", "a", RemoteFileType::File));
    state.remote_files.files.insert("m1:/z".into(), record("/z", "z", RemoteFileType::Dir));
    state.remote_files.children.insert("m1:/".into(), vec!["m1:/B".into(), "m1:/b".into(), "m1:/z".into()]);

    add_child(&mut state, &"m1:/".to_string(), "m1:/a".to_string());

    assert_eq!(
        state.remote_files.children.get(&"m1:/".to_string()),
        Some(&vec!["m1:/z".to_string(), "m1:/a".to_string(), "m1:/B".to_string(), "m1:/b".to_string()])
    );
}
