use vault_core::common::{Notify, SortDirection, Status};
use vault_core::repo_files::state::{
    FileCategory, RepoFile, RepoFileName, RepoFilePath, RepoFileType, RepoFilesSortField,
};
use vault_core::repo_files_browsers::mutations::{
    clear_selection, create, select_all, select_file, sort_by, update_browser, RepoFilesBrowserDecryption,
};
use vault_core::repo_files_browsers::state::{RepoFilesBrowserLocation, RepoFilesBrowserOptions};
use vault_core::repos::{Repo, RepoState};
use vault_core::store::State;

fn file(name: &str, typ: RepoFileType) -> RepoFile {
    RepoFile {
        id: format!("r1:/{}", name),
        mount_id: "m1".into(),
        remote_path: format!("/Vault/{}", name),
        repo_id: "r1".into(),
        encrypted_path: format!("/{}", name),
        path: RepoFilePath::Decrypted { path: format!("/{}", name) },
        name: RepoFileName::Decrypted { name: name.into(), name_lower: name.to_lowercase() },
        ext: None,
        content_type: None,
        typ,
        size: None,
        modified: None,
        tags: None,
        unique_name: name.into(),
        remote_hash: None,
        category: FileCategory::Generic,
    }
}

fn example_state(repo_state: RepoState) -> State {
    let mut state = State::new();
    state.repos.repos_by_id.insert(
        "r1".into(),
        Repo {
            id: "r1".into(),
            name: "Vault".into(),
            mount_id: "m1".into(),
            path: "/Vault".into(),
            salt: None,
            added: 1,
            state: repo_state,
        },
    );
    let files = vec![file("b.txt", RepoFileType::File), file("a.txt", RepoFileType::File), file("z", RepoFileType::Dir)];
    let ids: Vec<String> = files.iter().map(|f| f.id.clone()).collect();
    for f in files {
        state.repo_files.files.insert(f.id.clone(), f);
    }
    state.repo_files.children.insert("r1:/".into(), ids);
    state.repo_files.loaded_roots.insert("r1:/".into(), ());
    state
}

fn location() -> RepoFilesBrowserLocation {
    RepoFilesBrowserLocation { repo_id: "r1".into(), path: "/".into() }
}

fn dec(select: Option<&str>) -> Option<RepoFilesBrowserDecryption> {
    Some(RepoFilesBrowserDecryption { breadcrumbs: vec![], encrypted_select_name: select.map(String::from) })
}

#[test]
fn a_new_browser_lists_folders_first_then_names() {
    let mut state = example_state(RepoState::Unlocked);
    let mut notify = Notify::new();

    let id = create(
        &mut state,
        &mut notify,
        RepoFilesBrowserOptions { select_name: None },
        Ok(location()),
        Status::Loaded,
        dec(None),
    );

    let b = state.repo_files_browsers.browsers.get(&id).unwrap();
    assert_eq!(b.file_ids, vec!["r1:/z".to_string(), "r1:/a.txt".to_string(), "r1:/b.txt".to_string()]);
    assert!(matches!(b.status, Status::Loading { loaded: true }));
    assert!(b.breadcrumbs.is_some());
    assert!(!b.is_locked);
}

#[test]
fn a_name_to_select_is_selected_once_listed() {
    let mut state = example_state(RepoState::Unlocked);
    let mut notify = Notify::new();

    let id = create(
        &mut state,
        &mut notify,
        RepoFilesBrowserOptions { select_name: Some("a.txt".into()) },
        Ok(location()),
        Status::Loaded,
        dec(Some("a.txt")),
    );

    let b = state.repo_files_browsers.browsers.get(&id).unwrap();
    assert!(b.options.select_name.is_none());
    assert!(b.selection.selection.contains_key(&"r1:/a.txt".to_string()));
    assert_eq!(b.selection.selection.len(), 1);
}

#[test]
fn selection_keeps_only_listed_files() {
    let mut state = example_state(RepoState::Unlocked);
    let mut notify = Notify::new();
    let id = create(
        &mut state,
        &mut notify,
        RepoFilesBrowserOptions { select_name: None },
        Ok(location()),
        Status::Loaded,
        dec(None),
    );
    select_all(&mut state, &mut notify, id);
    assert_eq!(state.repo_files_browsers.browsers.get(&id).unwrap().selection.selection.len(), 3);

    state.repo_files.children.insert("r1:/".into(), vec!["r1:/z".to_string()]);
    update_browser(&mut state, &mut notify, id, Status::Loaded, dec(None));

    let b = state.repo_files_browsers.browsers.get(&id).unwrap();
    assert_eq!(b.file_ids, vec!["r1:/z".to_string()]);
    assert_eq!(b.selection.selection.len(), 1);
    assert!(b.selection.selection.contains_key(&"r1:/z".to_string()));

    clear_selection(&mut state, &mut notify, id);
    assert_eq!(state.repo_files_browsers.browsers.get(&id).unwrap().selection.selection.len(), 0);
}

#[test]
fn clicking_a_file_selects_only_it() {
    let mut state = example_state(RepoState::Unlocked);
    let mut notify = Notify::new();
    let id = create(
        &mut state,
        &mut notify,
        RepoFilesBrowserOptions { select_name: None },
        Ok(location()),
        Status::Loaded,
        dec(None),
    );

    select_file(&mut state, &mut notify, id, &"r1:/b.txt".to_string(), false, false, false);

    let b = state.repo_files_browsers.browsers.get(&id).unwrap();
    assert_eq!(b.selection.selection.len(), 1);
    assert!(b.selection.selection.contains_key(&"r1:/b.txt".to_string()));
    assert_eq!(b.selection.last_selected.as_deref(), Some("r1:/b.txt"));
}

#[test]
fn a_locked_repository_is_shown_locked_without_breadcrumbs() {
    let mut state = example_state(RepoState::Locked);
    let mut notify = Notify::new();
    let id = create(
        &mut state,
        &mut notify,
        RepoFilesBrowserOptions { select_name: None },
        Ok(location()),
        Status::Loaded,
        None,
    );

    let b = state.repo_files_browsers.browsers.get(&id).unwrap();
    assert!(b.is_locked);
    assert!(b.breadcrumbs.is_none());
}

#[test]
fn sorting_by_name_twice_reverses_then_restores() {
    let mut state = example_state(RepoState::Unlocked);
    let mut notify = Notify::new();
    let id = create(
        &mut state,
        &mut notify,
        RepoFilesBrowserOptions { select_name: None },
        Ok(location()),
        Status::Loaded,
        dec(None),
    );

    sort_by(&mut state, &mut notify, id, RepoFilesSortField::Name, None, Status::Loaded, dec(None));
    let b = state.repo_files_browsers.browsers.get(&id).unwrap();
    assert_eq!(b.sort.direction, SortDirection::Desc);
    assert_eq!(b.file_ids, vec!["r1:/z".to_string(), "r1:/b.txt".to_string(), "r1:/a.txt".to_string()]);
    assert_eq!(state.repo_files_browsers.last_sort.direction, SortDirection::Desc);

    sort_by(&mut state, &mut notify, id, RepoFilesSortField::Name, None, Status::Loaded, dec(None));
    let b = state.repo_files_browsers.browsers.get(&id).unwrap();
    assert_eq!(b.sort.direction, SortDirection::Asc);
}

#[test]
fn sorting_by_size_starts_descending() {
    let mut state = example_state(RepoState::Unlocked);
    let mut notify = Notify::new();
    let id = create(
        &mut state,
        &mut notify,
        RepoFilesBrowserOptions { select_name: None },
        Ok(location()),
        Status::Loaded,
        dec(None),
    );

    sort_by(&mut state, &mut notify, id, RepoFilesSortField::Size, None, Status::Loaded, dec(None));
    let b = state.repo_files_browsers.browsers.get(&id).unwrap();
    assert_eq!(b.sort.field, RepoFilesSortField::Size);
    assert_eq!(b.sort.direction, SortDirection::Desc);
}
