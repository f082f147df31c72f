use vault_core::cipher::DecryptFilenameError;
use vault_core::common::{Event, Notify};
use vault_core::keymap::KeyMap;
use vault_core::remote_files::state::{RemoteFile, RemoteFileType, RemoteFilesMutationState};
use vault_core::repo_files::mutations::{
    decrypt_file_path, decrypt_files, decrypt_recent_files_repo, handle_remote_files_mutation,
    handle_repos_mutation,
};
use vault_core::repo_files::state::{
    FileCategory, FileDecryption, RepoFileName, RepoFilePath, RepoFilesMutationState,
};
use vault_core::repos::{repo_tree_get, Repo, RepoState};
use vault_core::store::{MutationState, ReposMutationState, State};

fn repo(id: &str, path: &str, state: RepoState) -> Repo {
    Repo {
        id: id.into(),
        name: format!("Box {}", id),
        mount_id: "m1".into(),
        path: path.into(),
        salt: None,
        added: 7,
        state,
    }
}

fn remote(path: &str, name: &str, typ: RemoteFileType) -> RemoteFile {
    RemoteFile {
        id: format!("m1:{}", path.to_lowercase()),
        mount_id: "m1".into(),
        path: path.into(),
        name: name.into(),
        name_lower: name.to_lowercase(),
        typ,
        size: None,
        modified: Some(5),
        hash: None,
        tags: KeyMap::new(),
    }
}

fn dec(parent: &str, name: &str) -> FileDecryption {
    FileDecryption { parent_path: Ok(parent.into()), name: Ok(name.into()), size: Ok(0), tags: None }
}

fn add_remote(state: &mut State, f: RemoteFile) {
    state.remote_files.files.insert(f.id.clone(), f);
}

/// A repository "r1" at "/Vault" holding a folder "EA" (decrypted "Docs")
/// and a file "EB" (decrypted "a.txt"); "EA" holds "EC" ("b.txt").
fn example() -> (State, KeyMap<String, FileDecryption>) {
    let mut state = State::new();
    state.repos.repos_by_id.insert("r1".into(), repo("r1", "/Vault", RepoState::Unlocked));
    state.repos.repo_ids_by_remote_file_id.insert("m1:/vault".into(), "r1".into());
    add_remote(&mut state, remote("/Vault", "Vault", RemoteFileType::Dir));
    add_remote(&mut state, remote("/Vault/EB", "EB", RemoteFileType::File));
    add_remote(&mut state, remote("/Vault/EA", "EA", RemoteFileType::Dir));
    add_remote(&mut state, remote("/Vault/EA/EC", "EC", RemoteFileType::File));
    state
        .remote_files
        .children
        .insert("m1:/vault".into(), vec!["m1:/vault/eb".into(), "m1:/vault/ea".into()]);
    state.remote_files.children.insert("m1:/vault/ea".into(), vec!["m1:/vault/ea/ec".into()]);
    state.remote_files.loaded_roots.insert("m1:/vault".into(), ());
    let mut decs = KeyMap::new();
    decs.insert("m1:/vault/eb".to_string(), dec("/", "a.txt"));
    decs.insert("m1:/vault/ea".to_string(), dec("/", "Docs"));
    decs.insert("m1:/vault/ea/ec".to_string(), dec("/Docs", "b.txt"));
    (state, decs)
}

fn name_of(state: &State, id: &str) -> String {
    match &state.repo_files.files.get(&id.to_string()).unwrap().name {
        RepoFileName::Decrypted { name, .. } => name.clone(),
        RepoFileName::DecryptError { .. } => panic!("not decrypted"),
    }
}

#[test]
fn decrypt_files_stores_the_folder_and_its_sorted_children() {
    let (mut state, decs) = example();
    let repo = repo("r1", "/Vault", RepoState::Unlocked);
    let types = state.file_types.by_ext.len();
    assert_eq!(types, 0);
    let remote_files = std::mem::replace(&mut state.remote_files, vault_core::remote_files::state::RemoteFilesState::new());
    decrypt_files(&remote_files, &mut state.repo_files, "m1", "/Vault", &repo, "/", &decs, &state.file_types);

    assert_eq!(name_of(&state, "r1:/"), "Box r1");
    assert_eq!(name_of(&state, "r1:/EA"), "Docs");
    assert_eq!(name_of(&state, "r1:/EB"), "a.txt");
    let children = state.repo_files.children.get(&"r1:/".to_string()).unwrap();
    assert_eq!(children, &vec!["r1:/EA".to_string(), "r1:/EB".to_string()]);
    assert!(state.repo_files.loaded_roots.contains_key(&"r1:/".to_string()));
    let a = state.repo_files.files.get(&"r1:/EB".to_string()).unwrap();
    assert!(matches!(&a.path, RepoFilePath::Decrypted { path } if path == "/a.txt"));
    assert_eq!(a.ext.as_deref(), Some("txt"));
    assert_eq!(a.category, FileCategory::Generic);
}

#[test]
fn decrypt_files_forgets_children_that_are_gone() {
    let (mut state, decs) = example();
    let repo = repo("r1", "/Vault", RepoState::Unlocked);
    let remote_files = std::mem::replace(&mut state.remote_files, vault_core::remote_files::state::RemoteFilesState::new());
    decrypt_files(&remote_files, &mut state.repo_files, "m1", "/Vault", &repo, "/", &decs, &state.file_types);
    decrypt_files(&remote_files, &mut state.repo_files, "m1", "/Vault/EA", &repo, "/EA", &decs, &state.file_types);
    assert_eq!(name_of(&state, "r1:/EA/EC"), "b.txt");

    // The folder EA disappears from the remote listing of the root.
    let mut remote_files = remote_files;
    remote_files.children.insert("m1:/vault".into(), vec!["m1:/vault/eb".into()]);
    decrypt_files(&remote_files, &mut state.repo_files, "m1", "/Vault", &repo, "/", &decs, &state.file_types);

    assert!(!state.repo_files.files.contains_key(&"r1:/EA".to_string()));
    assert!(!state.repo_files.files.contains_key(&"r1:/EA/EC".to_string()));
    assert!(!state.repo_files.children.contains_key(&"r1:/EA".to_string()));
    assert_eq!(state.repo_files.children.get(&"r1:/".to_string()).unwrap(), &vec!["r1:/EB".to_string()]);
}

#[test]
fn decrypt_files_of_an_unknown_folder_forgets_its_file() {
    let (mut state, decs) = example();
    let repo = repo("r1", "/Vault", RepoState::Unlocked);
    let remote_files = std::mem::replace(&mut state.remote_files, vault_core::remote_files::state::RemoteFilesState::new());
    decrypt_files(&remote_files, &mut state.repo_files, "m1", "/Vault", &repo, "/", &decs, &state.file_types);
    assert!(state.repo_files.files.contains_key(&"r1:/EB".to_string()));

    decrypt_files(&remote_files, &mut state.repo_files, "m1", "/Vault/Missing", &repo, "/EB", &decs, &state.file_types);

    assert!(!state.repo_files.files.contains_key(&"r1:/EB".to_string()));
}

#[test]
fn decrypt_file_path_names_a_file_inside_its_parent() {
    let repo = repo("r1", "/Vault", RepoState::Unlocked);
    let f = remote("/Vault/EA/EC", "EC", RemoteFileType::File);
    let file = decrypt_file_path(&repo, "/EA/EC", &f, &dec("/Docs", "b.txt"), &vault_core::files::FileTypes {
        by_ext: KeyMap::new(),
    });
    assert_eq!(file.id, "r1:/EA/EC");
    assert!(matches!(&file.path, RepoFilePath::Decrypted { path } if path == "/Docs/b.txt"));

    let root = decrypt_file_path(&repo, "/", &remote("/Vault", "Vault", RemoteFileType::Dir), &dec("/", "x"), &vault_core::files::FileTypes {
        by_ext: KeyMap::new(),
    });
    assert_eq!(root.id, "r1:/");
}

#[test]
fn decrypt_file_path_keeps_a_name_error() {
    let repo = repo("r1", "/Vault", RepoState::Unlocked);
    let f = remote("/Vault/EB", "EB", RemoteFileType::File);
    let d = FileDecryption {
        parent_path: Ok("/".into()),
        name: Err(DecryptFilenameError::DecryptFilenameError { message: "bad".into() }),
        size: Ok(0),
        tags: None,
    };
    let file = decrypt_file_path(&repo, "/EB", &f, &d, &vault_core::files::FileTypes { by_ext: KeyMap::new() });
    assert!(matches!(&file.name, RepoFileName::DecryptError { encrypted_name, .. } if encrypted_name == "EB"));
    assert!(matches!(&file.path, RepoFilePath::DecryptError { .. }));
}

#[test]
fn recent_files_are_decrypted_only_when_loaded() {
    let (mut state, decs) = example();
    assert!(!decrypt_recent_files_repo(&mut state, &"r1".to_string(), &decs));
    assert!(!state.repo_files.recent.contains_key(&"r1".to_string()));

    state.remote_files.recent.insert("m1:/vault".into(), vec!["m1:/vault/ea/ec".into(), "m1:/vault/zz".into()]);
    assert!(decrypt_recent_files_repo(&mut state, &"r1".to_string(), &decs));

    assert_eq!(state.repo_files.recent.get(&"r1".to_string()).unwrap(), &vec!["r1:/EA/EC".to_string()]);
    assert_eq!(name_of(&state, "r1:/EA/EC"), "b.txt");
}

#[test]
fn recent_files_of_a_locked_repo_are_not_decrypted() {
    let (mut state, decs) = example();
    state.repos.repos_by_id.insert("r1".into(), repo("r1", "/Vault", RepoState::Locked));
    state.remote_files.recent.insert("m1:/vault".into(), vec!["m1:/vault/eb".into()]);
    assert!(!decrypt_recent_files_repo(&mut state, &"r1".to_string(), &decs));
    assert!(!state.repo_files.files.contains_key(&"r1:/EB".to_string()));
}

fn mutation_state(locked: Vec<String>, unlocked: Vec<String>) -> MutationState {
    MutationState {
        remote_files: RemoteFilesMutationState::new(),
        repo_files: RepoFilesMutationState { removed_files: vec![], moved_files: vec![] },
        repos: ReposMutationState { locked_repos: locked, unlocked_repos: unlocked, removed_repos: vec![] },
    }
}

#[test]
fn unlocking_a_repo_decrypts_all_its_folders() {
    let (mut state, decs) = example();
    let mut notify = Notify::new();

    let changed = handle_repos_mutation(&mut state, &mut notify, &mutation_state(vec![], vec!["r1".into()]), &decs);

    assert!(changed);
    assert_eq!(notify.events, vec![Event::RepoFiles]);
    assert_eq!(name_of(&state, "r1:/"), "Box r1");
    assert_eq!(name_of(&state, "r1:/EA"), "Docs");
    assert_eq!(name_of(&state, "r1:/EA/EC"), "b.txt");
    assert_eq!(state.repo_files.children.get(&"r1:/EA".to_string()).unwrap(), &vec!["r1:/EA/EC".to_string()]);
}

#[test]
fn locking_a_repo_forgets_its_files() {
    let (mut state, decs) = example();
    let mut notify = Notify::new();
    handle_repos_mutation(&mut state, &mut notify, &mutation_state(vec![], vec!["r1".into()]), &decs);
    state.repos.repos_by_id.insert("r1".into(), repo("r1", "/Vault", RepoState::Locked));
    state.repo_files.recent.insert("r1".into(), vec![]);

    let mut notify = Notify::new();
    let changed = handle_repos_mutation(&mut state, &mut notify, &mutation_state(vec!["r1".into()], vec![]), &decs);

    assert!(changed);
    assert_eq!(notify.events, vec![Event::RepoFiles]);
    assert_eq!(state.repo_files.files.len(), 0);
    assert_eq!(state.repo_files.children.len(), 0);
    assert_eq!(state.repo_files.loaded_roots.len(), 0);
    assert!(!state.repo_files.recent.contains_key(&"r1".to_string()));
}

#[test]
fn a_repos_mutation_of_nothing_changes_nothing() {
    let (mut state, decs) = example();
    let mut notify = Notify::new();
    let changed = handle_repos_mutation(&mut state, &mut notify, &mutation_state(vec![], vec!["r9".into()]), &decs);
    assert!(!changed);
    assert!(notify.events.is_empty());
    assert_eq!(state.repo_files.files.len(), 0);
}

#[test]
fn the_repo_tree_finds_the_deepest_repo() {
    let (mut state, _) = example();
    assert_eq!(repo_tree_get(&state.repos, "m1", "/Vault/EA/EC"), Some(("r1".into(), "/EA/EC".into())));
    assert_eq!(repo_tree_get(&state.repos, "m1", "/Vault"), Some(("r1".into(), "/".into())));
    assert_eq!(repo_tree_get(&state.repos, "m1", "/Other"), None);
    assert_eq!(repo_tree_get(&state.repos, "m2", "/Vault/EA"), None);
    state.repos.repo_ids_by_remote_file_id.insert("m1:/vault/ea".into(), "r2".into());
    assert_eq!(repo_tree_get(&state.repos, "m1", "/Vault/EA/EC"), Some(("r2".into(), "/EC".into())));
}

#[test]
fn a_created_remote_file_joins_its_folder() {
    let (mut state, decs) = example();
    let mut notify = Notify::new();
    handle_repos_mutation(&mut state, &mut notify, &mutation_state(vec![], vec!["r1".into()]), &decs);

    let mut decs = decs;
    add_remote(&mut state, remote("/Vault/ED", "ED", RemoteFileType::File));
    decs.insert("m1:/vault/ed".to_string(), dec("/", "0.txt"));
    let mut ms = mutation_state(vec![], vec![]);
    ms.remote_files.created_files.push(("m1".into(), "/Vault/ED".into()));
    let mut notify = Notify::new();

    let changed = handle_remote_files_mutation(&mut state, &mut notify, &mut ms, &decs);

    assert!(changed);
    assert_eq!(notify.events, vec![Event::RepoFiles]);
    assert_eq!(name_of(&state, "r1:/ED"), "0.txt");
    assert_eq!(
        state.repo_files.children.get(&"r1:/".to_string()).unwrap(),
        &vec!["r1:/EA".to_string(), "r1:/ED".to_string(), "r1:/EB".to_string()]
    );
}

#[test]
fn removed_and_moved_remote_files_are_recorded() {
    let (mut state, decs) = example();
    let mut ms = mutation_state(vec![], vec![]);
    ms.remote_files.removed_files.push(("m1".into(), "/Vault/EB".into()));
    ms.remote_files.removed_files.push(("m1".into(), "/Elsewhere/x".into()));
    ms.remote_files.moved_files.push(("m1".into(), "/Vault/EA/EC".into(), "/Vault/EC".into()));
    let mut notify = Notify::new();

    let changed = handle_remote_files_mutation(&mut state, &mut notify, &mut ms, &decs);

    assert!(changed);
    assert_eq!(ms.repo_files.removed_files, vec![("r1".to_string(), "/EB".to_string())]);
    assert_eq!(
        ms.repo_files.moved_files,
        vec![("r1".to_string(), "/EA/EC".to_string(), "/EC".to_string())]
    );
}

#[test]
fn a_remote_mutation_outside_repos_changes_nothing() {
    let (mut state, decs) = example();
    let mut ms = mutation_state(vec![], vec![]);
    ms.remote_files.created_files.push(("m1".into(), "/Photos/p.jpg".into()));
    let mut notify = Notify::new();

    let changed = handle_remote_files_mutation(&mut state, &mut notify, &mut ms, &decs);

    assert!(!changed);
    assert!(notify.events.is_empty());
    assert_eq!(state.repo_files.files.len(), 0);
}
