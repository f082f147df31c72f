use vault_core::common::{Event, Notify, Status};
use vault_core::files::FilesFilter;
use vault_core::keymap::KeyMap;
use vault_core::remote::{ApiErrorCode, RemoteError};
use vault_core::remote_files::state::{RemoteFile, RemoteFileType};
use vault_core::repo_files::errors::LoadFilesError;
use vault_core::repo_files::state::{
    FileCategory, RepoFile, RepoFileName, RepoFilePath, RepoFileType, RepoFilesMutationState,
    RepoFilesUploadResult,
};
use vault_core::repo_files_details::errors::SaveError;
use vault_core::repo_files_details::mutations::{
    content_loaded, content_transfer_created, create, edit, edit_cancel, file_reader_loading, handle_mutation, saved,
    saving, set_content,
};
use vault_core::repo_files_read::errors::GetFilesReaderError;
use vault_core::repo_files_details::selectors::{
    get_load_error, get_status, select_content_bytes_version, select_details_location, select_file_reader_file,
    select_info,
};
use vault_core::repo_files_details::state::{
    RepoFilesDetailsContentData, RepoFilesDetailsOptions, SaveInitiator,
};
use vault_core::repos::{Repo, RepoInfoError, RepoNotFoundError, RepoState};
use vault_core::remote_files::state::RemoteFilesMutationState;
use vault_core::store::{MutationState, ReposMutationState, State};

fn options() -> RepoFilesDetailsOptions {
    RepoFilesDetailsOptions {
        load_content: FilesFilter { categories: vec![FileCategory::Text], exts: vec!["md".into()] },
        autosave_interval_ms: 20000,
    }
}

fn example_state() -> State {
    let mut state = State::new();
    state.repos.repos_by_id.insert(
        "r1".into(),
        Repo {
            id: "r1".into(),
            name: "Vault".into(),
            mount_id: "m1".into(),
            path: "/Vault".into(),
            salt: None,
            added: 1,
            state: RepoState::Unlocked,
        },
    );
    state.repo_files.files.insert(
        "r1:/F1".into(),
        RepoFile {
            id: "r1:/F1".into(),
            mount_id: "m1".into(),
            remote_path: "/Vault/F1".into(),
            repo_id: "r1".into(),
            encrypted_path: "/F1".into(),
            path: RepoFilePath::Decrypted { path: "/notes.md".into() },
            name: RepoFileName::Decrypted { name: "notes.md".into(), name_lower: "notes.md".into() },
            ext: Some("md".into()),
            content_type: None,
            typ: RepoFileType::File,
            size: None,
            modified: Some(5),
            tags: None,
            unique_name: "u".into(),
            remote_hash: None,
            category: FileCategory::Text,
        },
    );
    state.remote_files.files.insert(
        "m1:/vault/f1".into(),
        RemoteFile {
            id: "m1:/vault/f1".into(),
            mount_id: "m1".into(),
            path: "/Vault/F1".into(),
            name: "F1".into(),
            name_lower: "f1".into(),
            typ: RemoteFileType::File,
            size: Some(100),
            modified: Some(5),
            hash: Some("h1".into()),
            tags: KeyMap::new(),
        },
    );
    state
}

fn data(bytes: &[u8], hash: &str) -> RepoFilesDetailsContentData {
    RepoFilesDetailsContentData {
        bytes: bytes.to_vec(),
        remote_size: Some(100),
        remote_modified: Some(5),
        remote_hash: Some(hash.into()),
    }
}

fn open(state: &mut State, notify: &mut Notify, is_editing: bool) -> u32 {
    create(
        state,
        notify,
        options(),
        "r1".into(),
        "/F1",
        is_editing,
        7,
        Some(Ok("notes.md".into())),
        Status::Loaded,
    )
}

#[test]
fn create_shows_the_listed_file_as_loading() {
    let mut state = example_state();
    let mut notify = Notify::new();

    let id = open(&mut state, &mut notify, false);

    assert_eq!(id, 0);
    assert!(notify.events.iter().all(|e| *e == Event::RepoFilesDetails));
    let info = select_info(&state, id).unwrap();
    assert!(matches!(info.status, Status::Loading { loaded: true }));
    assert_eq!(info.repo_id.map(|s| s.as_str()), Some("r1"));
    assert_eq!(info.path.map(|s| s.as_str()), Some("/F1"));
    assert_eq!(info.parent_path.as_deref(), Some("/"));
    assert_eq!(info.file_name.as_deref(), Some("notes.md"));
    assert_eq!(info.file_ext.as_deref(), Some("md"));
    assert_eq!(info.file_category, Some(FileCategory::Text));
    assert_eq!(info.file_modified, Some(5));
    assert!(info.file_exists);
    assert!(info.error.is_none());
    assert!(!info.is_locked);
    assert!(!info.can_save);
}

#[test]
fn create_on_the_root_is_an_invalid_path() {
    let mut state = example_state();
    let mut notify = Notify::new();

    let id = create(&mut state, &mut notify, options(), "r1".into(), "/", false, 7, None, Status::Loaded);

    let info = select_info(&state, id).unwrap();
    assert!(info.repo_id.is_none());
    match info.status {
        Status::Error { error: LoadFilesError::RemoteError(e), loaded: false } => {
            assert!(e.is_api_error_code(ApiErrorCode::InvalidPath))
        }
        _ => panic!("expected an invalid path error"),
    }
}

#[test]
fn status_prefers_missing_repo_then_lock_then_missing_file() {
    let not_found = Status::Error { error: RepoInfoError::RepoNotFound(RepoNotFoundError), loaded: false };
    assert!(matches!(
        get_status(&Status::Loaded, true, &not_found, true),
        Status::Error { error: LoadFilesError::RepoNotFound(_), loaded: false }
    ));
    assert!(matches!(
        get_status(&Status::Loaded, true, &Status::Loaded, true),
        Status::Error { error: LoadFilesError::RepoLocked(_), loaded: true }
    ));
    match get_status(&Status::Loaded, false, &Status::Loaded, false) {
        Status::Error { error: LoadFilesError::RemoteError(e), loaded: true } => {
            assert!(e.is_api_error_code(ApiErrorCode::NotFound));
            assert_eq!(e.user_error(), "Not found");
        }
        _ => panic!("expected a not found error"),
    }
    assert!(matches!(get_status(&Status::Loaded, true, &Status::Loaded, false), Status::Loaded));
    assert!(matches!(
        get_status(&Status::Loading { loaded: false }, false, &Status::Loaded, false),
        Status::Loading { loaded: false }
    ));
}

#[test]
fn load_error_of_a_missing_file_says_it_is_no_longer_accessible() {
    let status = Status::Error {
        error: LoadFilesError::RemoteError(RemoteError::ApiError {
            code: ApiErrorCode::NotFound,
            message: "Not found".into(),
        }),
        loaded: true,
    };
    assert_eq!(
        get_load_error(&status).as_deref(),
        Some("This file is no longer accessible. Probably it was deleted or you no longer have access to it.")
    );
    assert_eq!(get_load_error(&Status::Loaded), None);
}

#[test]
fn editing_marks_dirty_and_bumps_the_version() {
    let mut state = example_state();
    let mut notify = Notify::new();
    let id = open(&mut state, &mut notify, false);
    content_loaded(&mut state, &mut notify, id, "r1", "/F1", Ok(Some(data(b"hello", "h1"))));
    assert_eq!(select_content_bytes_version(&state, id), (Some(&b"hello"[..]), 1));

    edit(&mut state, &mut notify, id);
    let mut notify = Notify::new();
    set_content(&mut state, &mut notify, id, b"hello world".to_vec());

    assert_eq!(select_content_bytes_version(&state, id), (Some(&b"hello world"[..]), 2));
    assert_eq!(notify.events, vec![Event::RepoFilesDetailsContentData, Event::RepoFilesDetails]);
    let info = select_info(&state, id).unwrap();
    assert!(info.is_dirty);
    assert!(info.can_save);

    let mut notify = Notify::new();
    set_content(&mut state, &mut notify, id, b"hello world".to_vec());
    assert!(notify.events.is_empty());
}

#[test]
fn discarding_edits_drops_the_content() {
    let mut state = example_state();
    let mut notify = Notify::new();
    let id = open(&mut state, &mut notify, true);
    content_loaded(&mut state, &mut notify, id, "r1", "/F1", Ok(Some(data(b"a", "h1"))));
    set_content(&mut state, &mut notify, id, b"b".to_vec());

    edit_cancel(&mut state, &mut notify, id, true);

    let loc = select_details_location(&state, id).unwrap();
    assert!(!loc.is_editing);
    assert!(!loc.is_dirty);
    assert!(loc.content.data.is_none());
    assert!(matches!(loc.content.status, Status::Initial));
}

#[test]
fn saving_requires_edits() {
    let mut state = example_state();
    let mut notify = Notify::new();
    let id = open(&mut state, &mut notify, true);

    assert!(matches!(saving(&mut state, &mut notify, id, SaveInitiator::User), Err(SaveError::NotDirty)));
}

#[test]
fn autosave_stops_on_a_conflict_but_a_user_save_goes_on() {
    let mut state = example_state();
    let mut notify = Notify::new();
    let id = open(&mut state, &mut notify, true);
    content_loaded(&mut state, &mut notify, id, "r1", "/F1", Ok(Some(data(b"a", "old hash"))));
    set_content(&mut state, &mut notify, id, b"b".to_vec());

    assert!(matches!(
        saving(&mut state, &mut notify, id, SaveInitiator::Autosave),
        Err(SaveError::AutosaveNotPossible)
    ));
    let info = select_info(&state, id).unwrap();
    assert_eq!(
        info.error.as_deref(),
        Some("File was changed by someone else since your last save. Automatic saving is disabled.")
    );

    let (repo_id, path, name, data, version, is_deleted) =
        saving(&mut state, &mut notify, id, SaveInitiator::User).unwrap();
    assert_eq!(repo_id, "r1");
    assert_eq!(path, "/F1");
    assert_eq!(name, "F1");
    assert_eq!(data.bytes, b"b".to_vec());
    assert_eq!(version, 2);
    assert!(!is_deleted);
    let loc = select_details_location(&state, id).unwrap();
    assert!(matches!(loc.save_status, Status::Loading { loaded: false }));
}

#[test]
fn a_save_of_the_shown_version_cleans_the_view() {
    let mut state = example_state();
    let mut notify = Notify::new();
    let id = open(&mut state, &mut notify, true);
    content_loaded(&mut state, &mut notify, id, "r1", "/F1", Ok(Some(data(b"a", "h1"))));
    set_content(&mut state, &mut notify, id, b"b".to_vec());
    let (_, _, _, _, version, _) = saving(&mut state, &mut notify, id, SaveInitiator::User).unwrap();
    let remote_file = state.remote_files.files.get(&"m1:/vault/f1".to_string()).unwrap();
    let result = RepoFilesUploadResult {
        file_id: "r1:/F1".into(),
        name: "notes.md".into(),
        remote_file: RemoteFile {
            id: remote_file.id.clone(),
            mount_id: remote_file.mount_id.clone(),
            path: remote_file.path.clone(),
            name: remote_file.name.clone(),
            name_lower: remote_file.name_lower.clone(),
            typ: remote_file.typ,
            size: Some(101),
            modified: Some(6),
            hash: Some("h2".into()),
            tags: KeyMap::new(),
        },
    };

    saved(&mut state, &mut notify, id, version, Ok(("/F1".into(), result, false)));

    let loc = select_details_location(&state, id).unwrap();
    assert!(!loc.is_dirty);
    assert!(matches!(loc.save_status, Status::Initial));
    let d = loc.content.data.as_ref().unwrap();
    assert_eq!(d.remote_size, Some(101));
    assert_eq!(d.remote_hash.as_deref(), Some("h2"));
}

#[test]
fn a_moved_file_is_followed() {
    let mut state = example_state();
    let mut notify = Notify::new();
    let id = open(&mut state, &mut notify, false);
    let mutation_state = MutationState {
        remote_files: RemoteFilesMutationState::new(),
        repo_files: RepoFilesMutationState {
            removed_files: vec![],
            moved_files: vec![("r1".into(), "/F1".into(), "/D/G1".into())],
        },
        repos: ReposMutationState { locked_repos: vec![], unlocked_repos: vec![], removed_repos: vec![] },
    };
    let mut notify = Notify::new();
    let mut statuses = KeyMap::new();
    statuses.insert("r1".to_string(), Status::Loaded);

    handle_mutation(&mut state, &mut notify, &mutation_state, &KeyMap::new(), &statuses);

    let loc = select_details_location(&state, id).unwrap();
    assert_eq!(loc.path, "/D/G1");
    assert_eq!(loc.name, "G1");
    assert!(loc.decrypted_name.is_none());
    assert_eq!(notify.events, vec![Event::RepoFilesDetails]);
}

#[test]
fn a_moved_file_gets_its_new_name_decrypted() {
    let mut state = example_state();
    let mut notify = Notify::new();
    let id = open(&mut state, &mut notify, false);
    let mutation_state = MutationState {
        remote_files: RemoteFilesMutationState::new(),
        repo_files: RepoFilesMutationState {
            removed_files: vec![],
            moved_files: vec![("r1".into(), "/F1".into(), "/D/G1".into())],
        },
        repos: ReposMutationState { locked_repos: vec![], unlocked_repos: vec![], removed_repos: vec![] },
    };
    let mut names_r1 = KeyMap::new();
    names_r1.insert("G1".to_string(), Ok("moved.md".to_string()));
    let mut names = KeyMap::new();
    names.insert("r1".to_string(), names_r1);
    let mut statuses = KeyMap::new();
    statuses.insert("r1".to_string(), Status::Loaded);
    let mut notify = Notify::new();

    handle_mutation(&mut state, &mut notify, &mutation_state, &names, &statuses);

    let loc = select_details_location(&state, id).unwrap();
    assert_eq!(loc.path, "/D/G1");
    assert!(matches!(&loc.decrypted_name, Some(Ok(n)) if n == "moved.md"));
    assert_eq!(notify.events, vec![Event::RepoFilesDetails, Event::RepoFilesDetails]);
}

#[test]
fn a_file_reader_marks_the_content_loading() {
    let mut state = example_state();
    let mut notify = Notify::new();
    let id = open(&mut state, &mut notify, false);
    let file = state.repo_files.files.get(&"r1:/F1".to_string()).unwrap().copy();
    let mut notify = Notify::new();

    assert!(file_reader_loading(&mut state, &mut notify, id, &file).is_ok());

    assert_eq!(notify.events, vec![Event::RepoFilesDetails]);
    let loc = select_details_location(&state, id).unwrap();
    assert!(matches!(loc.content.status, Status::Loading { .. }));
    let loading = loc.content.loading.as_ref().unwrap();
    assert_eq!(loading.remote_size, Some(100));
    assert_eq!(loading.remote_hash.as_deref(), Some("h1"));
}

#[test]
fn a_file_reader_of_an_unknown_view_fails() {
    let mut state = example_state();
    let file = state.repo_files.files.get(&"r1:/F1".to_string()).unwrap().copy();
    let mut notify = Notify::new();
    assert!(matches!(
        file_reader_loading(&mut state, &mut notify, 42, &file),
        Err(GetFilesReaderError::FileNotFound)
    ));
    assert!(notify.events.is_empty());
}

#[test]
fn a_content_transfer_replaces_the_previous_one() {
    let mut state = example_state();
    let mut notify = Notify::new();
    let id = open(&mut state, &mut notify, false);
    let file = state.repo_files.files.get(&"r1:/F1".to_string()).unwrap().copy();
    let mut notify = Notify::new();

    assert_eq!(content_transfer_created(&mut state, &mut notify, id, &file, 5).unwrap(), None);
    assert_eq!(content_transfer_created(&mut state, &mut notify, id, &file, 6).unwrap(), Some(5));

    assert_eq!(select_details_location(&state, id).unwrap().content.transfer_id, Some(6));
    assert_eq!(notify.events.len(), 4);
}

#[test]
fn the_file_to_read_waits_for_the_view() {
    let mut state = example_state();
    let mut notify = Notify::new();
    let id = open(&mut state, &mut notify, false);
    assert!(select_file_reader_file(&state, id).is_none());
    assert!(matches!(select_file_reader_file(&state, 42), Some(Err(GetFilesReaderError::FileNotFound))));
}
