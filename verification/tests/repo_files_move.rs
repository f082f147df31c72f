use vault_core::common::{Event, Notify};
use vault_core::remote::ApiErrorCode;
use vault_core::repo_files::errors::MoveFileError;
use vault_core::repo_files::state::{FileCategory, RepoFile, RepoFileName, RepoFilePath, RepoFileType};
use vault_core::repo_files_move::mutations::{cancel, move_files, set_dest_path, show};
use vault_core::repo_files_move::selectors::select_check_move;
use vault_core::repo_files_move::state::RepoFilesMoveMode;
use vault_core::store::State;

fn listed(state: &mut State, id: &str) {
    state.repo_files.files.insert(
        id.into(),
        RepoFile {
            id: id.into(),
            mount_id: "m1".into(),
            remote_path: "/".into(),
            repo_id: "r1".into(),
            encrypted_path: "/".into(),
            path: RepoFilePath::Decrypted { path: "/".into() },
            name: RepoFileName::Decrypted { name: "x".into(), name_lower: "x".into() },
            ext: None,
            content_type: None,
            typ: RepoFileType::Dir,
            size: None,
            modified: None,
            tags: None,
            unique_name: "x".into(),
            remote_hash: None,
            category: FileCategory::Folder,
        },
    );
}

fn open(state: &mut State, src_paths: Vec<&str>, dest: &str) {
    let mut notify = Notify::new();
    show(
        state,
        &mut notify,
        "r1".into(),
        src_paths.into_iter().map(String::from).collect(),
        dest.into(),
        RepoFilesMoveMode::Move,
        3,
    );
    assert_eq!(notify.events, vec![Event::RepoFilesMove]);
}

fn error_code(state: &State) -> Option<ApiErrorCode> {
    match select_check_move(state) {
        Ok(_) => None,
        Err(MoveFileError::RemoteError(e)) => [
            ApiErrorCode::NotFound,
            ApiErrorCode::InvalidPath,
            ApiErrorCode::MoveIntoSelf,
            ApiErrorCode::AlreadyExists,
        ]
        .into_iter()
        .find(|c| e.is_api_error_code(*c)),
        Err(_) => panic!("unexpected error"),
    }
}

#[test]
fn check_move_without_a_dialog_is_not_found() {
    let state = State::new();
    assert_eq!(error_code(&state), Some(ApiErrorCode::NotFound));
}

#[test]
fn moving_into_the_same_folder_is_moving_into_itself() {
    let mut state = State::new();
    open(&mut state, vec!["/A/F1"], "/A");
    assert_eq!(error_code(&state), Some(ApiErrorCode::MoveIntoSelf));
}

#[test]
fn moving_onto_a_listed_file_is_refused() {
    let mut state = State::new();
    listed(&mut state, "r1:/B/F1");
    open(&mut state, vec!["/A/F1"], "/B");
    assert_eq!(error_code(&state), Some(ApiErrorCode::AlreadyExists));
}

#[test]
fn moving_the_root_is_an_invalid_path() {
    let mut state = State::new();
    open(&mut state, vec!["/"], "/B");
    assert_eq!(error_code(&state), Some(ApiErrorCode::InvalidPath));
}

#[test]
fn a_valid_move_closes_the_dialog() {
    let mut state = State::new();
    open(&mut state, vec!["/A/F1", "/A/F2"], "/A");
    let mut notify = Notify::new();
    set_dest_path(&mut state, &mut notify, "/B".into());

    let info = move_files(&mut state, &mut notify).unwrap();

    assert_eq!(info.repo_id, "r1");
    assert_eq!(info.src_paths, vec!["/A/F1".to_string(), "/A/F2".to_string()]);
    assert_eq!(info.dest_path, "/B");
    assert_eq!(info.dir_picker_id, 3);
    assert_eq!(info.mode, RepoFilesMoveMode::Move);
    assert!(state.repo_files_move.is_none());
}

#[test]
fn cancel_returns_the_picker() {
    let mut state = State::new();
    open(&mut state, vec!["/A/F1"], "/A");
    let mut notify = Notify::new();
    assert_eq!(cancel(&mut state, &mut notify), Some(3));
    assert!(state.repo_files_move.is_none());
    assert_eq!(cancel(&mut state, &mut notify), None);
}
