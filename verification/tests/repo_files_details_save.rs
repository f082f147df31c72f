use vault_core::remote::{ApiErrorCode, RemoteError};
use vault_core::repo_files::errors::UploadFileReaderError;
use vault_core::repo_files::state::RepoFilesUploadConflictResolution;
use vault_core::repo_files_details::errors::SaveError;
use vault_core::repo_files_details::save_flow::{
    location_changed_alert, save_name_conflict_resolution, save_next, save_start, SaveAction, SaveEvent,
    SaveStep,
};
use vault_core::repo_files_details::state::{RepoFilesDetailsContentData, SaveInitiator};

fn conflict() -> SaveEvent {
    SaveEvent::UploadDone(Err(UploadFileReaderError::RemoteError(RemoteError::ApiError {
        code: ApiErrorCode::Conflict,
        message: "conflict".into(),
    })))
}

#[test]
fn a_save_uploads_over_the_file() {
    let (step, action) = save_start(&SaveInitiator::User, "/D/F", "notes.md", false);
    assert!(matches!(step, Some(SaveStep::Uploading { ref parent_path, autorename: false }) if parent_path == "/D"));
    assert!(matches!(action, SaveAction::Upload { ref parent_path, autorename: false } if parent_path == "/D"));

    let (step, action) = save_next(&SaveInitiator::User, false, step.unwrap(), SaveEvent::UploadDone(Ok(())));
    assert!(step.is_none());
    assert!(matches!(action, SaveAction::Finish(Ok(false))));
}

#[test]
fn the_root_cannot_be_saved() {
    let (step, action) = save_start(&SaveInitiator::User, "/", "x", false);
    assert!(step.is_none());
    assert!(matches!(action, SaveAction::Finish(Err(SaveError::CannotSaveRoot))));
}

#[test]
fn a_deleted_file_is_saved_elsewhere_once_confirmed() {
    let (step, action) = save_start(&SaveInitiator::User, "/F", "notes.md", true);
    match action {
        SaveAction::ShowDialog(d) => {
            assert_eq!(d.title, "File not accessible");
            assert_eq!(d.message, "File notes.md is no longer accessible. Probably it was deleted or you no longer have access to it. Do you want to Save the file to a new location?");
            assert_eq!(d.confirm_button_text, "Save to a new location");
            assert_eq!(d.cancel_button_text, "Cancel");
        }
        _ => panic!("expected a dialog"),
    }
    let (step, action) = save_next(&SaveInitiator::User, true, step.unwrap(), SaveEvent::DialogClosed { confirmed: true });
    assert!(matches!(action, SaveAction::Upload { ref parent_path, autorename: true } if parent_path == "/"));
    let (_, action) = save_next(&SaveInitiator::User, true, step.unwrap(), SaveEvent::UploadDone(Ok(())));
    assert!(matches!(action, SaveAction::Finish(Ok(true))));
}

#[test]
fn a_deleted_file_is_not_autosaved() {
    let (step, action) = save_start(&SaveInitiator::Autosave, "/F", "notes.md", true);
    assert!(step.is_none());
    assert!(matches!(action, SaveAction::Finish(Err(SaveError::Canceled))));
}

#[test]
fn closing_discards_a_deleted_file_when_declined() {
    let (step, action) = save_start(&SaveInitiator::Cancel, "/F", "n", true);
    assert!(matches!(action, SaveAction::ShowDialog(ref d) if d.cancel_button_text == "Discard changes"));
    let (step, action) = save_next(&SaveInitiator::Cancel, true, step.unwrap(), SaveEvent::DialogClosed { confirmed: false });
    assert!(step.is_none());
    assert!(matches!(action, SaveAction::Finish(Err(SaveError::DiscardChanges { should_destroy: true }))));
}

#[test]
fn a_conflict_asks_to_save_as_a_new_file() {
    let (step, _) = save_start(&SaveInitiator::User, "/D/F", "n", false);
    let (step, action) = save_next(&SaveInitiator::User, false, step.unwrap(), conflict());
    match action {
        SaveAction::ShowDialog(d) => {
            assert_eq!(d.title, "File was changed by someone else since your last save");
            assert_eq!(d.confirm_button_text, "Save as a new file");
        }
        _ => panic!("expected a dialog"),
    }
    let (step2, action) = save_next(&SaveInitiator::User, false, step.unwrap(), SaveEvent::DialogClosed { confirmed: true });
    assert!(matches!(action, SaveAction::Upload { ref parent_path, autorename: true } if parent_path == "/D"));
    let (step3, action) = save_next(&SaveInitiator::User, false, step2.unwrap(), conflict());
    assert!(matches!(action, SaveAction::ShowDialog(_)));
    let (_, action) = save_next(&SaveInitiator::User, false, step3.unwrap(), SaveEvent::DialogClosed { confirmed: false });
    assert!(matches!(action, SaveAction::Finish(Err(SaveError::RemoteError(RemoteError::ApiError { code: ApiErrorCode::Conflict, .. })))));
}

#[test]
fn a_declined_conflict_on_close_discards_the_changes() {
    let (step, _) = save_start(&SaveInitiator::Cancel, "/D/F", "n", false);
    let (step, _) = save_next(&SaveInitiator::Cancel, false, step.unwrap(), conflict());
    let (_, action) = save_next(&SaveInitiator::Cancel, false, step.unwrap(), SaveEvent::DialogClosed { confirmed: false });
    assert!(matches!(action, SaveAction::Finish(Err(SaveError::DiscardChanges { should_destroy: false }))));
}

#[test]
fn other_upload_failures_end_the_save() {
    let (step, _) = save_start(&SaveInitiator::Autosave, "/D/F", "n", false);
    let (_, action) = save_next(&SaveInitiator::Autosave, false, step.unwrap(), SaveEvent::UploadDone(Err(UploadFileReaderError::Canceled)));
    assert!(matches!(action, SaveAction::Finish(Err(SaveError::Canceled))));
}

#[test]
fn the_name_and_conflict_resolution_follow_autorename() {
    let data = RepoFilesDetailsContentData {
        bytes: vec![1],
        remote_size: Some(1),
        remote_modified: Some(2),
        remote_hash: Some("h".into()),
    };
    let (name, res) = save_name_conflict_resolution(&"a.md".to_string(), false, &data, None);
    assert_eq!(name, "a.md");
    assert!(matches!(res, RepoFilesUploadConflictResolution::Overwrite { if_remote_size: Some(1), if_remote_modified: Some(2), if_remote_hash: Some(ref h) } if h == "h"));
    let (name, res) = save_name_conflict_resolution(&"a.md".to_string(), true, &data, Some("a (1).md".into()));
    assert_eq!(name, "a (1).md");
    assert!(matches!(res, RepoFilesUploadConflictResolution::Error));
}

#[test]
fn the_location_changed_alert_names_the_file() {
    let (title, message) = location_changed_alert("a.md");
    assert_eq!(title, "File location changed");
    assert_eq!(message, "File a.md was saved here because it could not be saved in its original location.");
}
