//! The decisions of saving the edited content of a details view: when to ask
//! the user, what to ask, where to upload and how a save ends. The code
//! around the library shows the dialogs, uploads, and hands back what came
//! of each step.
use vstd::prelude::*;

use crate::paths::{parent_path, root, root_path, spec_parent_path};
use crate::remote::{ApiErrorCode, RemoteError};
use crate::repo_files::errors::UploadFileReaderError;
use crate::repo_files::state::RepoFilesUploadConflictResolution;
use crate::strings::{concat3, copy_str};

use super::errors::SaveError;
use super::state::{RepoFilesDetailsContentData, SaveInitiator};

verus! {

/// A dialog that asks the user to confirm or cancel.
#[derive(Debug)]
pub struct SaveDialog {
    pub title: String,
    pub message: String,
    pub confirm_button_text: String,
    pub cancel_button_text: String,
}

/// Where a save stands while it waits for the code around the library.
#[derive(Debug)]
pub enum SaveStep {
    /// The file was deleted; the user is asked whether to save it elsewhere.
    ConfirmNewLocation,
    /// The content is being uploaded into `parent_path`.
    Uploading { parent_path: String, autorename: bool },
    /// The upload met a newer version; the user is asked what to do.
    ConfirmConflict { parent_path: String, error: RemoteError },
}

/// What comes back to a waiting save.
#[derive(Debug)]
pub enum SaveEvent {
    /// The user closed the dialog, confirming or not.
    DialogClosed { confirmed: bool },
    /// The upload ended.
    UploadDone(Result<(), UploadFileReaderError>),
}

/// What the code around the library does next for a save.
#[derive(Debug)]
pub enum SaveAction {
    ShowDialog(SaveDialog),
    /// Upload the content into `parent_path`: under an unused name derived
    /// from the original one when `autorename`, else over the original file
    /// (see `save_name_conflict_resolution`).
    Upload { parent_path: String, autorename: bool },
    /// The save is over: whether the file went to a new location, or why it
    /// failed.
    Finish(Result<bool, SaveError>),
}

pub open spec fn deleted_title() -> Seq<char> {
    "File not accessible"@
}

pub open spec fn deleted_message_head() -> Seq<char> {
    "File "@
}

pub open spec fn deleted_user_tail() -> Seq<char> {
    " is no longer accessible. Probably it was deleted or you no longer have access to it. Do you want to Save the file to a new location?"@
}

pub open spec fn deleted_cancel_tail() -> Seq<char> {
    " is no longer accessible. Probably it was deleted or you no longer have access to it. Do you want to Save the file to a new location or Discard the changes?"@
}

pub open spec fn conflict_title() -> Seq<char> {
    "File was changed by someone else since your last save"@
}

pub open spec fn conflict_user_message() -> Seq<char> {
    "Saving into the existing file is not possible. Do you want to Save your changes as a new file?"@
}

pub open spec fn conflict_cancel_message() -> Seq<char> {
    "Saving into the existing file is not possible. Do you want to Save your changes as a new file or Discard them?"@
}

/// Whether `d` shows these texts.
pub open spec fn dialog_is(d: SaveDialog, title: Seq<char>, message: Seq<char>, confirm: Seq<char>, cancel: Seq<char>) -> bool {
    d.title@ == title && d.message@ == message && d.confirm_button_text@ == confirm && d.cancel_button_text@ == cancel
}

/// The dialog that asks whether to save a deleted file `name` elsewhere;
/// a save on cancel offers to discard the changes instead.
pub open spec fn spec_deleted_dialog(d: SaveDialog, initiator: SaveInitiator, name: Seq<char>) -> bool {
    match initiator {
        SaveInitiator::Cancel => dialog_is(
            d,
            deleted_title(),
            deleted_message_head() + name + deleted_cancel_tail(),
            "Save to a new location"@,
            "Discard changes"@,
        ),
        _ => dialog_is(
            d,
            deleted_title(),
            deleted_message_head() + name + deleted_user_tail(),
            "Save to a new location"@,
            "Cancel"@,
        ),
    }
}

/// The dialog that asks whether to save the changes as a new file.
pub open spec fn spec_conflict_dialog(d: SaveDialog, initiator: SaveInitiator) -> bool {
    match initiator {
        SaveInitiator::Cancel => dialog_is(
            d,
            conflict_title(),
            conflict_cancel_message(),
            "Save as a new file"@,
            "Discard changes"@,
        ),
        _ => dialog_is(d, conflict_title(), conflict_user_message(), "Save as a new file"@, "Cancel"@),
    }
}

fn deleted_dialog(initiator: &SaveInitiator, name: &str) -> (d: SaveDialog)
    ensures
        spec_deleted_dialog(d, *initiator, name@),
{
    match initiator {
        SaveInitiator::Cancel => SaveDialog {
            title: copy_str("File not accessible"),
            message: concat3(
                "File ",
                name,
                " is no longer accessible. Probably it was deleted or you no longer have access to it. Do you want to Save the file to a new location or Discard the changes?",
            ),
            confirm_button_text: copy_str("Save to a new location"),
            cancel_button_text: copy_str("Discard changes"),
        },
        _ => SaveDialog {
            title: copy_str("File not accessible"),
            message: concat3(
                "File ",
                name,
                " is no longer accessible. Probably it was deleted or you no longer have access to it. Do you want to Save the file to a new location?",
            ),
            confirm_button_text: copy_str("Save to a new location"),
            cancel_button_text: copy_str("Cancel"),
        },
    }
}

fn conflict_dialog(initiator: &SaveInitiator) -> (d: SaveDialog)
    ensures
        spec_conflict_dialog(d, *initiator),
{
    match initiator {
        SaveInitiator::Cancel => SaveDialog {
            title: copy_str("File was changed by someone else since your last save"),
            message: copy_str(
                "Saving into the existing file is not possible. Do you want to Save your changes as a new file or Discard them?",
            ),
            confirm_button_text: copy_str("Save as a new file"),
            cancel_button_text: copy_str("Discard changes"),
        },
        _ => SaveDialog {
            title: copy_str("File was changed by someone else since your last save"),
            message: copy_str(
                "Saving into the existing file is not possible. Do you want to Save your changes as a new file?",
            ),
            confirm_button_text: copy_str("Save as a new file"),
            cancel_button_text: copy_str("Cancel"),
        },
    }
}

/// How a save of the file at `path` (decrypted name `name`) starts: the root
/// cannot be saved; a deleted file is saved elsewhere only once the user
/// confirms (an autosave gives up); else the content is uploaded over the
/// file, into its folder.
pub open spec fn spec_save_start(
    initiator: SaveInitiator,
    path: Seq<char>,
    name: Seq<char>,
    is_deleted: bool,
    r: (Option<SaveStep>, SaveAction),
) -> bool {
    match spec_parent_path(path) {
        None => r.0 is None && r.1 matches SaveAction::Finish(Err(SaveError::CannotSaveRoot)),
        Some(parent) => if is_deleted {
            match initiator {
                SaveInitiator::Autosave => r.0 is None && r.1 matches SaveAction::Finish(Err(SaveError::Canceled)),
                _ => r.0 matches Some(SaveStep::ConfirmNewLocation) && r.1 matches SaveAction::ShowDialog(d)
                    && spec_deleted_dialog(d, initiator, name),
            }
        } else {
            &&& r.0 matches Some(SaveStep::Uploading { parent_path, autorename }) && parent_path@ == parent
                && !autorename
            &&& r.1 matches SaveAction::Upload { parent_path, autorename } && parent_path@ == parent && !autorename
        },
    }
}

/// Starts a save (see `spec_save_start`).
pub fn save_start(initiator: &SaveInitiator, path: &str, name: &str, is_deleted: bool) -> (r: (
    Option<SaveStep>,
    SaveAction,
))
    ensures
        spec_save_start(*initiator, path@, name@, is_deleted, r),
{
    let parent = match parent_path(path) {
        Some(p) => p,
        None => {
            return (None, SaveAction::Finish(Err(SaveError::CannotSaveRoot)));
        },
    };
    if is_deleted {
        match initiator {
            SaveInitiator::Autosave => (None, SaveAction::Finish(Err(SaveError::Canceled))),
            _ => (Some(SaveStep::ConfirmNewLocation), SaveAction::ShowDialog(deleted_dialog(initiator, name))),
        }
    } else {
        let p2 = copy_str(parent.as_str());
        (Some(SaveStep::Uploading { parent_path: parent, autorename: false }), SaveAction::Upload { parent_path: p2, autorename: false })
    }
}

/// Whether an upload failed on a newer version of the file.
pub open spec fn is_conflict(res: Result<(), UploadFileReaderError>) -> bool {
    res matches Err(UploadFileReaderError::RemoteError(e)) && e.spec_is_api_error_code(ApiErrorCode::Conflict)
}

/// The error that ends a save whose upload failed so.
pub open spec fn spec_save_error_of(e: UploadFileReaderError) -> SaveError {
    match e {
        UploadFileReaderError::RepoNotFound(x) => SaveError::RepoNotFound(x),
        UploadFileReaderError::RepoLocked(x) => SaveError::RepoLocked(x),
        UploadFileReaderError::DecryptFilenameError(x) => SaveError::DecryptFilenameError(x),
        UploadFileReaderError::Canceled => SaveError::Canceled,
        UploadFileReaderError::RemoteError(x) => SaveError::RemoteError(x),
    }
}

/// Whether `event` answers `step`.
pub open spec fn answers(step: SaveStep, event: SaveEvent) -> bool {
    match step {
        SaveStep::Uploading { .. } => event is UploadDone,
        _ => event is DialogClosed,
    }
}

/// The next step of a save and what to do: a confirmed new location uploads
/// under a new name into the root; a finished upload ends the save (in a new
/// location when the file was deleted); an upload that met a newer version
/// asks the user, who may save as a new file; other failures end the save.
/// Declining ends the save: canceled, or discarding the changes (and the
/// view, for a deleted file) when the save came from closing the view.
pub open spec fn spec_save_next(
    initiator: SaveInitiator,
    is_deleted: bool,
    step: SaveStep,
    event: SaveEvent,
    r: (Option<SaveStep>, SaveAction),
) -> bool {
    match (step, event) {
        (SaveStep::ConfirmNewLocation, SaveEvent::DialogClosed { confirmed }) => if confirmed {
            &&& r.0 matches Some(SaveStep::Uploading { parent_path, autorename }) && parent_path@ == root_path()
                && autorename
            &&& r.1 matches SaveAction::Upload { parent_path, autorename } && parent_path@ == root_path()
                && autorename
        } else {
            r.0 is None && match initiator {
                SaveInitiator::Cancel => r.1 == SaveAction::Finish(
                    Err(SaveError::DiscardChanges { should_destroy: true }),
                ),
                _ => r.1 == SaveAction::Finish(Err(SaveError::Canceled)),
            }
        },
        (SaveStep::Uploading { parent_path: p, .. }, SaveEvent::UploadDone(res)) => match res {
            Ok(()) => r.0 is None && r.1 == SaveAction::Finish(Ok(is_deleted)),
            Err(e) => if is_conflict(res) {
                &&& r.0 matches Some(SaveStep::ConfirmConflict { parent_path, error }) && parent_path == p
                    && UploadFileReaderError::RemoteError(error) == e
                &&& r.1 matches SaveAction::ShowDialog(d) && spec_conflict_dialog(d, initiator)
            } else {
                r.0 is None && r.1 == SaveAction::Finish(Err(spec_save_error_of(e)))
            },
        },
        (SaveStep::ConfirmConflict { parent_path: p, error }, SaveEvent::DialogClosed { confirmed }) => if confirmed {
            &&& r.0 matches Some(SaveStep::Uploading { parent_path, autorename }) && parent_path == p && autorename
            &&& r.1 matches SaveAction::Upload { parent_path, autorename } && parent_path@ == p@ && autorename
        } else {
            r.0 is None && match initiator {
                SaveInitiator::Cancel => r.1 == SaveAction::Finish(
                    Err(SaveError::DiscardChanges { should_destroy: false }),
                ),
                _ => r.1 == SaveAction::Finish(Err(SaveError::RemoteError(error))),
            }
        },
        _ => false,
    }
}

/// Takes a save one step further (see `spec_save_next`). An autosave never
/// asks the user, so its upload meets no conflict dialog: the caller rules
/// out a conflict there, as autosave is not started when one is known.
pub fn save_next(initiator: &SaveInitiator, is_deleted: bool, step: SaveStep, event: SaveEvent) -> (r: (
    Option<SaveStep>,
    SaveAction,
))
    requires
        answers(step, event),
        !(*initiator == SaveInitiator::Autosave && (event matches SaveEvent::UploadDone(res) && is_conflict(res))),
    ensures
        spec_save_next(*initiator, is_deleted, step, event, r),
{
    match step {
        SaveStep::ConfirmNewLocation => {
            let confirmed = match event {
                SaveEvent::DialogClosed { confirmed } => confirmed,
                SaveEvent::UploadDone(_) => false,
            };
            if confirmed {
                (Some(SaveStep::Uploading { parent_path: root(), autorename: true }), SaveAction::Upload { parent_path: root(), autorename: true })
            } else {
                match initiator {
                    SaveInitiator::Cancel => (None, SaveAction::Finish(Err(SaveError::DiscardChanges { should_destroy: true }))),
                    _ => (None, SaveAction::Finish(Err(SaveError::Canceled))),
                }
            }
        },
        SaveStep::Uploading { parent_path, .. } => {
            let res = match event {
                SaveEvent::UploadDone(res) => res,
                SaveEvent::DialogClosed { .. } => Ok(()),
            };
            match res {
                Ok(()) => (None, SaveAction::Finish(Ok(is_deleted))),
                Err(UploadFileReaderError::RemoteError(e)) => {
                    if e.is_api_error_code(ApiErrorCode::Conflict) {
                        let d = conflict_dialog(initiator);
                        (Some(SaveStep::ConfirmConflict { parent_path, error: e }), SaveAction::ShowDialog(d))
                    } else {
                        (None, SaveAction::Finish(Err(SaveError::RemoteError(e))))
                    }
                },
                Err(e) => (None, SaveAction::Finish(Err(SaveError::from_upload_error(e)))),
            }
        },
        SaveStep::ConfirmConflict { parent_path, error } => {
            let confirmed = match event {
                SaveEvent::DialogClosed { confirmed } => confirmed,
                SaveEvent::UploadDone(_) => false,
            };
            if confirmed {
                let p2 = copy_str(parent_path.as_str());
                (Some(SaveStep::Uploading { parent_path, autorename: true }), SaveAction::Upload { parent_path: p2, autorename: true })
            } else {
                match initiator {
                    SaveInitiator::Cancel => (None, SaveAction::Finish(Err(SaveError::DiscardChanges { should_destroy: false }))),
                    _ => (None, SaveAction::Finish(Err(SaveError::RemoteError(error)))),
                }
            }
        },
    }
}

/// The name to upload under and what to do if it is taken: with
/// `autorename`, the unused name found for it, failing if that is taken too;
/// else the original name, overwriting the remote file only if it is still
/// the version that was read.
pub fn save_name_conflict_resolution(
    name: &String,
    autorename: bool,
    data: &RepoFilesDetailsContentData,
    unused_name: Option<String>,
) -> (r: (String, RepoFilesUploadConflictResolution))
    requires
        autorename ==> unused_name is Some,
    ensures
        autorename ==> r.0 == unused_name.unwrap() && r.1 is Error,
        !autorename ==> r.0 == *name && r.1 == (RepoFilesUploadConflictResolution::Overwrite {
            if_remote_size: data.remote_size,
            if_remote_modified: data.remote_modified,
            if_remote_hash: data.remote_hash,
        }),
{
    if autorename {
        (unused_name.unwrap(), RepoFilesUploadConflictResolution::Error)
    } else {
        (
            name.clone(),
            RepoFilesUploadConflictResolution::Overwrite {
                if_remote_size: data.remote_size,
                if_remote_modified: data.remote_modified,
                if_remote_hash: match &data.remote_hash {
                    Some(h) => Some(h.clone()),
                    None => None,
                },
            },
        )
    }
}

/// The alert shown once a deleted file was saved in a new location:
/// (title, message).
pub fn location_changed_alert(name: &str) -> (r: (String, String))
    ensures
        r.0@ == "File location changed"@,
        r.1@ == "File "@ + name@ + " was saved here because it could not be saved in its original location."@,
{
    (
        copy_str("File location changed"),
        concat3("File ", name, " was saved here because it could not be saved in its original location."),
    )
}

/// An autosave never asks the user anything.
pub proof fn law_autosave_never_asks(
    path: Seq<char>,
    name: Seq<char>,
    is_deleted: bool,
    step: SaveStep,
    event: SaveEvent,
    r1: (Option<SaveStep>, SaveAction),
    r2: (Option<SaveStep>, SaveAction),
)
    requires
        spec_save_start(SaveInitiator::Autosave, path, name, is_deleted, r1),
        !(event matches SaveEvent::UploadDone(res) && is_conflict(res)),
        spec_save_next(SaveInitiator::Autosave, is_deleted, step, event, r2),
    ensures
        !(r1.1 is ShowDialog),
        !(r2.1 is ShowDialog),
{
}

} // verus!
