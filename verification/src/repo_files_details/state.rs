//! The file details views: one file of a repository, its content as loaded
//! for viewing or editing, and the state of saving and deleting it.
use vstd::prelude::*;

use crate::cipher::DecryptFilenameError;
use crate::common::{NextId, Status};
use crate::files::FilesFilter;
use crate::keymap::KeyMap;
use crate::repo_files::errors::{DeleteFileError, LoadFilesError};
use crate::repo_files::state::FileCategory;
use crate::repos::RepoInfoError;
use crate::transfers::TransferError;

use super::errors::SaveError;

verus! {

/// What a details view shows.
#[derive(Debug)]
pub struct RepoFilesDetailsInfo<'a> {
    pub repo_id: Option<&'a String>,
    pub parent_path: Option<String>,
    pub path: Option<&'a String>,
    pub status: Status<LoadFilesError>,
    pub file_name: Option<String>,
    pub file_ext: Option<String>,
    pub file_category: Option<FileCategory>,
    pub file_modified: Option<i64>,
    pub file_exists: bool,
    pub content_status: Status<TransferError>,
    pub transfer_id: Option<u32>,
    pub save_status: Status<SaveError>,
    pub error: Option<String>,
    pub is_editing: bool,
    pub is_dirty: bool,
    pub should_destroy: bool,
    pub can_save: bool,
    pub can_download: bool,
    pub can_copy: bool,
    pub can_move: bool,
    pub can_delete: bool,
    pub repo_status: Status<RepoInfoError>,
    pub is_locked: bool,
}

/// Loaded content, with the version of the remote file it was loaded from.
#[derive(Debug)]
pub struct RepoFilesDetailsContentData {
    pub bytes: Vec<u8>,
    pub remote_size: Option<i64>,
    pub remote_modified: Option<i64>,
    pub remote_hash: Option<String>,
}

/// The version of the remote file whose content is being loaded.
#[derive(Debug)]
pub struct RepoFilesDetailsContentLoading {
    pub remote_size: Option<i64>,
    pub remote_modified: Option<i64>,
    pub remote_hash: Option<String>,
}

#[derive(Debug)]
pub struct RepoFilesDetailsContent {
    pub status: Status<TransferError>,
    pub data: Option<RepoFilesDetailsContentData>,
    pub loading: Option<RepoFilesDetailsContentLoading>,
    /// Counts the changes of `data`, so that views know when to redraw.
    pub version: u32,
    pub transfer_id: Option<u32>,
}

/// The file that a details view shows.
#[derive(Debug)]
pub struct RepoFilesDetailsLocation {
    pub repo_id: String,
    pub path: String,
    pub name: String,
    pub decrypted_name: Option<Result<String, DecryptFilenameError>>,
    pub content: RepoFilesDetailsContent,
    pub is_editing: bool,
    pub is_dirty: bool,
    pub save_status: Status<SaveError>,
    pub delete_status: Status<DeleteFileError>,
    pub should_destroy: bool,
}

#[derive(Debug)]
pub struct RepoFilesDetailsOptions {
    /// The files whose content is loaded.
    pub load_content: FilesFilter,
    /// How long edits wait before they are saved, in milliseconds.
    pub autosave_interval_ms: u64,
}

#[derive(Debug)]
pub struct RepoFilesDetails {
    pub id: u32,
    pub options: RepoFilesDetailsOptions,
    pub location: Option<RepoFilesDetailsLocation>,
    pub status: Status<LoadFilesError>,
    pub repo_files_subscription_id: u32,
    pub repo_status: Status<RepoInfoError>,
    pub is_locked: bool,
}

#[derive(Debug)]
pub struct RepoFilesDetailsState {
    pub details: KeyMap<u32, RepoFilesDetails>,
    pub next_id: NextId,
}

impl RepoFilesDetailsState {
    pub fn new() -> (r: Self)
        ensures
            r.details@ == Map::<u32, RepoFilesDetails>::empty(),
            r.next_id.value == 0,
    {
        RepoFilesDetailsState { details: KeyMap::new(), next_id: NextId::new() }
    }

    /// Forgets all details views; ids keep counting from where they were.
    pub fn reset(&mut self)
        ensures
            final(self).details@ == Map::<u32, RepoFilesDetails>::empty(),
            final(self).next_id.value == old(self).next_id.value,
    {
        self.details = KeyMap::new();
    }
}

/// Who asked for a save.
#[derive(Clone, Copy, Debug, PartialEq, Eq, Structural)]
pub enum SaveInitiator {
    User,
    Autosave,
    Cancel,
}

pub fn clone_load_status(s: &Status<LoadFilesError>) -> (r: Status<LoadFilesError>)
    ensures
        r == *s,
{
    match s {
        Status::Initial => Status::Initial,
        Status::Loading { loaded } => Status::Loading { loaded: *loaded },
        Status::Loaded => Status::Loaded,
        Status::Error { error, loaded } => Status::Error { error: error.clone(), loaded: *loaded },
    }
}

pub fn clone_transfer_status(s: &Status<TransferError>) -> (r: Status<TransferError>)
    ensures
        r == *s,
{
    match s {
        Status::Initial => Status::Initial,
        Status::Loading { loaded } => Status::Loading { loaded: *loaded },
        Status::Loaded => Status::Loaded,
        Status::Error { error, loaded } => Status::Error { error: error.clone(), loaded: *loaded },
    }
}

pub fn clone_save_status(s: &Status<SaveError>) -> (r: Status<SaveError>)
    ensures
        r == *s,
{
    match s {
        Status::Initial => Status::Initial,
        Status::Loading { loaded } => Status::Loading { loaded: *loaded },
        Status::Loaded => Status::Loaded,
        Status::Error { error, loaded } => Status::Error { error: error.clone(), loaded: *loaded },
    }
}

pub fn clone_repo_status(s: &Status<RepoInfoError>) -> (r: Status<RepoInfoError>)
    ensures
        r == *s,
{
    match s {
        Status::Initial => Status::Initial,
        Status::Loading { loaded } => Status::Loading { loaded: *loaded },
        Status::Loaded => Status::Loaded,
        Status::Error { error, loaded } => Status::Error { error: error.clone(), loaded: *loaded },
    }
}

} // verus!
