//! Why a move dialog could not open, or a click in its folder picker failed.
use vstd::prelude::*;

use crate::cipher::DecryptFilenameError;
use crate::remote::RemoteError;
use crate::repo_files::errors::LoadFilesError;
use crate::repos::{RepoLockedError, RepoNotFoundError};
use crate::strings::copy_str;

verus! {

#[derive(Debug)]
pub enum ShowError {
    RepoNotFound(RepoNotFoundError),
    RepoLocked(RepoLockedError),
    RemoteError(RemoteError),
    FilesEmpty,
}

impl ShowError {
    pub open spec fn spec_user_error(&self) -> Seq<char> {
        match self {
            ShowError::RepoNotFound(_) => RepoNotFoundError::spec_user_error(),
            ShowError::RepoLocked(_) => RepoLockedError::spec_user_error(),
            ShowError::RemoteError(e) => e.spec_message(),
            ShowError::FilesEmpty => "files empty"@,
        }
    }

    pub fn user_error(&self) -> (r: String)
        ensures
            r@ == self.spec_user_error(),
    {
        match self {
            ShowError::RepoNotFound(e) => e.user_error(),
            ShowError::RepoLocked(e) => e.user_error(),
            ShowError::RemoteError(e) => e.user_error(),
            ShowError::FilesEmpty => copy_str("files empty"),
        }
    }

    /// The same cause as a failed listing.
    pub fn from_load_files_error(err: LoadFilesError) -> (r: Self)
        ensures
            match err {
                LoadFilesError::RepoNotFound(e) => r == ShowError::RepoNotFound(e),
                LoadFilesError::RepoLocked(e) => r == ShowError::RepoLocked(e),
                LoadFilesError::RemoteError(e) => r == ShowError::RemoteError(e),
            },
    {
        match err {
            LoadFilesError::RepoNotFound(e) => ShowError::RepoNotFound(e),
            LoadFilesError::RepoLocked(e) => ShowError::RepoLocked(e),
            LoadFilesError::RemoteError(e) => ShowError::RemoteError(e),
        }
    }
}

#[derive(Debug)]
pub enum DirPickerClickError {
    RepoNotFound(RepoNotFoundError),
    RepoLocked(RepoLockedError),
    DecryptFilenameError(DecryptFilenameError),
    RemoteError(RemoteError),
}

impl DirPickerClickError {
    pub open spec fn spec_user_error(&self) -> Seq<char> {
        match self {
            DirPickerClickError::RepoNotFound(_) => RepoNotFoundError::spec_user_error(),
            DirPickerClickError::RepoLocked(_) => RepoLockedError::spec_user_error(),
            DirPickerClickError::DecryptFilenameError(e) => e.spec_message(),
            DirPickerClickError::RemoteError(e) => e.spec_message(),
        }
    }

    pub fn user_error(&self) -> (r: String)
        ensures
            r@ == self.spec_user_error(),
    {
        match self {
            DirPickerClickError::RepoNotFound(e) => e.user_error(),
            DirPickerClickError::RepoLocked(e) => e.user_error(),
            DirPickerClickError::DecryptFilenameError(e) => e.user_error(),
            DirPickerClickError::RemoteError(e) => e.user_error(),
        }
    }

    /// The same cause as a failed listing.
    pub fn from_load_files_error(err: LoadFilesError) -> (r: Self)
        ensures
            match err {
                LoadFilesError::RepoNotFound(e) => r == DirPickerClickError::RepoNotFound(e),
                LoadFilesError::RepoLocked(e) => r == DirPickerClickError::RepoLocked(e),
                LoadFilesError::RemoteError(e) => r == DirPickerClickError::RemoteError(e),
            },
    {
        match err {
            LoadFilesError::RepoNotFound(e) => DirPickerClickError::RepoNotFound(e),
            LoadFilesError::RepoLocked(e) => DirPickerClickError::RepoLocked(e),
            LoadFilesError::RemoteError(e) => DirPickerClickError::RemoteError(e),
        }
    }
}

} // verus!
