//! The errors of the file details view: loading, content, saving.
use vstd::prelude::*;

use crate::cipher::DecryptFilenameError;
use crate::remote::RemoteError;
use crate::repo_files::errors::{LoadFilesError, UploadFileReaderError};
use crate::repos::{RepoLockedError, RepoNotFoundError};
use crate::strings::copy_str;
use crate::transfers::TransferError;

verus! {

#[derive(Debug)]
pub enum LoadDetailsError {
    RepoNotFound(RepoNotFoundError),
    RepoLocked(RepoLockedError),
    RemoteError(RemoteError),
}

impl LoadDetailsError {
    pub open spec fn spec_user_error(&self) -> Seq<char> {
        match self {
            LoadDetailsError::RepoNotFound(_) => RepoNotFoundError::spec_user_error(),
            LoadDetailsError::RepoLocked(_) => RepoLockedError::spec_user_error(),
            LoadDetailsError::RemoteError(e) => e.spec_message(),
        }
    }

    pub fn user_error(&self) -> (r: String)
        ensures
            r@ == self.spec_user_error(),
    {
        match self {
            LoadDetailsError::RepoNotFound(e) => e.user_error(),
            LoadDetailsError::RepoLocked(e) => e.user_error(),
            LoadDetailsError::RemoteError(e) => e.user_error(),
        }
    }

    /// The same cause as a failed listing.
    pub fn from_load_files_error(err: LoadFilesError) -> (r: Self)
        ensures
            match err {
                LoadFilesError::RepoNotFound(e) => r == LoadDetailsError::RepoNotFound(e),
                LoadFilesError::RepoLocked(e) => r == LoadDetailsError::RepoLocked(e),
                LoadFilesError::RemoteError(e) => r == LoadDetailsError::RemoteError(e),
            },
    {
        match err {
            LoadFilesError::RepoNotFound(e) => LoadDetailsError::RepoNotFound(e),
            LoadFilesError::RepoLocked(e) => LoadDetailsError::RepoLocked(e),
            LoadFilesError::RemoteError(e) => LoadDetailsError::RemoteError(e),
        }
    }
}

#[derive(Debug)]
pub enum LoadContentError {
    RepoNotFound(RepoNotFoundError),
    RepoLocked(RepoLockedError),
    TransferError(TransferError),
    FileNotFound,
    DecryptFilenameError(DecryptFilenameError),
    AlreadyLoading,
    LoadFilterMismatch,
}

impl LoadContentError {
    pub open spec fn spec_user_error(&self) -> Seq<char> {
        match self {
            LoadContentError::RepoNotFound(_) => RepoNotFoundError::spec_user_error(),
            LoadContentError::RepoLocked(_) => RepoLockedError::spec_user_error(),
            LoadContentError::TransferError(e) => e.spec_user_error(),
            LoadContentError::FileNotFound => "File not found"@,
            LoadContentError::DecryptFilenameError(e) => e.spec_message(),
            LoadContentError::AlreadyLoading => "already loading"@,
            LoadContentError::LoadFilterMismatch => "load filter mismatch"@,
        }
    }

    pub fn user_error(&self) -> (r: String)
        ensures
            r@ == self.spec_user_error(),
    {
        match self {
            LoadContentError::RepoNotFound(e) => e.user_error(),
            LoadContentError::RepoLocked(e) => e.user_error(),
            LoadContentError::TransferError(e) => e.user_error(),
            LoadContentError::FileNotFound => copy_str("File not found"),
            LoadContentError::DecryptFilenameError(e) => e.user_error(),
            LoadContentError::AlreadyLoading => copy_str("already loading"),
            LoadContentError::LoadFilterMismatch => copy_str("load filter mismatch"),
        }
    }
}

#[derive(Debug)]
pub enum SaveError {
    RepoNotFound(RepoNotFoundError),
    RepoLocked(RepoLockedError),
    DecryptFilenameError(DecryptFilenameError),
    DecryptDataError(String),
    AlreadySaving,
    NotDirty,
    InvalidState,
    AutosaveNotPossible,
    DiscardChanges { should_destroy: bool },
    Canceled,
    CannotSaveRoot,
    RemoteError(RemoteError),
}

impl SaveError {
    pub open spec fn spec_user_error(&self) -> Seq<char> {
        match self {
            SaveError::RepoNotFound(_) => RepoNotFoundError::spec_user_error(),
            SaveError::RepoLocked(_) => RepoLockedError::spec_user_error(),
            SaveError::DecryptFilenameError(e) => e.spec_message(),
            SaveError::DecryptDataError(m) => m@,
            SaveError::AlreadySaving => "already saving"@,
            SaveError::NotDirty => "not dirty"@,
            SaveError::InvalidState => "invalid state"@,
            SaveError::AutosaveNotPossible => "autosave not possible"@,
            SaveError::DiscardChanges { .. } => "discard changes"@,
            SaveError::Canceled => "canceled"@,
            SaveError::CannotSaveRoot => "cannot save root"@,
            SaveError::RemoteError(e) => e.spec_message(),
        }
    }

    pub fn user_error(&self) -> (r: String)
        ensures
            r@ == self.spec_user_error(),
    {
        match self {
            SaveError::RepoNotFound(e) => e.user_error(),
            SaveError::RepoLocked(e) => e.user_error(),
            SaveError::DecryptFilenameError(e) => e.user_error(),
            SaveError::DecryptDataError(m) => copy_str(m.as_str()),
            SaveError::AlreadySaving => copy_str("already saving"),
            SaveError::NotDirty => copy_str("not dirty"),
            SaveError::InvalidState => copy_str("invalid state"),
            SaveError::AutosaveNotPossible => copy_str("autosave not possible"),
            SaveError::DiscardChanges { .. } => copy_str("discard changes"),
            SaveError::Canceled => copy_str("canceled"),
            SaveError::CannotSaveRoot => copy_str("cannot save root"),
            SaveError::RemoteError(e) => e.user_error(),
        }
    }

    /// The same cause as a failed listing.
    pub fn from_load_files_error(err: LoadFilesError) -> (r: Self)
        ensures
            match err {
                LoadFilesError::RepoNotFound(e) => r == SaveError::RepoNotFound(e),
                LoadFilesError::RepoLocked(e) => r == SaveError::RepoLocked(e),
                LoadFilesError::RemoteError(e) => r == SaveError::RemoteError(e),
            },
    {
        match err {
            LoadFilesError::RepoNotFound(e) => SaveError::RepoNotFound(e),
            LoadFilesError::RepoLocked(e) => SaveError::RepoLocked(e),
            LoadFilesError::RemoteError(e) => SaveError::RemoteError(e),
        }
    }

    /// The same cause as a failed upload.
    pub fn from_upload_error(err: UploadFileReaderError) -> (r: Self)
        ensures
            match err {
                UploadFileReaderError::RepoNotFound(e) => r == SaveError::RepoNotFound(e),
                UploadFileReaderError::RepoLocked(e) => r == SaveError::RepoLocked(e),
                UploadFileReaderError::DecryptFilenameError(e) => r == SaveError::DecryptFilenameError(e),
                UploadFileReaderError::Canceled => r == SaveError::Canceled,
                UploadFileReaderError::RemoteError(e) => r == SaveError::RemoteError(e),
            },
    {
        match err {
            UploadFileReaderError::RepoNotFound(e) => SaveError::RepoNotFound(e),
            UploadFileReaderError::RepoLocked(e) => SaveError::RepoLocked(e),
            UploadFileReaderError::DecryptFilenameError(e) => SaveError::DecryptFilenameError(e),
            UploadFileReaderError::Canceled => SaveError::Canceled,
            UploadFileReaderError::RemoteError(e) => SaveError::RemoteError(e),
        }
    }
}

impl Clone for SaveError {
    fn clone(&self) -> (r: Self)
        ensures
            r == *self,
    {
        match self {
            SaveError::RepoNotFound(e) => SaveError::RepoNotFound(*e),
            SaveError::RepoLocked(e) => SaveError::RepoLocked(*e),
            SaveError::DecryptFilenameError(e) => SaveError::DecryptFilenameError(e.clone()),
            SaveError::DecryptDataError(m) => SaveError::DecryptDataError(m.clone()),
            SaveError::AlreadySaving => SaveError::AlreadySaving,
            SaveError::NotDirty => SaveError::NotDirty,
            SaveError::InvalidState => SaveError::InvalidState,
            SaveError::AutosaveNotPossible => SaveError::AutosaveNotPossible,
            SaveError::DiscardChanges { should_destroy } => SaveError::DiscardChanges {
                should_destroy: *should_destroy,
            },
            SaveError::Canceled => SaveError::Canceled,
            SaveError::CannotSaveRoot => SaveError::CannotSaveRoot,
            SaveError::RemoteError(e) => SaveError::RemoteError(e.clone()),
        }
    }
}

#[derive(Debug)]
pub enum SetContentError {
    RepoLocked(RepoLockedError),
}

impl SetContentError {
    pub fn user_error(&self) -> (r: String)
        ensures
            r@ == RepoLockedError::spec_user_error(),
    {
        match self {
            SetContentError::RepoLocked(e) => e.user_error(),
        }
    }
}

} // verus!
