//! The errors of the repository files logic.
use vstd::prelude::*;

use crate::cipher::DecryptFilenameError;
use crate::remote::{ApiErrorCode, RemoteError};
use crate::repos::{RepoLockedError, RepoNotFoundError};

verus! {

/// The errors that the repository files logic raises itself.
#[derive(Debug)]
pub struct RepoFilesErrors;

impl RepoFilesErrors {
    pub fn not_found() -> (r: RemoteError)
        ensures
            (r matches RemoteError::ApiError { code, message } && code == ApiErrorCode::NotFound
                && message@ == "Not found"@),
    {
        RemoteError::from_code(ApiErrorCode::NotFound, "Not found")
    }

    pub fn already_exists() -> (r: RemoteError)
        ensures
            (r matches RemoteError::ApiError { code, message } && code == ApiErrorCode::AlreadyExists
                && message@ == "Already exists"@),
    {
        RemoteError::from_code(ApiErrorCode::AlreadyExists, "Already exists")
    }

    pub fn not_a_dir() -> (r: RemoteError)
        ensures
            (r matches RemoteError::ApiError { code, message } && code == ApiErrorCode::NotDir
                && message@ == "Not a dir"@),
    {
        RemoteError::from_code(ApiErrorCode::NotDir, "Not a dir")
    }

    pub fn move_into_self() -> (r: RemoteError)
        ensures
            (r matches RemoteError::ApiError { code, message } && code == ApiErrorCode::MoveIntoSelf
                && message@ == "Cannot move into itself"@),
    {
        RemoteError::from_code(ApiErrorCode::MoveIntoSelf, "Cannot move into itself")
    }

    pub fn move_root() -> (r: RemoteError)
        ensures
            (r matches RemoteError::ApiError { code, message } && code == ApiErrorCode::NotDir
                && message@ == "Cannot move root"@),
    {
        RemoteError::from_code(ApiErrorCode::NotDir, "Cannot move root")
    }

    pub fn invalid_path() -> (r: RemoteError)
        ensures
            (r matches RemoteError::ApiError { code, message } && code == ApiErrorCode::InvalidPath
                && message@ == "Invalid name or path"@),
    {
        RemoteError::from_code(ApiErrorCode::InvalidPath, "Invalid name or path")
    }
}

#[derive(Debug)]
pub enum GetRepoMountPathError {
    RepoNotFound(RepoNotFoundError),
    RepoLocked(RepoLockedError),
}

#[derive(Debug)]
pub enum LoadFilesError {
    RepoNotFound(RepoNotFoundError),
    RepoLocked(RepoLockedError),
    RemoteError(RemoteError),
}

#[derive(Debug)]
pub enum LoadFileError {
    RepoNotFound(RepoNotFoundError),
    RepoLocked(RepoLockedError),
    RemoteError(RemoteError),
}

#[derive(Debug)]
pub enum FileNameError {
    RepoNotFound(RepoNotFoundError),
    DecryptFilenameError(DecryptFilenameError),
}

#[derive(Debug)]
pub enum DecryptFilesError {
    RepoNotFound(RepoNotFoundError),
    RepoLocked(RepoLockedError),
    DecryptFilenameError(DecryptFilenameError),
}

#[derive(Debug)]
pub enum UploadFileReaderError {
    RepoNotFound(RepoNotFoundError),
    RepoLocked(RepoLockedError),
    DecryptFilenameError(DecryptFilenameError),
    Canceled,
    RemoteError(RemoteError),
}

#[derive(Debug)]
pub enum DeleteFileError {
    RepoNotFound(RepoNotFoundError),
    RepoLocked(RepoLockedError),
    Canceled,
    RemoteError(RemoteError),
}

#[derive(Debug)]
pub enum CreateDirError {
    RepoNotFound(RepoNotFoundError),
    RepoLocked(RepoLockedError),
    DecryptFilenameError(DecryptFilenameError),
    Canceled,
    RemoteError(RemoteError),
}

#[derive(Debug)]
pub enum CreateFileError {
    RepoNotFound(RepoNotFoundError),
    RepoLocked(RepoLockedError),
    DecryptFilenameError(DecryptFilenameError),
    Canceled,
    RemoteError(RemoteError),
}

#[derive(Debug)]
pub enum EnsureDirError {
    RepoNotFound(RepoNotFoundError),
    RepoLocked(RepoLockedError),
    DecryptFilenameError(DecryptFilenameError),
    Canceled,
    RemoteError(RemoteError),
}

#[derive(Debug)]
pub enum RenameFileError {
    RepoNotFound(RepoNotFoundError),
    RepoLocked(RepoLockedError),
    DecryptFilenameError(DecryptFilenameError),
    RenameRoot,
    RemoteError(RemoteError),
}

#[derive(Debug)]
pub enum CopyFileError {
    InvalidPath,
    RepoNotFound(RepoNotFoundError),
    RepoLocked(RepoLockedError),
    DecryptFilenameError(DecryptFilenameError),
    RemoteError(RemoteError),
}

#[derive(Debug)]
pub enum MoveFileError {
    InvalidPath,
    RepoNotFound(RepoNotFoundError),
    RepoLocked(RepoLockedError),
    DecryptFilenameError(DecryptFilenameError),
    MoveRoot,
    RemoteError(RemoteError),
}

impl MoveFileError {
    /// The move error of a failed copy: the same cause.
    pub fn from_copy_error(err: CopyFileError) -> (r: MoveFileError)
        ensures
            match err {
                CopyFileError::InvalidPath => r is InvalidPath,
                CopyFileError::RepoNotFound(_) => r is RepoNotFound,
                CopyFileError::RepoLocked(_) => r is RepoLocked,
                CopyFileError::DecryptFilenameError(e) => r == MoveFileError::DecryptFilenameError(
                    e,
                ),
                CopyFileError::RemoteError(e) => r == MoveFileError::RemoteError(e),
            },
    {
        match err {
            CopyFileError::InvalidPath => MoveFileError::InvalidPath,
            CopyFileError::RepoNotFound(e) => MoveFileError::RepoNotFound(e),
            CopyFileError::RepoLocked(e) => MoveFileError::RepoLocked(e),
            CopyFileError::DecryptFilenameError(e) => MoveFileError::DecryptFilenameError(e),
            CopyFileError::RemoteError(e) => MoveFileError::RemoteError(e),
        }
    }
}

impl CreateDirError {
    /// The create error of a failed listing: the same cause.
    pub fn from_load_files_error(err: LoadFilesError) -> (r: CreateDirError)
        ensures
            match err {
                LoadFilesError::RepoNotFound(_) => r is RepoNotFound,
                LoadFilesError::RepoLocked(_) => r is RepoLocked,
                LoadFilesError::RemoteError(e) => r == CreateDirError::RemoteError(e),
            },
    {
        match err {
            LoadFilesError::RepoNotFound(e) => CreateDirError::RepoNotFound(e),
            LoadFilesError::RepoLocked(e) => CreateDirError::RepoLocked(e),
            LoadFilesError::RemoteError(e) => CreateDirError::RemoteError(e),
        }
    }
}

} // verus!

verus! {

impl LoadFilesError {
    pub open spec fn spec_user_error(&self) -> Seq<char> {
        match self {
            LoadFilesError::RepoNotFound(_) => RepoNotFoundError::spec_user_error(),
            LoadFilesError::RepoLocked(_) => RepoLockedError::spec_user_error(),
            LoadFilesError::RemoteError(e) => e.spec_message(),
        }
    }

    /// The text shown to the user for this error.
    pub fn user_error(&self) -> (r: String)
        ensures
            r@ == self.spec_user_error(),
    {
        match self {
            LoadFilesError::RepoNotFound(e) => e.user_error(),
            LoadFilesError::RepoLocked(e) => e.user_error(),
            LoadFilesError::RemoteError(e) => e.user_error(),
        }
    }
}

impl Clone for LoadFilesError {
    fn clone(&self) -> (r: Self)
        ensures
            r == *self,
    {
        match self {
            LoadFilesError::RepoNotFound(e) => LoadFilesError::RepoNotFound(*e),
            LoadFilesError::RepoLocked(e) => LoadFilesError::RepoLocked(*e),
            LoadFilesError::RemoteError(e) => LoadFilesError::RemoteError(e.clone()),
        }
    }
}

impl Clone for DeleteFileError {
    fn clone(&self) -> (r: Self)
        ensures
            r == *self,
    {
        match self {
            DeleteFileError::RepoNotFound(e) => DeleteFileError::RepoNotFound(*e),
            DeleteFileError::RepoLocked(e) => DeleteFileError::RepoLocked(*e),
            DeleteFileError::Canceled => DeleteFileError::Canceled,
            DeleteFileError::RemoteError(e) => DeleteFileError::RemoteError(e.clone()),
        }
    }
}

} // verus!
