//! Why listing the files under a folder of a repository failed.
use vstd::prelude::*;

use crate::cipher::DecryptFilenameError;
use crate::remote::RemoteError;
use crate::repos::{RepoLockedError, RepoNotFoundError};

verus! {

/// Why one entry of a recursive listing is not a file.
#[derive(Debug)]
pub enum FilesListRecursiveItemError {
    DecryptFilenameError(DecryptFilenameError),
    RemoteError(RemoteError),
}

impl FilesListRecursiveItemError {
    pub open spec fn spec_user_error(&self) -> Seq<char> {
        match self {
            FilesListRecursiveItemError::DecryptFilenameError(e) => e.spec_message(),
            FilesListRecursiveItemError::RemoteError(e) => e.spec_message(),
        }
    }

    pub fn user_error(&self) -> (r: String)
        ensures
            r@ == self.spec_user_error(),
    {
        match self {
            FilesListRecursiveItemError::DecryptFilenameError(e) => e.user_error(),
            FilesListRecursiveItemError::RemoteError(e) => e.user_error(),
        }
    }
}

#[derive(Debug)]
pub enum GetListRecursiveError {
    RepoNotFound(RepoNotFoundError),
    RepoLocked(RepoLockedError),
    DecryptFilenameError(DecryptFilenameError),
    RemoteError(RemoteError),
}

impl GetListRecursiveError {
    pub open spec fn spec_user_error(&self) -> Seq<char> {
        match self {
            GetListRecursiveError::RepoNotFound(_) => RepoNotFoundError::spec_user_error(),
            GetListRecursiveError::RepoLocked(_) => RepoLockedError::spec_user_error(),
            GetListRecursiveError::DecryptFilenameError(e) => e.spec_message(),
            GetListRecursiveError::RemoteError(e) => e.spec_message(),
        }
    }

    pub fn user_error(&self) -> (r: String)
        ensures
            r@ == self.spec_user_error(),
    {
        match self {
            GetListRecursiveError::RepoNotFound(e) => e.user_error(),
            GetListRecursiveError::RepoLocked(e) => e.user_error(),
            GetListRecursiveError::DecryptFilenameError(e) => e.user_error(),
            GetListRecursiveError::RemoteError(e) => e.user_error(),
        }
    }
}

} // verus!
