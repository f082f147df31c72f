//! Why the content of repository files could not be read.
use vstd::prelude::*;

use crate::cipher::{DecryptFilenameError, DecryptSizeError};
use crate::remote::RemoteError;
use crate::repos::{RepoLockedError, RepoNotFoundError};
use crate::strings::copy_str;

verus! {

#[derive(Debug)]
pub enum GetFilesReaderError {
    RepoNotFound(RepoNotFoundError),
    RepoLocked(RepoLockedError),
    FileNotFound,
    FilesEmpty,
    DecryptFilenameError(DecryptFilenameError),
    DecryptSizeError(DecryptSizeError),
    RemoteError(RemoteError),
    IOError(String),
    Aborted,
}

impl GetFilesReaderError {
    pub open spec fn spec_user_error(&self) -> Seq<char> {
        match self {
            GetFilesReaderError::RepoNotFound(_) => RepoNotFoundError::spec_user_error(),
            GetFilesReaderError::RepoLocked(_) => RepoLockedError::spec_user_error(),
            GetFilesReaderError::FileNotFound => "file not found"@,
            GetFilesReaderError::FilesEmpty => "files empty"@,
            GetFilesReaderError::DecryptFilenameError(e) => e.spec_message(),
            GetFilesReaderError::DecryptSizeError(e) => e.message@,
            GetFilesReaderError::RemoteError(e) => e.spec_message(),
            GetFilesReaderError::IOError(m) => m@,
            GetFilesReaderError::Aborted => "aborted"@,
        }
    }

    /// The text shown to the user for this error.
    pub fn user_error(&self) -> (r: String)
        ensures
            r@ == self.spec_user_error(),
    {
        match self {
            GetFilesReaderError::RepoNotFound(e) => e.user_error(),
            GetFilesReaderError::RepoLocked(e) => e.user_error(),
            GetFilesReaderError::FileNotFound => copy_str("file not found"),
            GetFilesReaderError::FilesEmpty => copy_str("files empty"),
            GetFilesReaderError::DecryptFilenameError(e) => e.user_error(),
            GetFilesReaderError::DecryptSizeError(e) => copy_str(e.message.as_str()),
            GetFilesReaderError::RemoteError(e) => e.user_error(),
            GetFilesReaderError::IOError(m) => copy_str(m.as_str()),
            GetFilesReaderError::Aborted => copy_str("aborted"),
        }
    }
}

} // verus!
