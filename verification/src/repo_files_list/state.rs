//! The entries of a recursive listing of a repository folder.
use vstd::prelude::*;

use crate::cipher::DecryptFilenameError;
use crate::remote::FilesFile;
use crate::remote::RemoteError;
use crate::repo_files::state::RepoFile;

use super::errors::FilesListRecursiveItemError;

verus! {

/// An entry of a recursive listing: a file with its path relative to the
/// listed folder, or an error with the remote path where it happened.
#[derive(Debug)]
pub enum RepoFilesListRecursiveItem {
    File { relative_repo_path: Result<String, DecryptFilenameError>, file: RepoFile },
    Error { mount_id: String, remote_path: Option<String>, error: FilesListRecursiveItemError },
}

#[allow(inconsistent_fields)]
/// An entry of a recursive listing as the storage service sends it: a file
/// with its path relative to the listed folder, or an error.
#[derive(Debug)]
pub enum FilesListRecursiveItem {
    File { path: String, file: FilesFile },
    Error { path: Option<String>, error: RemoteError },
}

} // verus!
