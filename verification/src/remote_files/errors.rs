//! The errors that the remote-files logic raises itself.
use vstd::prelude::*;

use crate::remote::{ApiErrorCode, RemoteError};
use crate::strings::copy_str;

verus! {

/// The error of an invalid name or path, with its message.
pub open spec fn spec_invalid_path_error(e: RemoteError) -> bool {
    e matches RemoteError::ApiError { code, message } && code == ApiErrorCode::InvalidPath
        && message@ == "Invalid name or path"@
}

/// The error of a name that is already taken, with its message.
pub open spec fn spec_already_exists_error(e: RemoteError) -> bool {
    e matches RemoteError::ApiError { code, message } && code == ApiErrorCode::AlreadyExists
        && message@ == "Already exists"@
}

#[derive(Debug)]
pub struct RemoteFilesErrors;

impl RemoteFilesErrors {
    pub fn not_found() -> (r: RemoteError)
        ensures
            r matches RemoteError::ApiError { code, message } && code == ApiErrorCode::NotFound
                && message@ == "Not found"@,
    {
        RemoteError::from_code(ApiErrorCode::NotFound, "Not found")
    }

    pub fn already_exists() -> (r: RemoteError)
        ensures
            spec_already_exists_error(r),
    {
        RemoteError::from_code(ApiErrorCode::AlreadyExists, "Already exists")
    }

    pub fn not_a_dir() -> (r: RemoteError)
        ensures
            r matches RemoteError::ApiError { code, message } && code == ApiErrorCode::InvalidPath
                && message@ == "Not a dir"@,
    {
        RemoteError::from_code(ApiErrorCode::InvalidPath, "Not a dir")
    }

    pub fn invalid_path() -> (r: RemoteError)
        ensures
            spec_invalid_path_error(r),
    {
        RemoteError::from_code(ApiErrorCode::InvalidPath, "Invalid name or path")
    }
}

/// Why creating a folder failed.
#[derive(Debug)]
pub enum CreateDirError {
    Canceled,
    RemoteError(RemoteError),
}

impl CreateDirError {
    pub open spec fn spec_user_error(&self) -> Seq<char> {
        match self {
            CreateDirError::Canceled => "canceled"@,
            CreateDirError::RemoteError(err) => if err.spec_is_api_error_code(
                ApiErrorCode::AlreadyExists,
            ) {
                "Folder with this name already exists."@
            } else {
                err.spec_message()
            },
        }
    }

    /// The text shown to the user for this error.
    pub fn user_error(&self) -> (r: String)
        ensures
            r@ == self.spec_user_error(),
    {
        match self {
            CreateDirError::Canceled => copy_str("canceled"),
            CreateDirError::RemoteError(err) => {
                if err.is_api_error_code(ApiErrorCode::AlreadyExists) {
                    copy_str("Folder with this name already exists.")
                } else {
                    err.user_error()
                }
            },
        }
    }
}

} // verus!
