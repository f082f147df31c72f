//! Errors of the storage service and the records that it answers with.
use vstd::prelude::*;

use crate::keymap::KeyMap;
use crate::strings::copy_str;

verus! {

/// The error codes of the storage service that the logic tells apart.
#[derive(Clone, Copy, Debug, PartialEq, Eq, Structural)]
pub enum ApiErrorCode {
    NotFound,
    AlreadyExists,
    InvalidPath,
    NotDir,
    MoveIntoSelf,
    Conflict,
    Other,
}

/// An error of a call to the storage service.
#[derive(Debug)]
pub enum RemoteError {
    ApiError { code: ApiErrorCode, message: String },
    HttpError { message: String },
}

impl RemoteError {
    /// An error with the given code and message.
    pub fn from_code(code: ApiErrorCode, message: &str) -> (r: RemoteError)
        ensures
            r matches RemoteError::ApiError { code: c, message: m } && c == code && m@ == message@,
    {
        RemoteError::ApiError { code, message: copy_str(message) }
    }

    pub open spec fn spec_is_api_error_code(&self, code: ApiErrorCode) -> bool {
        self matches RemoteError::ApiError { code: c, .. } && c == code
    }

    /// Whether this is an error of the service with the given code.
    pub fn is_api_error_code(&self, code: ApiErrorCode) -> (r: bool)
        ensures
            r == self.spec_is_api_error_code(code),
    {
        match self {
            RemoteError::ApiError { code: c, .. } => *c == code,
            RemoteError::HttpError { .. } => false,
        }
    }

    pub open spec fn spec_message(&self) -> Seq<char> {
        match self {
            RemoteError::ApiError { message, .. } => message@,
            RemoteError::HttpError { message } => message@,
        }
    }

    /// The text shown to the user for this error: its message.
    pub fn user_error(&self) -> (r: String)
        ensures
            r@ == self.spec_message(),
    {
        match self {
            RemoteError::ApiError { message, .. } => copy_str(message.as_str()),
            RemoteError::HttpError { message } => copy_str(message.as_str()),
        }
    }
}

impl Clone for RemoteError {
    fn clone(&self) -> (r: Self)
        ensures
            r == *self,
    {
        match self {
            RemoteError::ApiError { code, message } => RemoteError::ApiError {
                code: *code,
                message: message.clone(),
            },
            RemoteError::HttpError { message } => RemoteError::HttpError { message: message.clone() },
        }
    }
}

/// The kind of a mount.
#[derive(Clone, Copy, Debug, PartialEq, Eq, Structural)]
pub enum MountType {
    Device,
    Export,
    Import,
}

/// Where the storage of a mount lives.
#[derive(Clone, Copy, Debug, PartialEq, Eq, Structural)]
pub enum MountOrigin {
    Hosted,
    Desktop,
    Dropbox,
    Googledrive,
    Onedrive,
    Box,
    Aws,
    Share,
    Other,
}

impl MountOrigin {
    pub open spec fn spec_order(&self) -> u32 {
        match self {
            MountOrigin::Hosted => 0,
            MountOrigin::Desktop => 1,
            MountOrigin::Dropbox => 2,
            MountOrigin::Googledrive => 3,
            MountOrigin::Onedrive => 4,
            MountOrigin::Box => 5,
            MountOrigin::Aws => 6,
            MountOrigin::Share => 7,
            MountOrigin::Other => 8,
        }
    }

    /// The rank of this origin in lists of places: hosted storage first.
    pub fn order(&self) -> (r: u32)
        ensures
            r == self.spec_order(),
    {
        match self {
            MountOrigin::Hosted => 0,
            MountOrigin::Desktop => 1,
            MountOrigin::Dropbox => 2,
            MountOrigin::Googledrive => 3,
            MountOrigin::Onedrive => 4,
            MountOrigin::Box => 5,
            MountOrigin::Aws => 6,
            MountOrigin::Share => 7,
            MountOrigin::Other => 8,
        }
    }
}

/// A mount as the service describes it.
#[derive(Debug)]
pub struct ApiMount {
    pub id: String,
    pub name: String,
    pub typ: MountType,
    pub origin: MountOrigin,
    pub online: bool,
    pub is_primary: bool,
}

impl Clone for ApiMount {
    fn clone(&self) -> (r: Self)
        ensures
            r == *self,
    {
        ApiMount {
            id: self.id.clone(),
            name: self.name.clone(),
            typ: self.typ,
            origin: self.origin,
            online: self.online,
            is_primary: self.is_primary,
        }
    }
}

/// A file or folder as the service lists it.
#[derive(Debug)]
pub struct FilesFile {
    pub name: String,
    /// "dir" for a folder, anything else for a file.
    pub typ: String,
    pub size: i64,
    pub modified: i64,
    pub hash: Option<String>,
    pub tags: KeyMap<String, Vec<String>>,
}

/// A bookmarked folder.
#[derive(Debug)]
pub struct Bookmark {
    pub mount_id: String,
    pub path: String,
    pub name: String,
}

/// The root of a share.
#[derive(Debug)]
pub struct SharedFile {
    pub name: String,
    pub typ: String,
    pub size: i64,
    pub modified: i64,
    pub mount: ApiMount,
}

/// A folder listing: the folder itself and, for a folder, its children.
#[derive(Debug)]
pub struct Bundle {
    pub file: FilesFile,
    pub files: Option<Vec<FilesFile>>,
}

/// Conditions under which the storage service sets a file's tags: the
/// file's size, modification time and hash, and some of its old tags.
#[derive(Debug)]
pub struct RemoteFileTagsSetConditions {
    pub if_size: Option<i64>,
    pub if_modified: Option<i64>,
    pub if_hash: Option<String>,
    pub if_old_tags: Option<KeyMap<String, Vec<String>>>,
}

impl RemoteFileTagsSetConditions {
    /// No conditions.
    pub fn none() -> (r: Self)
        ensures
            r.if_size is None,
            r.if_modified is None,
            r.if_hash is None,
            r.if_old_tags is None,
    {
        RemoteFileTagsSetConditions { if_size: None, if_modified: None, if_hash: None, if_old_tags: None }
    }
}

} // verus!
