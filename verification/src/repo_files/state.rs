//! The files of repositories, with their decrypted names, paths and sizes.
use vstd::prelude::*;

use crate::cipher::{DecryptFilenameError, DecryptSizeError};
use crate::common::{SortDirection, SortGrouping};
use crate::hex_text::hex_lower;
use crate::keymap::KeyMap;
use crate::remote_files::state::{RemoteFile, RemoteFileType};
use crate::repo_files_tags::errors::DecryptTagsError;
use crate::repo_files_tags::state::{opt_bytes_view, RepoFileTags};

verus! {

/// One step of the path from a repository's root to a folder.
#[derive(Debug)]
pub struct RepoFilesBreadcrumb {
    pub id: String,
    pub repo_id: String,
    pub path: String,
    pub name: String,
    pub last: bool,
}

/// The decrypted path of a file, or why it could not be decrypted.
#[derive(Debug)]
pub enum RepoFilePath {
    Decrypted { path: String },
    DecryptError { error: DecryptFilenameError },
}

impl RepoFilePath {
    pub fn decrypted_path<'a>(&'a self) -> (r: Result<&'a String, DecryptFilenameError>)
        ensures
            match self {
                RepoFilePath::Decrypted { path } => r == Ok::<&String, DecryptFilenameError>(path),
                RepoFilePath::DecryptError { error } => r == Err::<&String, DecryptFilenameError>(
                    *error,
                ),
            },
    {
        match self {
            RepoFilePath::Decrypted { path } => Ok(path),
            RepoFilePath::DecryptError { error } => Err(error.clone()),
        }
    }
}

/// The decrypted name of a file, or the encrypted one and why it could not
/// be decrypted; each with its lower-cased form.
#[derive(Debug)]
pub enum RepoFileName {
    Decrypted { name: String, name_lower: String },
    DecryptError { encrypted_name: String, encrypted_name_lower: String, error: DecryptFilenameError },
}

impl RepoFileName {
    pub fn decrypted_name<'a>(&'a self) -> (r: Result<&'a String, DecryptFilenameError>)
        ensures
            match self {
                RepoFileName::Decrypted { name, .. } => r == Ok::<&String, DecryptFilenameError>(
                    name,
                ),
                RepoFileName::DecryptError { error, .. } => r == Err::<&String, DecryptFilenameError>(
                    *error,
                ),
            },
    {
        match self {
            RepoFileName::Decrypted { name, .. } => Ok(name),
            RepoFileName::DecryptError { error, .. } => Err(error.clone()),
        }
    }
}

/// Folder or file; folders sort first.
#[derive(Clone, Copy, Debug, PartialEq, Eq, Structural)]
pub enum RepoFileType {
    Dir,
    File,
}

impl RepoFileType {
    pub fn is_file(&self) -> (r: bool)
        ensures
            r == (*self == RepoFileType::File),
    {
        match self {
            RepoFileType::Dir => false,
            RepoFileType::File => true,
        }
    }

    pub fn is_dir(&self) -> (r: bool)
        ensures
            r == (*self == RepoFileType::Dir),
    {
        match self {
            RepoFileType::Dir => true,
            RepoFileType::File => false,
        }
    }

    /// The type of the repository file stored in a remote file of type `typ`.
    pub fn from_remote_type(typ: &RemoteFileType) -> (r: RepoFileType)
        ensures
            r == (match typ {
                RemoteFileType::Dir => RepoFileType::Dir,
                RemoteFileType::File => RepoFileType::File,
            }),
    {
        match typ {
            RemoteFileType::Dir => RepoFileType::Dir,
            RemoteFileType::File => RepoFileType::File,
        }
    }
}

/// The decrypted size of a file, or the encrypted one and why it could not
/// be decrypted.
#[derive(Debug)]
pub enum RepoFileSize {
    Decrypted { size: i64 },
    DecryptError { encrypted_size: i64, error: DecryptSizeError },
}

impl RepoFileSize {
    pub fn decrypted_size(&self) -> (r: Result<i64, DecryptSizeError>)
        ensures
            match self {
                RepoFileSize::Decrypted { size } => r == Ok::<i64, DecryptSizeError>(*size),
                RepoFileSize::DecryptError { error, .. } => r == Err::<i64, DecryptSizeError>(
                    *error,
                ),
            },
    {
        match self {
            RepoFileSize::Decrypted { size } => Ok(*size),
            RepoFileSize::DecryptError { error, .. } => Err(error.clone()),
        }
    }
}

/// The kind of content of a file, by its extension.
#[derive(Clone, Copy, Debug, PartialEq, Eq, Structural)]
pub enum FileCategory {
    Generic,
    Folder,
    Archive,
    Audio,
    Code,
    Document,
    Image,
    Pdf,
    Presentation,
    Sheet,
    Text,
    Video,
}

#[derive(Debug)]
pub struct RepoFile {
    pub id: String,
    pub mount_id: String,
    pub remote_path: String,
    pub repo_id: String,
    pub encrypted_path: String,
    pub path: RepoFilePath,
    pub name: RepoFileName,
    pub ext: Option<String>,
    pub content_type: Option<String>,
    pub typ: RepoFileType,
    pub size: Option<RepoFileSize>,
    pub modified: Option<i64>,
    pub tags: Option<Result<RepoFileTags, DecryptTagsError>>,
    pub unique_name: String,
    pub remote_hash: Option<String>,
    pub category: FileCategory,
}

/// The lower-cased name of a file, decrypted when it could be.
pub open spec fn spec_name_lower_force(file: RepoFile) -> Seq<char> {
    match file.name {
        RepoFileName::Decrypted { name_lower, .. } => name_lower@,
        RepoFileName::DecryptError { encrypted_name_lower, .. } => encrypted_name_lower@,
    }
}

/// The size of a file, decrypted when it could be, or 0 when unknown.
pub open spec fn spec_size_force(file: RepoFile) -> i64 {
    match file.size {
        Some(RepoFileSize::Decrypted { size }) => size,
        Some(RepoFileSize::DecryptError { encrypted_size, .. }) => encrypted_size,
        None => 0,
    }
}

impl RepoFile {
    pub fn decrypted_path<'a>(&'a self) -> (r: Result<&'a String, DecryptFilenameError>)
        ensures
            match self.path {
                RepoFilePath::Decrypted { path } => r matches Ok(p) && *p == path,
                RepoFilePath::DecryptError { error } => r == Err::<&String, DecryptFilenameError>(
                    error,
                ),
            },
    {
        self.path.decrypted_path()
    }

    pub fn decrypted_name<'a>(&'a self) -> (r: Result<&'a String, DecryptFilenameError>)
        ensures
            match self.name {
                RepoFileName::Decrypted { name, .. } => r matches Ok(n) && *n == name,
                RepoFileName::DecryptError { error, .. } => r == Err::<&String, DecryptFilenameError>(
                    error,
                ),
            },
    {
        self.name.decrypted_name()
    }

    pub fn name_lower_force<'a>(&'a self) -> (r: &'a String)
        ensures
            r@ == spec_name_lower_force(*self),
    {
        match &self.name {
            RepoFileName::Decrypted { name_lower, .. } => name_lower,
            RepoFileName::DecryptError { encrypted_name_lower, .. } => encrypted_name_lower,
        }
    }

    pub fn decrypted_size(&self) -> (r: Result<Option<i64>, DecryptSizeError>)
        ensures
            match self.size {
                Some(RepoFileSize::Decrypted { size }) => r == Ok::<Option<i64>, DecryptSizeError>(
                    Some(size),
                ),
                Some(RepoFileSize::DecryptError { error, .. }) => r == Err::<
                    Option<i64>,
                    DecryptSizeError,
                >(error),
                None => r == Ok::<Option<i64>, DecryptSizeError>(None),
            },
    {
        match &self.size {
            Some(size) => match size.decrypted_size() {
                Ok(s) => Ok(Some(s)),
                Err(e) => Err(e),
            },
            None => Ok(None),
        }
    }

    pub fn size_force(&self) -> (r: i64)
        ensures
            r == spec_size_force(*self),
    {
        match &self.size {
            Some(RepoFileSize::Decrypted { size }) => *size,
            Some(RepoFileSize::DecryptError { encrypted_size, .. }) => *encrypted_size,
            None => 0,
        }
    }

    /// The icon of the file: its category, marked as an error when its name
    /// could not be decrypted.
    pub fn file_icon_attrs(&self) -> (r: crate::files::FileIconAttrs)
        ensures
            r == (crate::files::FileIconAttrs {
                category: self.category,
                is_dl: false,
                is_ul: false,
                is_download_transfer: false,
                is_upload_transfer: false,
                is_export: false,
                is_import: false,
                is_android: false,
                is_ios: false,
                is_vault_repo: false,
                is_error: self.name is DecryptError,
            }),
    {
        crate::files::FileIconAttrs {
            category: self.category,
            is_dl: false,
            is_ul: false,
            is_download_transfer: false,
            is_upload_transfer: false,
            is_export: false,
            is_import: false,
            is_android: false,
            is_ios: false,
            is_vault_repo: false,
            is_error: match &self.name {
                RepoFileName::Decrypted { .. } => false,
                RepoFileName::DecryptError { .. } => true,
            },
        }
    }

    /// The hash of the content, in lower-case hex, when the tags could be
    /// read and hold it.
    pub fn hash(&self) -> (r: Option<String>)
        ensures
            match self.tags {
                Some(Ok(t)) => match t.hash {
                    Some(h) => r matches Some(s) && s@ == hex_lower(h@),
                    None => r is None,
                },
                _ => r is None,
            },
    {
        match &self.tags {
            Some(Ok(tags)) => tags.hash_hex(),
            _ => None,
        }
    }
}

#[derive(Debug)]
pub struct RepoFilesState {
    pub files: KeyMap<String, RepoFile>,
    pub children: KeyMap<String, Vec<String>>,
    pub loaded_roots: KeyMap<String, ()>,
    /// The recently changed files of each repository.
    pub recent: KeyMap<String, Vec<String>>,
}

impl RepoFilesState {
    pub fn new() -> (r: Self)
        ensures
            r.files@ == Map::<Seq<char>, RepoFile>::empty(),
            r.children@ == Map::<Seq<char>, Vec<String>>::empty(),
            r.loaded_roots@ == Map::<Seq<char>, ()>::empty(),
            r.recent@ == Map::<Seq<char>, Vec<String>>::empty(),
    {
        RepoFilesState {
            files: KeyMap::new(),
            children: KeyMap::new(),
            loaded_roots: KeyMap::new(),
            recent: KeyMap::new(),
        }
    }

    /// Forgets everything.
    pub fn reset(&mut self)
        ensures
            final(self).files@ == Map::<Seq<char>, RepoFile>::empty(),
            final(self).children@ == Map::<Seq<char>, Vec<String>>::empty(),
            final(self).loaded_roots@ == Map::<Seq<char>, ()>::empty(),
            final(self).recent@ == Map::<Seq<char>, Vec<String>>::empty(),
    {
        *self = RepoFilesState::new();
    }
}

/// What a repository's cipher made of one remote file: the decrypted path of
/// the folder that holds it, its name, its size and its tags.
#[derive(Debug)]
pub struct FileDecryption {
    pub parent_path: Result<String, DecryptFilenameError>,
    pub name: Result<String, DecryptFilenameError>,
    pub size: Result<i64, DecryptSizeError>,
    pub tags: Option<Result<RepoFileTags, DecryptTagsError>>,
}

fn copy_name_result(r: &Result<String, DecryptFilenameError>) -> (c: Result<String, DecryptFilenameError>)
    ensures
        c == *r,
{
    match r {
        Ok(s) => Ok(s.clone()),
        Err(e) => Err(e.clone()),
    }
}

impl FileDecryption {
    /// A copy, with the tags' hashes copied by value.
    pub fn copy(&self) -> (r: Self)
        ensures
            r.parent_path == self.parent_path,
            r.name == self.name,
            r.size == self.size,
            tags_view(r.tags) == tags_view(self.tags),
    {
        let size = match &self.size {
            Ok(s) => Ok(*s),
            Err(e) => Err(e.clone()),
        };
        let tags = match &self.tags {
            Some(Ok(t)) => Some(Ok(t.copy())),
            Some(Err(e)) => Some(Err(e.clone())),
            None => None,
        };
        FileDecryption {
            parent_path: copy_name_result(&self.parent_path),
            name: copy_name_result(&self.name),
            size,
            tags,
        }
    }
}

/// The files that a mutation removed and moved, by repository and path.
#[derive(Debug)]
pub struct RepoFilesMutationState {
    pub removed_files: Vec<(String, String)>,
    pub moved_files: Vec<(String, String, String)>,
}

/// What to do when an uploaded file's name is taken.
#[derive(Debug)]
pub enum RepoFilesUploadConflictResolution {
    Overwrite {
        if_remote_size: Option<i64>,
        if_remote_modified: Option<i64>,
        if_remote_hash: Option<String>,
    },
    Error,
}

/// An uploaded file: its id, its name and the remote file it became.
#[derive(Debug)]
pub struct RepoFilesUploadResult {
    pub file_id: String,
    pub name: String,
    pub remote_file: RemoteFile,
}

#[derive(Clone, Copy, Debug, PartialEq, Eq, Structural)]
pub enum RepoFilesSortField {
    Name,
    Size,
    Modified,
}

#[derive(Clone, Copy, Debug, PartialEq, Eq, Structural)]
pub struct RepoFilesSort {
    pub field: RepoFilesSortField,
    pub direction: SortDirection,
    pub grouping: SortGrouping,
}


impl Clone for RepoFilePath {
    fn clone(&self) -> (r: Self)
        ensures
            r == *self,
    {
        match self {
            RepoFilePath::Decrypted { path } => RepoFilePath::Decrypted { path: path.clone() },
            RepoFilePath::DecryptError { error } => RepoFilePath::DecryptError { error: error.clone() },
        }
    }
}

impl Clone for RepoFileName {
    fn clone(&self) -> (r: Self)
        ensures
            r == *self,
    {
        match self {
            RepoFileName::Decrypted { name, name_lower } => RepoFileName::Decrypted {
                name: name.clone(),
                name_lower: name_lower.clone(),
            },
            RepoFileName::DecryptError { encrypted_name, encrypted_name_lower, error } =>
                RepoFileName::DecryptError {
                    encrypted_name: encrypted_name.clone(),
                    encrypted_name_lower: encrypted_name_lower.clone(),
                    error: error.clone(),
                },
        }
    }
}

impl Clone for RepoFileSize {
    fn clone(&self) -> (r: Self)
        ensures
            r == *self,
    {
        match self {
            RepoFileSize::Decrypted { size } => RepoFileSize::Decrypted { size: *size },
            RepoFileSize::DecryptError { encrypted_size, error } => RepoFileSize::DecryptError {
                encrypted_size: *encrypted_size,
                error: error.clone(),
            },
        }
    }
}

/// The tags of a file, with their hashes by value.
pub open spec fn tags_view(t: Option<Result<RepoFileTags, DecryptTagsError>>) -> Option<
    Result<(Option<Seq<u8>>, Option<Seq<u8>>), DecryptTagsError>,
> {
    match t {
        Some(Ok(tags)) => Some(Ok((opt_bytes_view(tags.encrypted_hash), opt_bytes_view(tags.hash)))),
        Some(Err(e)) => Some(Err(e)),
        None => None,
    }
}

/// Two files that hold the same values.
pub open spec fn same_file(a: RepoFile, b: RepoFile) -> bool {
    &&& a.id == b.id
    &&& a.mount_id == b.mount_id
    &&& a.remote_path == b.remote_path
    &&& a.repo_id == b.repo_id
    &&& a.encrypted_path == b.encrypted_path
    &&& a.path == b.path
    &&& a.name == b.name
    &&& a.ext == b.ext
    &&& a.content_type == b.content_type
    &&& a.typ == b.typ
    &&& a.size == b.size
    &&& a.modified == b.modified
    &&& tags_view(a.tags) == tags_view(b.tags)
    &&& a.unique_name == b.unique_name
    &&& a.remote_hash == b.remote_hash
    &&& a.category == b.category
}

fn copy_opt_string(o: &Option<String>) -> (r: Option<String>)
    ensures
        r == *o,
{
    match o {
        Some(s) => Some(s.clone()),
        None => None,
    }
}

impl RepoFile {
    /// A copy of the file.
    pub fn copy(&self) -> (r: RepoFile)
        ensures
            same_file(r, *self),
    {
        let size = match &self.size {
            Some(s) => Some(s.clone()),
            None => None,
        };
        let tags = match &self.tags {
            Some(Ok(t)) => Some(Ok(t.copy())),
            Some(Err(e)) => Some(Err(e.clone())),
            None => None,
        };
        RepoFile {
            id: self.id.clone(),
            mount_id: self.mount_id.clone(),
            remote_path: self.remote_path.clone(),
            repo_id: self.repo_id.clone(),
            encrypted_path: self.encrypted_path.clone(),
            path: self.path.clone(),
            name: self.name.clone(),
            ext: copy_opt_string(&self.ext),
            content_type: copy_opt_string(&self.content_type),
            typ: self.typ,
            size,
            modified: self.modified,
            tags,
            unique_name: self.unique_name.clone(),
            remote_hash: copy_opt_string(&self.remote_hash),
            category: self.category,
        }
    }
}

} // verus!
