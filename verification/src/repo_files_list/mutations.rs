//! Turning the entries of a recursive listing of a repository folder into
//! repository files.
use vstd::prelude::*;

use crate::cipher::{DecryptFilenameError, DecryptSizeError};
use crate::files::FileTypes;
use crate::paths::{is_root, join_path_name, join_paths, parent_path, root, spec_join_path_name, spec_join_paths, spec_parent_path};
use crate::remote_files::mutations::{files_file_to_remote_file, spec_listed_file};
use crate::remote_files::selectors::{get_file_id, spec_file_id};
use crate::remote_files::state::RemoteFile;
use crate::repo_files::mutations::{decrypt_file, spec_decrypted_file_ok};
use crate::repo_files::state::{FileCategory, RepoFile, RepoFileName, RepoFilePath, RepoFileType};
use crate::repo_files::selectors::{get_file_id as get_file_id_repo, get_file_unique_name, spec_repo_file_id};
use crate::repo_files::mutations::{remote_unique_id, spec_remote_unique_id};
use crate::repo_files_tags::errors::DecryptTagsError;
use crate::repo_files_tags::state::RepoFileTags;
use crate::strings::{copy_str, lowercase, to_lowercase};

use super::errors::FilesListRecursiveItemError;
use super::state::{FilesListRecursiveItem, RepoFilesListRecursiveItem};

verus! {

/// What the repository's cipher made of an entry: the path of its parent
/// relative to the listed folder, its name, its size and its tags.
#[derive(Debug)]
pub struct ItemDecryption {
    pub parent_path: Result<String, DecryptFilenameError>,
    pub name: Result<String, DecryptFilenameError>,
    pub size: Result<i64, DecryptSizeError>,
    pub tags: Option<Result<RepoFileTags, DecryptTagsError>>,
}

/// A path joined to another when both were decrypted, else the first error.
pub open spec fn spec_join_decrypted(
    a: Result<String, DecryptFilenameError>,
    b: Result<String, DecryptFilenameError>,
) -> Result<Seq<char>, DecryptFilenameError> {
    match (a, b) {
        (Ok(x), Ok(y)) => Ok(spec_join_paths(x@, y@)),
        (Err(e), _) => Err(e),
        (_, Err(e)) => Err(e),
    }
}

pub open spec fn result_view(r: Result<String, DecryptFilenameError>) -> Result<Seq<char>, DecryptFilenameError> {
    match r {
        Ok(s) => Ok(s@),
        Err(e) => Err(e),
    }
}

/// `r` is the entry `item` of a recursive listing of the repository folder at
/// `encrypted_root_path` (decrypted: `root_path`), stored at `root_remote_path`
/// of a mount.
pub open spec fn spec_item_ok(
    r: RepoFilesListRecursiveItem,
    mount_id: Seq<char>,
    root_remote_path: Seq<char>,
    repo_id: Seq<char>,
    encrypted_root_path: Seq<char>,
    root_repo_path: Result<String, DecryptFilenameError>,
    item: FilesListRecursiveItem,
    dec: ItemDecryption,
    types: FileTypes,
) -> bool {
    match item {
        FilesListRecursiveItem::File { path, file } => {
            let remote_path = spec_join_paths(root_remote_path, path@);
            r matches RepoFilesListRecursiveItem::File { relative_repo_path, file: rf } && exists|remote: RemoteFile|
                #[trigger] spec_listed_file(remote, spec_file_id(mount_id, lowercase(remote_path)), mount_id, remote_path, file)
                    && if path@ == crate::paths::root_path() {
                    spec_listing_root_ok(rf, repo_id, remote) && result_view(relative_repo_path) == Ok::<
                        Seq<char>,
                        DecryptFilenameError,
                    >(crate::paths::root_path())
                } else {
                    let enc_item_parent = spec_parent_path(path@).unwrap();
                    &&& exists|pp: Result<String, DecryptFilenameError>|
                        #[trigger] result_view(pp) == spec_join_decrypted(root_repo_path, dec.parent_path)
                            && spec_decrypted_file_ok(
                            rf,
                            repo_id,
                            spec_join_paths(encrypted_root_path, enc_item_parent),
                            pp,
                            remote,
                            dec.name,
                            dec.size,
                            dec.tags,
                            types,
                        )
                    &&& result_view(relative_repo_path) == match (dec.parent_path, rf.name) {
                        (Ok(p), RepoFileName::Decrypted { name, .. }) => Ok(spec_join_path_name(p@, name@)),
                        (Err(e), _) => Err(e),
                        (Ok(_), RepoFileName::DecryptError { error, .. }) => Err(error),
                    }
                }
        },
        FilesListRecursiveItem::Error { path, error } => r matches RepoFilesListRecursiveItem::Error {
            mount_id: m,
            remote_path,
            error: e,
        } && m@ == mount_id && e == FilesListRecursiveItemError::RemoteError(error) && match path {
            Some(p) => remote_path matches Some(rp) && rp@ == spec_join_paths(root_remote_path, p@),
            None => remote_path is None,
        },
    }
}

/// `r` is the root folder of repository `repo_id` as a recursive listing
/// gives it: stored in `remote_file`, with an empty name and no time.
pub open spec fn spec_listing_root_ok(r: RepoFile, repo_id: Seq<char>, remote_file: RemoteFile) -> bool {
    &&& r.id@ == spec_repo_file_id(repo_id, crate::paths::root_path())
    &&& r.mount_id == remote_file.mount_id
    &&& r.remote_path == remote_file.path
    &&& r.repo_id@ == repo_id
    &&& r.encrypted_path@ == crate::paths::root_path()
    &&& r.path matches RepoFilePath::Decrypted { path } && path@ == crate::paths::root_path()
    &&& r.name matches RepoFileName::Decrypted { name, name_lower } && name@ == Seq::<char>::empty()
        && name_lower@ == Seq::<char>::empty()
    &&& r.ext is None
    &&& r.content_type is None
    &&& r.typ == RepoFileType::Dir
    &&& r.size is None
    &&& r.modified is None
    &&& r.tags is None
    &&& r.unique_name@ == spec_remote_unique_id(remote_file)
    &&& r.remote_hash is None
    &&& r.category == FileCategory::Folder
}

/// The root folder of a repository as a recursive listing gives it.
fn listing_root_file(repo_id: &str, remote_file: &RemoteFile) -> (r: RepoFile)
    ensures
        spec_listing_root_ok(r, repo_id@, *remote_file),
{
    let root_path = root();
    let unique_id = remote_unique_id(remote_file);
    let unique_name = get_file_unique_name(unique_id.as_str(), None);
    RepoFile {
        id: get_file_id_repo(repo_id, root_path.as_str()),
        mount_id: remote_file.mount_id.clone(),
        remote_path: remote_file.path.clone(),
        repo_id: copy_str(repo_id),
        encrypted_path: root(),
        path: RepoFilePath::Decrypted { path: root() },
        name: RepoFileName::Decrypted { name: String::new(), name_lower: String::new() },
        ext: None,
        content_type: None,
        typ: RepoFileType::Dir,
        size: None,
        modified: None,
        tags: None,
        unique_name,
        remote_hash: None,
        category: FileCategory::Folder,
    }
}

/// One entry of a recursive listing of a repository folder, as a repository
/// file with its path relative to the folder; `dec` is what the repository's
/// cipher made of the entry.
pub fn decrypt_files_list_recursive_item(
    mount_id: &str,
    root_remote_path: &str,
    repo_id: &str,
    encrypted_root_path: &str,
    root_path: &Result<String, DecryptFilenameError>,
    item: FilesListRecursiveItem,
    dec: ItemDecryption,
    types: &FileTypes,
) -> (r: RepoFilesListRecursiveItem)
    requires
        item matches FilesListRecursiveItem::File { path, .. } ==> path@ == crate::paths::root_path()
            || spec_parent_path(path@) is Some,
    ensures
        spec_item_ok(r, mount_id@, root_remote_path@, repo_id@, encrypted_root_path@, *root_path, item, dec, *types),
{
    let ghost item0 = item;
    let ghost dec0 = dec;
    match item {
        FilesListRecursiveItem::File { path: item_path, file } => {
            let ghost file0 = file;
            let remote_path = join_paths(root_remote_path, item_path.as_str());
            let lower = to_lowercase(remote_path.as_str());
            let remote_file_id = get_file_id(mount_id, lower.as_str());
            let remote_file = files_file_to_remote_file(
                remote_file_id,
                copy_str(mount_id),
                copy_str(remote_path.as_str()),
                file,
            );
            if is_root(item_path.as_str()) {
                let rf = listing_root_file(repo_id, &remote_file);
                let rel: Result<String, DecryptFilenameError> = Ok(root());
                RepoFilesListRecursiveItem::File { relative_repo_path: rel, file: rf }
            } else {
                let enc_item_parent = parent_path(item_path.as_str()).unwrap();
                let encrypted_parent_path = join_paths(encrypted_root_path, enc_item_parent.as_str());
                let parent: Result<String, DecryptFilenameError> = match (root_path, &dec.parent_path) {
                    (Ok(rp), Ok(dp)) => Ok(join_paths(rp.as_str(), dp.as_str())),
                    (Err(e), _) => Err(e.clone()),
                    (_, Err(e)) => Err(e.clone()),
                };
                let ItemDecryption { parent_path: dec_parent, name, size, tags } = dec;
                let rf = decrypt_file(
                    repo_id,
                    encrypted_parent_path.as_str(),
                    &parent,
                    &remote_file,
                    name,
                    size,
                    tags,
                    types,
                );
                let rel: Result<String, DecryptFilenameError> = match (&dec_parent, rf.decrypted_name()) {
                    (Ok(p), Ok(n)) => Ok(join_path_name(p.as_str(), n.as_str())),
                    (Err(e), _) => Err(e.clone()),
                    (_, Err(e)) => Err(e),
                };
                proof {
                    assert(result_view(parent) == spec_join_decrypted(*root_path, dec0.parent_path));
                }
                RepoFilesListRecursiveItem::File { relative_repo_path: rel, file: rf }
            }
        },
        FilesListRecursiveItem::Error { path, error } => {
            let remote_path = match &path {
                Some(p) => Some(join_paths(root_remote_path, p.as_str())),
                None => None,
            };
            RepoFilesListRecursiveItem::Error {
                mount_id: copy_str(mount_id),
                remote_path,
                error: FilesListRecursiveItemError::RemoteError(error),
            }
        },
    }
}

} // verus!
