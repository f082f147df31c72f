//! Building repository files from the remote files that store them, and
//! keeping the tree of repository files in order.
use vstd::prelude::*;
use vstd::string::*;

use crate::cipher::{DecryptFilenameError, DecryptSizeError};
use crate::common::{SortDirection, SortGrouping};
use crate::files::{spec_name_to_ext, FileTypes};
use crate::paths::{is_root, join_path_name, parent_path, root, root_path, spec_join_path_name, spec_parent_path};
use crate::remote_files::selectors::{get_file_unique_id, spec_file_unique_id};
use crate::remote_files::selectors::{ids_contain, spec_children_files, spec_file_id};
use crate::remote_files::state::{copy_ids, RemoteFile, RemoteFileType, RemoteFilesMutationState, RemoteFilesState};
use crate::keymap::KeyMap;
use crate::repo_files_tags::errors::DecryptTagsError;
use crate::repo_files_tags::state::RepoFileTags;
use crate::common::{Event, Notify};
use crate::repos::{repo_tree_get, spec_repo_tree_get, Repo, RepoState, ReposState};
use crate::store::{same_but_repo_files, MutationState, State};
use crate::strings::{concat, copy_str, ends_with_char, lowercase, to_lowercase};

use super::selectors::{
    get_file_ext_content_type_category, get_file_id, get_file_unique_name, opt_string_view, select_sorted_files,
    sorted_files_ok, spec_ext_category, spec_repo_file_id,
};
use super::state::{
    tags_view, FileCategory, FileDecryption, RepoFile, RepoFileName, RepoFilePath, RepoFileSize, RepoFileType, RepoFilesSort,
    RepoFilesSortField, RepoFilesState,
};
use crate::remote_files::state::id_views;

verus! {

/// How children are kept: folders first, then by name.
pub open spec fn default_sort() -> RepoFilesSort {
    RepoFilesSort { field: RepoFilesSortField::Name, direction: SortDirection::Asc, grouping: SortGrouping::DirsFirst }
}

/// The unique id of a remote file: what changes whenever its content may have.
pub open spec fn spec_remote_unique_id(f: RemoteFile) -> Seq<char> {
    spec_file_unique_id(f.mount_id@, lowercase(f.path@), f.size, f.modified, opt_string_view(f.hash))
}

pub(crate) fn remote_unique_id(f: &RemoteFile) -> (r: String)
    ensures
        r@ == spec_remote_unique_id(*f),
{
    let lower = to_lowercase(f.path.as_str());
    let hash = match &f.hash {
        Some(h) => Some(h.as_str()),
        None => None,
    };
    get_file_unique_id(f.mount_id.as_str(), lower.as_str(), f.size, f.modified, hash)
}

fn clone_opt_string(o: &Option<String>) -> (r: Option<String>)
    ensures
        r == *o,
{
    match o {
        Some(s) => Some(s.clone()),
        None => None,
    }
}

/// `r` is the root folder of `repo`, stored in `remote_file`.
pub open spec fn spec_root_file_ok(r: RepoFile, repo: Repo, remote_file: RemoteFile) -> bool {
    &&& r.id@ == spec_repo_file_id(repo.id@, root_path())
    &&& r.mount_id == remote_file.mount_id
    &&& r.remote_path == remote_file.path
    &&& r.repo_id == repo.id
    &&& r.encrypted_path@ == root_path()
    &&& r.path matches RepoFilePath::Decrypted { path } && path@ == root_path()
    &&& r.name matches RepoFileName::Decrypted { name, name_lower } && name == repo.name && name_lower@ == lowercase(
        repo.name@,
    )
    &&& r.ext is None
    &&& r.content_type is None
    &&& r.typ == RepoFileType::Dir
    &&& r.size is None
    &&& r.modified == Some(repo.added)
    &&& r.tags is None
    &&& r.unique_name@ == spec_remote_unique_id(remote_file)
    &&& r.remote_hash is None
    &&& r.category == FileCategory::Folder
}

/// The root folder of a repository: named after the repository, dated when
/// the repository was added.
pub fn get_root_file(repo: &Repo, remote_file: &RemoteFile) -> (r: RepoFile)
    ensures
        spec_root_file_ok(r, *repo, *remote_file),
{
    let unique_id = remote_unique_id(remote_file);
    let unique_name = get_file_unique_name(unique_id.as_str(), None);
    let name_lower = to_lowercase(repo.name.as_str());
    let root_path = root();
    RepoFile {
        id: get_file_id(repo.id.as_str(), root_path.as_str()),
        mount_id: remote_file.mount_id.clone(),
        remote_path: remote_file.path.clone(),
        repo_id: repo.id.clone(),
        encrypted_path: root(),
        path: RepoFilePath::Decrypted { path: root() },
        name: RepoFileName::Decrypted { name: repo.name.clone(), name_lower },
        ext: None,
        content_type: None,
        typ: RepoFileType::Dir,
        size: None,
        modified: Some(repo.added),
        tags: None,
        unique_name,
        remote_hash: None,
        category: FileCategory::Folder,
    }
}

/// The name of a repository file stored in `remote_file`, from what the
/// repository's cipher made of the encrypted name.
pub open spec fn spec_name_ok(
    name: RepoFileName,
    remote_file: RemoteFile,
    decrypted_name: Result<String, DecryptFilenameError>,
) -> bool {
    match decrypted_name {
        Ok(n) => name matches RepoFileName::Decrypted { name: nm, name_lower } && nm == n && name_lower@ == lowercase(
            n@,
        ),
        Err(e) => match e {
            DecryptFilenameError::DecryptFilenameError { .. } => name == RepoFileName::DecryptError {
                encrypted_name: remote_file.name,
                encrypted_name_lower: remote_file.name_lower,
                error: e,
            },
            DecryptFilenameError::InvalidNameError { escaped_name, .. } => name matches RepoFileName::DecryptError {
                encrypted_name,
                encrypted_name_lower,
                error,
            } && encrypted_name == escaped_name && encrypted_name_lower@ == lowercase(escaped_name@) && error == e,
        },
    }
}

/// The decrypted path of a file: its name inside its decrypted parent, or the
/// first of the errors of the parent and of the name.
pub open spec fn spec_path_ok(path: RepoFilePath, parent_path: Result<String, DecryptFilenameError>, name: RepoFileName) -> bool {
    match (parent_path, name) {
        (Ok(pp), RepoFileName::Decrypted { name: n, .. }) => path matches RepoFilePath::Decrypted { path: p } && p@
            == spec_join_path_name(pp@, n@),
        (Err(err), _) => path == RepoFilePath::DecryptError { error: err },
        (Ok(_), RepoFileName::DecryptError { error, .. }) => path == RepoFilePath::DecryptError { error },
    }
}

/// The extension of a repository file and the category of its content.
pub open spec fn spec_ext_ok(
    ext: Option<Seq<char>>,
    content_type: Option<Seq<char>>,
    category: FileCategory,
    typ: RemoteFileType,
    name: RepoFileName,
    types: FileTypes,
) -> bool {
    match typ {
        RemoteFileType::Dir => ext is None && content_type is None && category == FileCategory::Folder,
        RemoteFileType::File => match name {
            RepoFileName::Decrypted { name_lower, .. } => {
                let e = spec_name_to_ext(name_lower@);
                &&& ext == e
                &&& content_type == match e {
                    Some(x) => types.spec_content_type(x),
                    None => None,
                }
                &&& category == spec_ext_category(types, e)
            },
            RepoFileName::DecryptError { .. } => ext is None && content_type is None && category
                == FileCategory::Generic,
        },
    }
}

/// `r` is the repository file stored in `remote_file`, a child of the folder
/// at `encrypted_parent_path`, from what the repository's cipher decrypted.
pub open spec fn spec_decrypted_file_ok(
    r: RepoFile,
    repo_id: Seq<char>,
    encrypted_parent_path: Seq<char>,
    parent_path: Result<String, DecryptFilenameError>,
    remote_file: RemoteFile,
    decrypted_name: Result<String, DecryptFilenameError>,
    decrypted_size: Result<i64, DecryptSizeError>,
    tags: Option<Result<RepoFileTags, DecryptTagsError>>,
    types: FileTypes,
) -> bool {
    &&& (r.encrypted_path@ == spec_join_path_name(encrypted_parent_path, remote_file.name@))
    &&& (r.id@ == spec_repo_file_id(repo_id, r.encrypted_path@))
    &&& (r.mount_id == remote_file.mount_id)
    &&& (r.remote_path == remote_file.path)
    &&& (r.repo_id@ == repo_id)
    &&& (spec_name_ok(r.name, remote_file, decrypted_name))
    &&& (spec_path_ok(r.path, parent_path, r.name))
    &&& r.size == match remote_file.size {
        Some(s) => Some(
            match decrypted_size {
                Ok(d) => RepoFileSize::Decrypted { size: d },
                Err(e) => RepoFileSize::DecryptError { encrypted_size: s, error: e },
            },
        ),
        None => None,
    }
    &&& (tags_view(r.tags) == tags_view(tags))
    &&& spec_ext_ok(
        opt_string_view(r.ext),
        opt_string_view(r.content_type),
        r.category,
        remote_file.typ,
        r.name,
        types,
    )
    &&& r.typ == match remote_file.typ {
        RemoteFileType::Dir => RepoFileType::Dir,
        RemoteFileType::File => RepoFileType::File,
    }
    &&& (r.modified == remote_file.modified)
    &&& r.unique_name@ == match r.ext {
        Some(e) => spec_remote_unique_id(remote_file) + seq!['.'] + e@,
        None => spec_remote_unique_id(remote_file),
    }
    &&& (r.remote_hash == remote_file.hash)
}

/// The repository file stored in `remote_file`, a child of the folder at
/// `encrypted_parent_path`. The repository's cipher decrypted the parent's
/// path (`parent_path`), the file's name (`decrypted_name`), its size
/// (`decrypted_size`, used only when the remote size is known) and its tags.
pub fn decrypt_file(
    repo_id: &str,
    encrypted_parent_path: &str,
    parent_path: &Result<String, DecryptFilenameError>,
    remote_file: &RemoteFile,
    decrypted_name: Result<String, DecryptFilenameError>,
    decrypted_size: Result<i64, DecryptSizeError>,
    tags: Option<Result<RepoFileTags, DecryptTagsError>>,
    types: &FileTypes,
) -> (r: RepoFile)
    ensures
        spec_decrypted_file_ok(
            r,
            repo_id@,
            encrypted_parent_path@,
            *parent_path,
            *remote_file,
            decrypted_name,
            decrypted_size,
            tags,
            *types,
        ),
{
    let encrypted_path = join_path_name(encrypted_parent_path, remote_file.name.as_str());
    let id = get_file_id(repo_id, encrypted_path.as_str());
    let name = match decrypted_name {
        Ok(name) => {
            let name_lower = to_lowercase(name.as_str());
            RepoFileName::Decrypted { name, name_lower }
        },
        Err(e) => {
            let escaped = match &e {
                DecryptFilenameError::DecryptFilenameError { .. } => None,
                DecryptFilenameError::InvalidNameError { escaped_name, .. } => Some(escaped_name.clone()),
            };
            match escaped {
                None => RepoFileName::DecryptError {
                    encrypted_name: remote_file.name.clone(),
                    encrypted_name_lower: remote_file.name_lower.clone(),
                    error: e,
                },
                Some(escaped_name) => {
                    let encrypted_name_lower = to_lowercase(escaped_name.as_str());
                    RepoFileName::DecryptError { encrypted_name: escaped_name, encrypted_name_lower, error: e }
                },
            }
        },
    };
    let path = match (parent_path, &name) {
        (Ok(parent_path), RepoFileName::Decrypted { name, .. }) => RepoFilePath::Decrypted {
            path: join_path_name(parent_path.as_str(), name.as_str()),
        },
        (Err(err), _) => RepoFilePath::DecryptError { error: err.clone() },
        (_, RepoFileName::DecryptError { error, .. }) => RepoFilePath::DecryptError { error: error.clone() },
    };
    let size = match remote_file.size {
        Some(s) => Some(
            match decrypted_size {
                Ok(d) => RepoFileSize::Decrypted { size: d },
                Err(e) => RepoFileSize::DecryptError { encrypted_size: s, error: e },
            },
        ),
        None => None,
    };
    let (ext, content_type, category) = match remote_file.typ {
        RemoteFileType::File => match &name {
            RepoFileName::Decrypted { name_lower, .. } => get_file_ext_content_type_category(
                name_lower.as_str(),
                types,
            ),
            RepoFileName::DecryptError { .. } => (None, None, FileCategory::Generic),
        },
        RemoteFileType::Dir => (None, None, FileCategory::Folder),
    };
    let unique_id = remote_unique_id(remote_file);
    let unique_name = match &ext {
        Some(e) => get_file_unique_name(unique_id.as_str(), Some(e.as_str())),
        None => get_file_unique_name(unique_id.as_str(), None),
    };
    RepoFile {
        id,
        mount_id: remote_file.mount_id.clone(),
        remote_path: remote_file.path.clone(),
        repo_id: copy_str(repo_id),
        encrypted_path,
        path,
        name,
        ext,
        content_type,
        typ: RepoFileType::from_remote_type(&remote_file.typ),
        size,
        modified: remote_file.modified,
        tags,
        unique_name,
        remote_hash: clone_opt_string(&remote_file.hash),
        category,
    }
}

/// The id of the repository file stored in `f` at `encrypted_path` of `repo`:
/// the root for the root path, else the name of `f` inside the parent path.
pub open spec fn spec_path_file_id(repo_id: Seq<char>, encrypted_path: Seq<char>, f: RemoteFile) -> Seq<char> {
    if encrypted_path == root_path() {
        spec_repo_file_id(repo_id, root_path())
    } else {
        spec_repo_file_id(repo_id, spec_join_path_name(spec_parent_path(encrypted_path).unwrap(), f.name@))
    }
}

/// `r` is the repository file stored in `f` at `encrypted_path` of `repo`.
pub open spec fn spec_path_file_ok(
    r: RepoFile,
    repo: Repo,
    encrypted_path: Seq<char>,
    f: RemoteFile,
    dec: FileDecryption,
    types: FileTypes,
) -> bool {
    if encrypted_path == root_path() {
        spec_root_file_ok(r, repo, f)
    } else {
        spec_decrypted_file_ok(
            r,
            repo.id@,
            spec_parent_path(encrypted_path).unwrap(),
            dec.parent_path,
            f,
            dec.name,
            dec.size,
            dec.tags,
            types,
        )
    }
}

/// The repository file stored in `remote_file` at `encrypted_path` of `repo`:
/// the repository's root folder for the root path, else the file decrypted
/// inside its parent folder (`dec` is what the cipher made of it).
pub fn decrypt_file_path(
    repo: &Repo,
    encrypted_path: &str,
    remote_file: &RemoteFile,
    dec: &FileDecryption,
    types: &FileTypes,
) -> (r: RepoFile)
    requires
        encrypted_path@ != root_path() ==> spec_parent_path(encrypted_path@) is Some,
    ensures
        spec_path_file_ok(r, *repo, encrypted_path@, *remote_file, *dec, *types),
        r.id@ == spec_path_file_id(repo.id@, encrypted_path@, *remote_file),
{
    if is_root(encrypted_path) {
        get_root_file(repo, remote_file)
    } else {
        let encrypted_parent_path = match parent_path(encrypted_path) {
            Some(p) => p,
            None => {
                return get_root_file(repo, remote_file);
            },
        };
        let d = dec.copy();
        decrypt_file(
            repo.id.as_str(),
            encrypted_parent_path.as_str(),
            &d.parent_path,
            remote_file,
            d.name,
            d.size,
            d.tags,
            types,
        )
    }
}

/// The id of the repository file stored in `f` at `encrypted_path` of `repo`.
fn path_file_id(repo_id: &str, encrypted_path: &str, f: &RemoteFile) -> (r: String)
    requires
        encrypted_path@ != root_path() ==> spec_parent_path(encrypted_path@) is Some,
    ensures
        r@ == spec_path_file_id(repo_id@, encrypted_path@, *f),
{
    if is_root(encrypted_path) {
        let p = root();
        get_file_id(repo_id, p.as_str())
    } else {
        match parent_path(encrypted_path) {
            Some(p) => {
                let path = join_path_name(p.as_str(), f.name.as_str());
                get_file_id(repo_id, path.as_str())
            },
            None => {
                let p = root();
                get_file_id(repo_id, p.as_str())
            },
        }
    }
}

/// The ids of the children of a folder at `encrypted_path` that get
/// decrypted: each listed remote file that is known and has a decryption,
/// named inside the folder, in the listed order.
pub open spec fn spec_new_child_ids(
    rf: RemoteFilesState,
    decs: Map<Seq<char>, FileDecryption>,
    repo_id: Seq<char>,
    encrypted_path: Seq<char>,
    ids: Seq<Seq<char>>,
) -> Seq<Seq<char>>
    decreases ids.len(),
{
    if ids.len() == 0 {
        Seq::empty()
    } else {
        let prev = spec_new_child_ids(rf, decs, repo_id, encrypted_path, ids.drop_last());
        let c = ids.last();
        if rf.files@.contains_key(c) && decs.contains_key(c) {
            prev.push(spec_repo_file_id(repo_id, spec_join_path_name(encrypted_path, rf.files@[c].name@)))
        } else {
            prev
        }
    }
}

/// `file` is the child with id `k` of the folder at `encrypted_path`: the
/// decryption of one of the listed remote files `ids`.
pub open spec fn spec_child_decrypted(
    rf: RemoteFilesState,
    decs: Map<Seq<char>, FileDecryption>,
    repo_id: Seq<char>,
    encrypted_path: Seq<char>,
    ids: Seq<Seq<char>>,
    types: FileTypes,
    k: Seq<char>,
    file: RepoFile,
) -> bool {
    exists|j: int|
        0 <= j < ids.len() && rf.files@.contains_key(ids[j]) && decs.contains_key(ids[j]) && k
            == spec_repo_file_id(repo_id, spec_join_path_name(encrypted_path, rf.files@[ids[j]].name@))
            && #[trigger] spec_decrypted_file_ok(
            file,
            repo_id,
            encrypted_path,
            decs[ids[j]].parent_path,
            rf.files@[ids[j]],
            decs[ids[j]].name,
            decs[ids[j]].size,
            decs[ids[j]].tags,
            types,
        )
}

/// Decrypts the listed children `ids` of the folder at `encrypted_path` and
/// stores them; hands back their ids in the listed order.
fn insert_children(
    remote_files: &RemoteFilesState,
    repo_files: &mut RepoFilesState,
    repo_id: &str,
    encrypted_path: &str,
    ids: &Vec<String>,
    decryptions: &KeyMap<String, FileDecryption>,
    types: &FileTypes,
) -> (r: Vec<String>)
    ensures
        id_views(r@) == spec_new_child_ids(*remote_files, decryptions@, repo_id@, encrypted_path@, id_views(ids@)),
        final(repo_files).children == old(repo_files).children,
        final(repo_files).loaded_roots == old(repo_files).loaded_roots,
        final(repo_files).recent == old(repo_files).recent,
        forall|k: Seq<char>| #[trigger] final(repo_files).files@.contains_key(k) == (old(repo_files).files@.contains_key(k)
            || id_views(r@).contains(k)),
        forall|k: Seq<char>| #[trigger] final(repo_files).files@.contains_key(k) && !id_views(r@).contains(k)
            ==> final(repo_files).files@[k] == old(repo_files).files@[k],
        forall|k: Seq<char>| #[trigger] id_views(r@).contains(k) ==> spec_child_decrypted(
            *remote_files,
            decryptions@,
            repo_id@,
            encrypted_path@,
            id_views(ids@),
            *types,
            k,
            final(repo_files).files@[k],
        ),
{
    let ghost all = id_views(ids@);
    let mut r: Vec<String> = Vec::new();
    let n = ids.len();
    let mut i: usize = 0;
    while i < n
        invariant
            n == ids.len(),
            i <= n,
            all == id_views(ids@),
            id_views(r@) == spec_new_child_ids(*remote_files, decryptions@, repo_id@, encrypted_path@, all.subrange(0, i as int)),
            repo_files.children == old(repo_files).children,
            repo_files.loaded_roots == old(repo_files).loaded_roots,
            repo_files.recent == old(repo_files).recent,
            forall|k: Seq<char>| #[trigger] repo_files.files@.contains_key(k) == (old(repo_files).files@.contains_key(k)
                || id_views(r@).contains(k)),
            forall|k: Seq<char>| #[trigger] repo_files.files@.contains_key(k) && !id_views(r@).contains(k)
                ==> repo_files.files@[k] == old(repo_files).files@[k],
            forall|k: Seq<char>| #[trigger] id_views(r@).contains(k) ==> spec_child_decrypted(
                *remote_files,
                decryptions@,
                repo_id@,
                encrypted_path@,
                all,
                *types,
                k,
                repo_files.files@[k],
            ),
        decreases n - i,
    {
        proof {
            assert(all.subrange(0, i + 1).drop_last() =~= all.subrange(0, i as int));
        }
        let c = &ids[i];
        let ghost cv = c@;
        assert(all[i as int] == cv);
        match remote_files.files.get(c) {
            Some(f) => match decryptions.get(c) {
                Some(d) => {
                    let dd = d.copy();
                    let child = decrypt_file(
                        repo_id,
                        encrypted_path,
                        &dd.parent_path,
                        f,
                        dd.name,
                        dd.size,
                        dd.tags,
                        types,
                    );
                    let ghost kn = child.id@;
                    proof {
                        assert(spec_decrypted_file_ok(
                            child,
                            repo_id@,
                            encrypted_path@,
                            decryptions@[all[i as int]].parent_path,
                            remote_files.files@[all[i as int]],
                            decryptions@[all[i as int]].name,
                            decryptions@[all[i as int]].size,
                            decryptions@[all[i as int]].tags,
                            *types,
                        ));
                    }
                    let ghost old_r = id_views(r@);
                    let ghost old_files = repo_files.files@;
                    r.push(child.id.clone());
                    repo_files.files.insert(child.id.clone(), child);
                    proof {
                        assert(id_views(r@) =~= old_r.push(kn));
                        assert forall|k: Seq<char>| #[trigger] id_views(r@).contains(k) implies spec_child_decrypted(
                            *remote_files,
                            decryptions@,
                            repo_id@,
                            encrypted_path@,
                            all,
                            *types,
                            k,
                            repo_files.files@[k],
                        ) by {
                            if k == kn {
                                assert(repo_files.files@[k] == child);
                            } else {
                                let j = choose|j: int| 0 <= j < old_r.len() && old_r[j] == k;
                                assert(old_r.contains(k));
                            }
                        }
                        assert forall|k: Seq<char>| #[trigger] repo_files.files@.contains_key(k) == (old(repo_files).files@.contains_key(k)
                            || id_views(r@).contains(k)) by {
                            if k != kn {
                                assert(id_views(r@).contains(k) == old_r.contains(k)) by {
                                    if old_r.contains(k) {
                                        let j = choose|j: int| 0 <= j < old_r.len() && old_r[j] == k;
                                        assert(id_views(r@)[j] == k);
                                    }
                                }
                            } else {
                                assert(id_views(r@)[old_r.len() as int] == k);
                            }
                        }
                        assert forall|k: Seq<char>| #[trigger] repo_files.files@.contains_key(k) && !id_views(r@).contains(k)
                            implies repo_files.files@[k] == old(repo_files).files@[k] by {
                            assert(k != kn) by {
                                assert(id_views(r@)[old_r.len() as int] == kn);
                            }
                            if old_r.contains(k) {
                                let j = choose|j: int| 0 <= j < old_r.len() && old_r[j] == k;
                                assert(id_views(r@)[j] == k);
                            }
                        }
                    }
                },
                None => {},
            },
            None => {},
        }
        i = i + 1;
    }
    proof {
        assert(all.subrange(0, n as int) =~= all);
    }
    r
}

/// Whether `k` is under one of the old children `olds` that is not kept.
pub open spec fn spec_gone(olds: Seq<Seq<char>>, kept: Seq<Seq<char>>, k: Seq<char>) -> bool {
    exists|j: int| 0 <= j < olds.len() && !kept.contains(olds[j]) && #[trigger] in_subtree(olds[j], k)
}

/// Forgets each old child that is not kept, with the files under it.
fn cleanup_removed_children(repo_files: &mut RepoFilesState, olds: &Vec<String>, kept: &Vec<String>)
    ensures
        forall|k: Seq<char>| #[trigger] final(repo_files).files@.contains_key(k) == (old(repo_files).files@.contains_key(k)
            && !spec_gone(id_views(olds@), id_views(kept@), k)),
        forall|k: Seq<char>| #[trigger] final(repo_files).files@.contains_key(k) ==> final(repo_files).files@[k] == old(repo_files).files@[k],
        forall|k: Seq<char>| #[trigger] final(repo_files).children@.contains_key(k) == (old(repo_files).children@.contains_key(k)
            && !spec_gone(id_views(olds@), id_views(kept@), k)),
        forall|k: Seq<char>| #[trigger] final(repo_files).children@.contains_key(k) ==> final(repo_files).children@[k] == old(repo_files).children@[k],
        final(repo_files).loaded_roots@ == old(repo_files).loaded_roots@,
        final(repo_files).recent@ == old(repo_files).recent@,
{
    let ghost ov = id_views(olds@);
    let ghost kv = id_views(kept@);
    let n = olds.len();
    let mut i: usize = 0;
    while i < n
        invariant
            n == olds.len(),
            i <= n,
            ov == id_views(olds@),
            kv == id_views(kept@),
            forall|k: Seq<char>| #[trigger] repo_files.files@.contains_key(k) == (old(repo_files).files@.contains_key(k)
                && !spec_gone(ov.subrange(0, i as int), kv, k)),
            forall|k: Seq<char>| #[trigger] repo_files.files@.contains_key(k) ==> repo_files.files@[k] == old(repo_files).files@[k],
            forall|k: Seq<char>| #[trigger] repo_files.children@.contains_key(k) == (old(repo_files).children@.contains_key(k)
                && !spec_gone(ov.subrange(0, i as int), kv, k)),
            forall|k: Seq<char>| #[trigger] repo_files.children@.contains_key(k) ==> repo_files.children@[k] == old(repo_files).children@[k],
            repo_files.loaded_roots@ == old(repo_files).loaded_roots@,
            repo_files.recent@ == old(repo_files).recent@,
        decreases n - i,
    {
        let o = &olds[i];
        let keep = ids_contain(kept, o);
        let ghost prev = ov.subrange(0, i as int);
        let ghost next = ov.subrange(0, i + 1);
        assert(next[i as int] == o@);
        if !keep {
            cleanup_file(repo_files, o.as_str());
        }
        proof {
            assert forall|k: Seq<char>| spec_gone(next, kv, k) == (spec_gone(prev, kv, k) || (!keep && in_subtree(o@, k))) by {
                if spec_gone(next, kv, k) {
                    let j = choose|j: int| 0 <= j < next.len() && !kv.contains(next[j]) && #[trigger] in_subtree(next[j], k);
                    if j < i {
                        assert(prev[j] == next[j]);
                    }
                }
                if spec_gone(prev, kv, k) {
                    let j = choose|j: int| 0 <= j < prev.len() && !kv.contains(prev[j]) && #[trigger] in_subtree(prev[j], k);
                    assert(next[j] == prev[j]);
                }
                if !keep && in_subtree(o@, k) {
                    assert(in_subtree(next[i as int], k));
                }
            }
        }
        i = i + 1;
    }
    proof {
        assert(ov.subrange(0, n as int) =~= ov);
    }
}

/// `new` is `old` after decrypting the folder stored at `remote_path` of
/// `mount_id`, at `encrypted_path` of `repo`: the folder's file is stored (the
/// repository's root, or its decryption when the table has one), then its
/// listed children, whose list replaces the old one, sorted folders first by
/// name; the old children that are gone are forgotten with the files under
/// them, and a loaded remote folder makes the folder loaded. A remote folder
/// that is not known makes the file at `encrypted_path` forgotten.
pub open spec fn spec_files_decrypted(
    old: RepoFilesState,
    new: RepoFilesState,
    rf: RemoteFilesState,
    mount_id: Seq<char>,
    remote_path: Seq<char>,
    repo: Repo,
    encrypted_path: Seq<char>,
    decs: Map<Seq<char>, FileDecryption>,
    types: FileTypes,
) -> bool {
    let rid = spec_file_id(mount_id, lowercase(remote_path));
    if !rf.files@.contains_key(rid) {
        &&& new.files@ == old.files@.remove(spec_repo_file_id(repo.id@, encrypted_path))
        &&& new.children@ == old.children@
        &&& new.loaded_roots@ == old.loaded_roots@
        &&& new.recent@ == old.recent@
    } else {
        let f = rf.files@[rid];
        let fid = spec_path_file_id(repo.id@, encrypted_path, f);
        let has_root = encrypted_path == root_path() || decs.contains_key(rid);
        let listed = rf.children@.contains_key(rid);
        let ids = if listed {
            id_views(rf.children@[rid]@)
        } else {
            Seq::empty()
        };
        let n = spec_new_child_ids(rf, decs, repo.id@, encrypted_path, ids);
        let olds = if listed && old.children@.contains_key(fid) {
            id_views(old.children@[fid]@)
        } else {
            Seq::empty()
        };
        &&& forall|k: Seq<char>| #[trigger] new.files@.contains_key(k) == ((old.files@.contains_key(k) || (has_root && k
            == fid) || n.contains(k)) && !spec_gone(olds, n, k))
        &&& forall|k: Seq<char>| #[trigger] new.files@.contains_key(k) ==> if n.contains(k) {
            spec_child_decrypted(rf, decs, repo.id@, encrypted_path, ids, types, k, new.files@[k])
        } else if has_root && k == fid {
            spec_path_file_ok(new.files@[k], repo, encrypted_path, f, decs[rid], types)
        } else {
            new.files@[k] == old.files@[k]
        }
        &&& if listed {
            &&& forall|k: Seq<char>| #[trigger] new.children@.contains_key(k) == (k == fid || (old.children@.contains_key(k)
                && !spec_gone(olds, n, k)))
            &&& forall|k: Seq<char>| k != fid && #[trigger] new.children@.contains_key(k) ==> new.children@[k]
                == old.children@[k]
            &&& sorted_files_ok(new.files@, n, default_sort(), id_views(new.children@[fid]@))
        } else {
            new.children@ == old.children@
        }
        &&& new.loaded_roots@ == if rf.loaded_roots@.contains_key(rid) {
            old.loaded_roots@.insert(fid, ())
        } else {
            old.loaded_roots@
        }
        &&& new.recent@ == old.recent@
    }
}

/// Decrypts the folder stored at `remote_path` of `mount_id`, which is
/// `encrypted_path` of `repo`, and its listed children (see
/// `spec_files_decrypted`). `decryptions` holds, by remote file id, what the
/// repository's cipher made of each remote file; a file without one is left
/// out.
pub fn decrypt_files(
    remote_files: &RemoteFilesState,
    repo_files: &mut RepoFilesState,
    mount_id: &str,
    remote_path: &str,
    repo: &Repo,
    encrypted_path: &str,
    decryptions: &KeyMap<String, FileDecryption>,
    types: &FileTypes,
)
    requires
        encrypted_path@ != root_path() ==> spec_parent_path(encrypted_path@) is Some,
    ensures
        spec_files_decrypted(
            *old(repo_files),
            *final(repo_files),
            *remote_files,
            mount_id@,
            remote_path@,
            *repo,
            encrypted_path@,
            decryptions@,
            *types,
        ),
{
    let lower = to_lowercase(remote_path);
    let rid = crate::remote_files::selectors::get_file_id(mount_id, lower.as_str());
    match remote_files.files.get(&rid) {
        None => {
            let fid = get_file_id(repo.id.as_str(), encrypted_path);
            repo_files.files.remove(&fid);
        },
        Some(f) => {
            let fid = path_file_id(repo.id.as_str(), encrypted_path, f);
            let root_file = if is_root(encrypted_path) {
                Some(get_root_file(repo, f))
            } else {
                match decryptions.get(&rid) {
                    Some(d) => Some(decrypt_file_path(repo, encrypted_path, f, d, types)),
                    None => None,
                }
            };
            let ghost has_root = root_file is Some;
            match root_file {
                Some(file) => {
                    repo_files.files.insert(fid.clone(), file);
                },
                None => {},
            }
            let ghost rf1 = *repo_files;
            match remote_files.children.get(&rid) {
                Some(ids) => {
                    let new_ids = insert_children(
                        remote_files,
                        repo_files,
                        repo.id.as_str(),
                        encrypted_path,
                        ids,
                        decryptions,
                        types,
                    );
                    let ghost rf2 = *repo_files;
                    let olds: Vec<String> = match repo_files.children.get(&fid) {
                        Some(c) => copy_ids(c),
                        None => Vec::new(),
                    };
                    proof {
                        if !old(repo_files).children@.contains_key(fid@) {
                            assert(id_views(olds@) =~= Seq::<Seq<char>>::empty());
                        }
                    }
                    cleanup_removed_children(repo_files, &olds, &new_ids);
                    let ghost rf3 = *repo_files;
                    let ghost nv = id_views(new_ids@);
                    repo_files.children.insert(fid.clone(), new_ids);
                    sort_children(repo_files, &fid);
                    proof {
                        assert(repo_files.children@.dom() =~= rf3.children@.dom().insert(fid@));
                    }
                },
                None => {},
            }
            if remote_files.loaded_roots.contains_key(&rid) {
                repo_files.loaded_roots.insert(fid, ());
            }
        },
    }
}

/// The prefix of the ids of a repository's files: its id and ':'.
pub open spec fn spec_repo_prefix(repo_id: Seq<char>) -> Seq<char> {
    repo_id + seq![':']
}

pub proof fn lemma_repo_file_id_prefix(repo_id: Seq<char>, path: Seq<char>)
    ensures
        spec_repo_prefix(repo_id).is_prefix_of(spec_repo_file_id(repo_id, path)),
{
    assert(spec_repo_file_id(repo_id, path).subrange(0, spec_repo_prefix(repo_id).len() as int) =~= spec_repo_prefix(
        repo_id,
    ));
}

pub proof fn lemma_new_child_ids_in_repo(
    rf: RemoteFilesState,
    decs: Map<Seq<char>, FileDecryption>,
    repo_id: Seq<char>,
    encrypted_path: Seq<char>,
    ids: Seq<Seq<char>>,
)
    ensures
        forall|k: Seq<char>| #[trigger] spec_new_child_ids(rf, decs, repo_id, encrypted_path, ids).contains(k)
            ==> spec_repo_prefix(repo_id).is_prefix_of(k),
    decreases ids.len(),
{
    if ids.len() > 0 {
        lemma_new_child_ids_in_repo(rf, decs, repo_id, encrypted_path, ids.drop_last());
        let prev = spec_new_child_ids(rf, decs, repo_id, encrypted_path, ids.drop_last());
        let c = ids.last();
        if rf.files@.contains_key(c) && decs.contains_key(c) {
            let p = spec_join_path_name(encrypted_path, rf.files@[c].name@);
            lemma_repo_file_id_prefix(repo_id, p);
            let n = prev.push(spec_repo_file_id(repo_id, p));
            assert forall|k: Seq<char>| #[trigger] n.contains(k) implies spec_repo_prefix(repo_id).is_prefix_of(k) by {
                let j = choose|j: int| 0 <= j < n.len() && n[j] == k;
                if j < prev.len() {
                    assert(prev[j] == k);
                    assert(prev.contains(k));
                }
            }
        }
    }
}

pub proof fn lemma_path_file_id_in_repo(repo_id: Seq<char>, encrypted_path: Seq<char>, f: RemoteFile)
    ensures
        spec_repo_prefix(repo_id).is_prefix_of(spec_path_file_id(repo_id, encrypted_path, f)),
{
    if encrypted_path == root_path() {
        lemma_repo_file_id_prefix(repo_id, root_path());
    } else {
        lemma_repo_file_id_prefix(repo_id, spec_join_path_name(spec_parent_path(encrypted_path).unwrap(), f.name@));
    }
}

/// The prefix of the ids of a repository's files.
fn repo_prefix(repo_id: &str) -> (r: String)
    ensures
        r@ == spec_repo_prefix(repo_id@),
{
    let r = get_file_id(repo_id, "");
    proof {
        reveal_strlit("");
        assert(r@ =~= spec_repo_prefix(repo_id@));
    }
    r
}

/// Forgets the files, folder listings, loaded folders and recent files of a
/// repository.
fn forget_repo_files(repo_files: &mut RepoFilesState, repo_id: &str)
    ensures
        forall|k: Seq<char>| #[trigger] final(repo_files).files@.contains_key(k) == (old(repo_files).files@.contains_key(k)
            && !spec_repo_prefix(repo_id@).is_prefix_of(k)),
        forall|k: Seq<char>| #[trigger] final(repo_files).files@.contains_key(k) ==> final(repo_files).files@[k] == old(repo_files).files@[k],
        forall|k: Seq<char>| #[trigger] final(repo_files).children@.contains_key(k) == (old(repo_files).children@.contains_key(k)
            && !spec_repo_prefix(repo_id@).is_prefix_of(k)),
        forall|k: Seq<char>| #[trigger] final(repo_files).children@.contains_key(k) ==> final(repo_files).children@[k] == old(repo_files).children@[k],
        forall|k: Seq<char>| #[trigger] final(repo_files).loaded_roots@.contains_key(k) == (old(repo_files).loaded_roots@.contains_key(k)
            && !spec_repo_prefix(repo_id@).is_prefix_of(k)),
        final(repo_files).recent@ == old(repo_files).recent@.remove(repo_id@),
{
    let prefix = repo_prefix(repo_id);
    repo_files.files.retain_not_prefixed(prefix.as_str());
    repo_files.children.retain_not_prefixed(prefix.as_str());
    repo_files.loaded_roots.retain_not_prefixed(prefix.as_str());
    let id = copy_str(repo_id);
    repo_files.recent.remove(&id);
}

/// The path inside a repository of a file stored at `path`, whose first `n`
/// characters are the repository's own path.
pub open spec fn spec_inner_path(path: Seq<char>, n: int) -> Seq<char> {
    if path.len() == n {
        root_path()
    } else {
        path.subrange(n, path.len() as int)
    }
}

/// Whether the recent remote file `c` becomes a repository file: it is known,
/// lies under the repository's path (`n` characters long), and is the root or
/// has a decryption and a parent folder.
pub open spec fn spec_recent_listed(rf: RemoteFilesState, decs: Map<Seq<char>, FileDecryption>, n: int, c: Seq<char>) -> bool {
    &&& rf.files@.contains_key(c)
    &&& n <= rf.files@[c].path@.len()
    &&& {
        let e = spec_inner_path(rf.files@[c].path@, n);
        e == root_path() || (decs.contains_key(c) && spec_parent_path(e) is Some)
    }
}

/// The ids of the repository files made of the recent remote files `ids`.
pub open spec fn spec_recent_ids(
    rf: RemoteFilesState,
    decs: Map<Seq<char>, FileDecryption>,
    repo: Repo,
    ids: Seq<Seq<char>>,
) -> Seq<Seq<char>>
    decreases ids.len(),
{
    if ids.len() == 0 {
        Seq::empty()
    } else {
        let prev = spec_recent_ids(rf, decs, repo, ids.drop_last());
        let c = ids.last();
        if spec_recent_listed(rf, decs, repo.path@.len() as int, c) {
            let f = rf.files@[c];
            prev.push(spec_path_file_id(repo.id@, spec_inner_path(f.path@, repo.path@.len() as int), f))
        } else {
            prev
        }
    }
}

/// `file` is the repository file with id `k` made of one of the recent remote
/// files `ids`.
pub open spec fn spec_recent_decrypted(
    rf: RemoteFilesState,
    decs: Map<Seq<char>, FileDecryption>,
    repo: Repo,
    ids: Seq<Seq<char>>,
    types: FileTypes,
    k: Seq<char>,
    file: RepoFile,
) -> bool {
    exists|j: int|
        0 <= j < ids.len() && spec_recent_listed(rf, decs, repo.path@.len() as int, ids[j]) && k == spec_path_file_id(
            repo.id@,
            spec_inner_path(rf.files@[ids[j]].path@, repo.path@.len() as int),
            rf.files@[ids[j]],
        ) && #[trigger] spec_path_file_ok(
            file,
            repo,
            spec_inner_path(rf.files@[ids[j]].path@, repo.path@.len() as int),
            rf.files@[ids[j]],
            decs[ids[j]],
            types,
        )
}

/// The id of the remote folder of a repository.
pub open spec fn spec_repo_remote_id(repo: Repo) -> Seq<char> {
    spec_file_id(repo.mount_id@, lowercase(repo.path@))
}

/// Whether the recent files of repository `repo_id` can be decrypted: it is
/// known and unlocked, and the recent files of its folder were loaded.
pub open spec fn spec_recent_decryptable(state: State, repo_id: Seq<char>) -> bool {
    &&& state.repos.repos_by_id@.contains_key(repo_id)
    &&& state.repos.repos_by_id@[repo_id].state == RepoState::Unlocked
    &&& state.remote_files.recent@.contains_key(spec_repo_remote_id(state.repos.repos_by_id@[repo_id]))
}

/// The path of `f` inside a repository whose path is `n` characters long,
/// when `f` lies under it.
fn inner_path(f: &RemoteFile, n: usize) -> (r: Option<String>)
    ensures
        match r {
            Some(e) => n <= f.path@.len() && e@ == spec_inner_path(f.path@, n as int),
            None => n > f.path@.len(),
        },
{
    let len = f.path.unicode_len();
    if n > len {
        None
    } else if len == n {
        Some(root())
    } else {
        Some(copy_str(f.path.as_str().substring_char(n, len)))
    }
}

/// `b` is `a` after decrypting the recent files of repository `repo_id`
/// (see `decrypt_recent_files_repo`): nothing changes unless they can be
/// decrypted; then the recent list is set and the files stored.
pub open spec fn spec_recent_step(
    s: State,
    a: RepoFilesState,
    b: RepoFilesState,
    repo_id: Seq<char>,
    decs: Map<Seq<char>, FileDecryption>,
) -> bool {
    &&& b.children == a.children
    &&& b.loaded_roots == a.loaded_roots
    &&& !spec_recent_decryptable(s, repo_id) ==> b == a
    &&& spec_recent_decryptable(s, repo_id) ==> {
        let repo = s.repos.repos_by_id@[repo_id];
        let ids = id_views(s.remote_files.recent@[spec_repo_remote_id(repo)]@);
        let l = spec_recent_ids(s.remote_files, decs, repo, ids);
        &&& b.recent@.dom() == a.recent@.dom().insert(repo_id)
        &&& id_views(b.recent@[repo_id]@) == l
        &&& forall|k: Seq<char>| k != repo_id && #[trigger] a.recent@.contains_key(k) ==> b.recent@[k] == a.recent@[k]
        &&& forall|k: Seq<char>| #[trigger] b.files@.contains_key(k) == (a.files@.contains_key(k) || l.contains(k))
        &&& forall|k: Seq<char>| #[trigger] b.files@.contains_key(k) ==> if l.contains(k) {
            spec_recent_decrypted(s.remote_files, decs, repo, ids, s.file_types, k, b.files@[k])
        } else {
            b.files@[k] == a.files@[k]
        }
    }
}

/// Decrypts the recently changed files of repository `repo_id` and stores
/// them and their list. Returns whether the repository is known and unlocked
/// and the recent files of its folder were loaded; else nothing changes.
/// Paths are compared by their characters; a recent file that does not lie
/// under the repository's path, or has no decryption, is left out.
pub fn decrypt_recent_files_repo(
    state: &mut State,
    repo_id: &String,
    decryptions: &KeyMap<String, FileDecryption>,
) -> (r: bool)
    ensures
        r == spec_recent_decryptable(*old(state), repo_id@),
        same_but_repo_files(*old(state), *final(state)),
        spec_recent_step(*old(state), old(state).repo_files, final(state).repo_files, repo_id@, decryptions@),
        final(state).repo_files.children == old(state).repo_files.children,
        final(state).repo_files.loaded_roots == old(state).repo_files.loaded_roots,
        !r ==> final(state).repo_files == old(state).repo_files,
        r ==> {
            let repo = old(state).repos.repos_by_id@[repo_id@];
            let ids = id_views(old(state).remote_files.recent@[spec_repo_remote_id(repo)]@);
            let l = spec_recent_ids(old(state).remote_files, decryptions@, repo, ids);
            &&& final(state).repo_files.recent@.dom() == old(state).repo_files.recent@.dom().insert(repo_id@)
            &&& id_views(final(state).repo_files.recent@[repo_id@]@) == l
            &&& forall|k: Seq<char>| k != repo_id@ && #[trigger] old(state).repo_files.recent@.contains_key(k)
                ==> final(state).repo_files.recent@[k] == old(state).repo_files.recent@[k]
            &&& forall|k: Seq<char>| #[trigger] final(state).repo_files.files@.contains_key(k) == (old(state).repo_files.files@.contains_key(k) || l.contains(k))
            &&& forall|k: Seq<char>| #[trigger] final(state).repo_files.files@.contains_key(k) ==> if l.contains(k) {
                spec_recent_decrypted(
                    old(state).remote_files,
                    decryptions@,
                    repo,
                    ids,
                    old(state).file_types,
                    k,
                    final(state).repo_files.files@[k],
                )
            } else {
                final(state).repo_files.files@[k] == old(state).repo_files.files@[k]
            }
        },
{
    let repo = match state.repos.repos_by_id.get(repo_id) {
        Some(repo) => repo,
        None => {
            return false;
        },
    };
    if !repo.state.is_unlocked() {
        return false;
    }
    let lower = to_lowercase(repo.path.as_str());
    let rid = crate::remote_files::selectors::get_file_id(repo.mount_id.as_str(), lower.as_str());
    let remote_ids = match state.remote_files.recent.get(&rid) {
        Some(ids) => copy_ids(ids),
        None => {
            return false;
        },
    };
    let ghost rf = state.remote_files;
    let ghost all = id_views(remote_ids@);
    let ghost old_files = state.repo_files.files@;
    let repo_path_len = repo.path.unicode_len();
    let mut repo_file_ids: Vec<String> = Vec::new();
    let n = remote_ids.len();
    let mut i: usize = 0;
    while i < n
        invariant
            n == remote_ids.len(),
            i <= n,
            all == id_views(remote_ids@),
            rf == state.remote_files,
            repo_path_len == repo.path@.len(),
            state.repos.repos_by_id@.contains_key(repo_id@),
            *repo == state.repos.repos_by_id@[repo_id@],
            same_but_repo_files(*old(state), *state),
            state.repo_files.children == old(state).repo_files.children,
            state.repo_files.loaded_roots == old(state).repo_files.loaded_roots,
            state.repo_files.recent == old(state).repo_files.recent,
            old_files == old(state).repo_files.files@,
            id_views(repo_file_ids@) == spec_recent_ids(rf, decryptions@, *repo, all.subrange(0, i as int)),
            forall|k: Seq<char>| #[trigger] state.repo_files.files@.contains_key(k) == (old_files.contains_key(k)
                || id_views(repo_file_ids@).contains(k)),
            forall|k: Seq<char>| #[trigger] state.repo_files.files@.contains_key(k) && !id_views(repo_file_ids@).contains(k)
                ==> state.repo_files.files@[k] == old_files[k],
            forall|k: Seq<char>| #[trigger] id_views(repo_file_ids@).contains(k) ==> spec_recent_decrypted(
                rf,
                decryptions@,
                *repo,
                all,
                state.file_types,
                k,
                state.repo_files.files@[k],
            ),
        decreases n - i,
    {
        proof {
            assert(all.subrange(0, i + 1).drop_last() =~= all.subrange(0, i as int));
        }
        let c = &remote_ids[i];
        assert(all[i as int] == c@);
        let made: Option<RepoFile> = match state.remote_files.files.get(c) {
            Some(f) => match inner_path(f, repo_path_len) {
                Some(e) => {
                    if is_root(e.as_str()) {
                        Some(get_root_file(repo, f))
                    } else {
                        match decryptions.get(c) {
                            Some(d) => {
                                if parent_path(e.as_str()).is_some() {
                                    Some(decrypt_file_path(repo, e.as_str(), f, d, &state.file_types))
                                } else {
                                    None
                                }
                            },
                            None => None,
                        }
                    }
                },
                None => None,
            },
            None => None,
        };
        match made {
            Some(file) => {
                let ghost kn = file.id@;
                proof {
                    let f = rf.files@[c@];
                    let e = spec_inner_path(f.path@, repo_path_len as int);
                    assert(spec_recent_listed(rf, decryptions@, repo.path@.len() as int, c@));
                    assert(kn == spec_path_file_id(repo.id@, e, f));
                    assert(spec_path_file_ok(file, *repo, e, f, decryptions@[c@], state.file_types));
                }
                let ghost old_r = id_views(repo_file_ids@);
                repo_file_ids.push(file.id.clone());
                state.repo_files.files.insert(file.id.clone(), file);
                proof {
                    assert(id_views(repo_file_ids@) =~= old_r.push(kn));
                    assert forall|k: Seq<char>| #[trigger] id_views(repo_file_ids@).contains(k) implies spec_recent_decrypted(
                        rf,
                        decryptions@,
                        *repo,
                        all,
                        state.file_types,
                        k,
                        state.repo_files.files@[k],
                    ) by {
                        if k == kn {
                            assert(state.repo_files.files@[k] == file);
                        } else {
                            let j = choose|j: int| 0 <= j < old_r.len() && old_r[j] == k;
                            assert(old_r.contains(k));
                        }
                    }
                    assert forall|k: Seq<char>| #[trigger] state.repo_files.files@.contains_key(k) == (old_files.contains_key(k)
                        || id_views(repo_file_ids@).contains(k)) by {
                        if k != kn {
                            assert(id_views(repo_file_ids@).contains(k) == old_r.contains(k)) by {
                                if old_r.contains(k) {
                                    let j = choose|j: int| 0 <= j < old_r.len() && old_r[j] == k;
                                    assert(id_views(repo_file_ids@)[j] == k);
                                }
                            }
                        } else {
                            assert(id_views(repo_file_ids@)[old_r.len() as int] == k);
                        }
                    }
                    assert forall|k: Seq<char>| #[trigger] state.repo_files.files@.contains_key(k) && !id_views(repo_file_ids@).contains(k)
                        implies state.repo_files.files@[k] == old_files[k] by {
                        assert(k != kn) by {
                            assert(id_views(repo_file_ids@)[old_r.len() as int] == kn);
                        }
                        if old_r.contains(k) {
                            let j = choose|j: int| 0 <= j < old_r.len() && old_r[j] == k;
                            assert(id_views(repo_file_ids@)[j] == k);
                        }
                    }
                }
            },
            None => {
                proof {
                    assert(!spec_recent_listed(rf, decryptions@, repo.path@.len() as int, c@));
                }
            },
        }
        i = i + 1;
    }
    proof {
        assert(all.subrange(0, n as int) =~= all);
    }
    let key = repo_id.clone();
    state.repo_files.recent.insert(key, repo_file_ids);
    true
}

pub proof fn lemma_recent_ids_in_repo(
    rf: RemoteFilesState,
    decs: Map<Seq<char>, FileDecryption>,
    repo: Repo,
    ids: Seq<Seq<char>>,
)
    ensures
        forall|k: Seq<char>| #[trigger] spec_recent_ids(rf, decs, repo, ids).contains(k) ==> spec_repo_prefix(
            repo.id@,
        ).is_prefix_of(k),
    decreases ids.len(),
{
    if ids.len() > 0 {
        lemma_recent_ids_in_repo(rf, decs, repo, ids.drop_last());
        let prev = spec_recent_ids(rf, decs, repo, ids.drop_last());
        let c = ids.last();
        if spec_recent_listed(rf, decs, repo.path@.len() as int, c) {
            let f = rf.files@[c];
            let e = spec_inner_path(f.path@, repo.path@.len() as int);
            lemma_path_file_id_in_repo(repo.id@, e, f);
            let n = prev.push(spec_path_file_id(repo.id@, e, f));
            assert forall|k: Seq<char>| #[trigger] n.contains(k) implies spec_repo_prefix(repo.id@).is_prefix_of(k) by {
                let j = choose|j: int| 0 <= j < n.len() && n[j] == k;
                if j < prev.len() {
                    assert(prev[j] == k);
                    assert(prev.contains(k));
                }
            }
        }
    }
}

/// The views of a list of folders to decrypt: for each, the mount and path
/// where it is stored, its repository and its path inside the repository.
pub open spec fn entry_views(s: Seq<(String, String, String, String)>) -> Seq<
    (Seq<char>, Seq<char>, Seq<char>, Seq<char>),
> {
    s.map_values(|e: (String, String, String, String)| (e.0@, e.1@, e.2@, e.3@))
}

/// The deepest level of folders that a walk descends to.
pub open spec fn max_walk_depth() -> int {
    65535
}

/// The remote files under the folder at `path` (lower-cased) of `mount_id`,
/// depth first, each with its path inside repository `repo_id`, whose own
/// path is `n` characters long.
pub open spec fn spec_walk_dir(
    rf: RemoteFilesState,
    mount_id: Seq<char>,
    path: Seq<char>,
    repo_id: Seq<char>,
    n: int,
    depth: int,
) -> Seq<(Seq<char>, Seq<char>, Seq<char>, Seq<char>)>
    decreases max_walk_depth() - depth, 2int, 0int,
{
    spec_walk_files(rf, spec_children_files(rf, spec_file_id(mount_id, path)), repo_id, n, depth)
}

/// The files `files` and, for each folder among them, the files under it; a
/// file whose path is shorter than the repository's is left out.
pub open spec fn spec_walk_files(
    rf: RemoteFilesState,
    files: Seq<RemoteFile>,
    repo_id: Seq<char>,
    n: int,
    depth: int,
) -> Seq<(Seq<char>, Seq<char>, Seq<char>, Seq<char>)>
    decreases max_walk_depth() - depth, 1int, files.len(),
{
    if files.len() == 0 {
        Seq::empty()
    } else {
        let f = files.last();
        let prev = spec_walk_files(rf, files.drop_last(), repo_id, n, depth);
        let own = if n <= f.path@.len() {
            seq![(f.mount_id@, f.path@, repo_id, f.path@.subrange(n, f.path@.len() as int))]
        } else {
            Seq::empty()
        };
        let below = if f.typ == RemoteFileType::Dir && depth < max_walk_depth() {
            spec_walk_dir(rf, f.mount_id@, lowercase(f.path@), repo_id, n, depth + 1)
        } else {
            Seq::empty()
        };
        prev + own + below
    }
}

/// Appends to `out` the remote files under the folder at `path` (lower-cased)
/// of `mount_id` (see `spec_walk_dir`).
fn walk_dir(
    state: &State,
    out: &mut Vec<(String, String, String, String)>,
    mount_id: &str,
    path: &str,
    repo_id: &str,
    n: usize,
    depth: u16,
)
    ensures
        entry_views(final(out)@) == entry_views(old(out)@) + spec_walk_dir(
            state.remote_files,
            mount_id@,
            path@,
            repo_id@,
            n as int,
            depth as int,
        ),
    decreases max_walk_depth() - depth,
{
    let files = crate::remote_files::selectors::select_files(state, mount_id, path);
    let ghost fs = files@.map_values(|f: &RemoteFile| *f);
    let ghost start = entry_views(out@);
    let ghost rf = state.remote_files;
    let len = files.len();
    let mut i: usize = 0;
    while i < len
        invariant
            len == files.len(),
            i <= len,
            rf == state.remote_files,
            fs == files@.map_values(|f: &RemoteFile| *f),
            fs == spec_children_files(rf, spec_file_id(mount_id@, path@)),
            entry_views(out@) == start + spec_walk_files(rf, fs.subrange(0, i as int), repo_id@, n as int, depth as int),
        decreases len - i,
    {
        let f = files[i];
        let ghost pre = entry_views(out@);
        proof {
            let sub = fs.subrange(0, i + 1);
            assert(sub.drop_last() =~= fs.subrange(0, i as int));
            assert(sub.last() == *f);
        }
        let plen = f.path.unicode_len();
        if n <= plen {
            let inner = copy_str(f.path.as_str().substring_char(n, plen));
            let e = (f.mount_id.clone(), f.path.clone(), copy_str(repo_id), inner);
            out.push(e);
            proof {
                assert(entry_views(out@) =~= pre.push((f.mount_id@, f.path@, repo_id@, f.path@.subrange(n as int, plen as int))));
            }
        }
        let ghost mid = entry_views(out@);
        let is_dir = match f.typ {
            RemoteFileType::Dir => true,
            _ => false,
        };
        if is_dir && depth < 65535 {
            let lower = to_lowercase(f.path.as_str());
            walk_dir(state, out, f.mount_id.as_str(), lower.as_str(), repo_id, n, depth + 1);
        }
        proof {
            let sub = fs.subrange(0, i + 1);
            let own = if n <= f.path@.len() {
                seq![(f.mount_id@, f.path@, repo_id@, f.path@.subrange(n as int, f.path@.len() as int))]
            } else {
                Seq::empty()
            };
            let below = if f.typ == RemoteFileType::Dir && depth < max_walk_depth() {
                spec_walk_dir(rf, f.mount_id@, lowercase(f.path@), repo_id@, n as int, depth + 1)
            } else {
                Seq::empty()
            };
            assert(spec_walk_files(rf, sub, repo_id@, n as int, depth as int) == spec_walk_files(
                rf,
                fs.subrange(0, i as int),
                repo_id@,
                n as int,
                depth as int,
            ) + own + below);
            assert(mid =~= pre + own);
            assert(entry_views(out@) =~= mid + below);
        }
        i = i + 1;
    }
    proof {
        assert(fs.subrange(0, len as int) =~= fs);
    }
}

/// Whether `k` is the id of a file of a known unlocked repository, under its
/// id or under the key it is known by.
pub open spec fn spec_in_unlocked_repo(repos: ReposState, k: Seq<char>) -> bool {
    exists|x: Seq<char>|
        #![trigger repos.repos_by_id@[x]]
        repos.repos_by_id@.contains_key(x) && repos.repos_by_id@[x].state == RepoState::Unlocked && (spec_repo_prefix(
            repos.repos_by_id@[x].id@,
        ).is_prefix_of(k) || spec_repo_prefix(x).is_prefix_of(k))
}

/// Every file, listing and loaded folder of `b` was in `a` or belongs to a
/// known unlocked repository.
pub open spec fn spec_grown_within(a: RepoFilesState, b: RepoFilesState, repos: ReposState) -> bool {
    &&& forall|k: Seq<char>| #[trigger] b.files@.contains_key(k) ==> a.files@.contains_key(k) || spec_in_unlocked_repo(repos, k)
    &&& forall|k: Seq<char>| #[trigger] b.children@.contains_key(k) ==> a.children@.contains_key(k) || spec_in_unlocked_repo(repos, k)
    &&& forall|k: Seq<char>| #[trigger] b.loaded_roots@.contains_key(k) ==> a.loaded_roots@.contains_key(k)
        || spec_in_unlocked_repo(repos, k)
}

proof fn lemma_files_decrypted_grown(
    old: RepoFilesState,
    new: RepoFilesState,
    rf: RemoteFilesState,
    mount_id: Seq<char>,
    remote_path: Seq<char>,
    repo: Repo,
    encrypted_path: Seq<char>,
    decs: Map<Seq<char>, FileDecryption>,
    types: FileTypes,
    repos: ReposState,
    x: Seq<char>,
)
    requires
        spec_files_decrypted(old, new, rf, mount_id, remote_path, repo, encrypted_path, decs, types),
        repos.repos_by_id@.contains_key(x),
        repos.repos_by_id@[x] == repo,
        repo.state == RepoState::Unlocked,
    ensures
        spec_grown_within(old, new, repos),
{
    let rid = spec_file_id(mount_id, lowercase(remote_path));
    if rf.files@.contains_key(rid) {
        let f = rf.files@[rid];
        let fid = spec_path_file_id(repo.id@, encrypted_path, f);
        let listed = rf.children@.contains_key(rid);
        let ids = if listed {
            id_views(rf.children@[rid]@)
        } else {
            Seq::empty()
        };
        lemma_new_child_ids_in_repo(rf, decs, repo.id@, encrypted_path, ids);
        lemma_path_file_id_in_repo(repo.id@, encrypted_path, f);
        assert(spec_repo_prefix(repos.repos_by_id@[x].id@).is_prefix_of(fid));
        let n = spec_new_child_ids(rf, decs, repo.id@, encrypted_path, ids);
        assert forall|k: Seq<char>| #[trigger] n.contains(k) implies spec_in_unlocked_repo(repos, k) by {
            assert(spec_repo_prefix(repos.repos_by_id@[x].id@).is_prefix_of(k));
        }
    }
}

/// Whether one of `ids` is a repository whose files hold `k`.
pub open spec fn spec_forgotten(ids: Seq<Seq<char>>, k: Seq<char>) -> bool {
    exists|j: int| 0 <= j < ids.len() && #[trigger] spec_repo_prefix(ids[j]).is_prefix_of(k)
}

/// `b` is `a` without the files, listings, loaded folders and recent files
/// of the repositories `ids`; everything else as it was.
pub open spec fn spec_forgot(a: RepoFilesState, b: RepoFilesState, ids: Seq<Seq<char>>) -> bool {
    &&& forall|k: Seq<char>| #[trigger] b.files@.contains_key(k) == (a.files@.contains_key(k) && !spec_forgotten(ids, k))
    &&& forall|k: Seq<char>| #[trigger] b.files@.contains_key(k) ==> b.files@[k] == a.files@[k]
    &&& forall|k: Seq<char>| #[trigger] b.children@.contains_key(k) == (a.children@.contains_key(k) && !spec_forgotten(ids, k))
    &&& forall|k: Seq<char>| #[trigger] b.children@.contains_key(k) ==> b.children@[k] == a.children@[k]
    &&& forall|k: Seq<char>| #[trigger] b.loaded_roots@.contains_key(k) == (a.loaded_roots@.contains_key(k) && !spec_forgotten(ids, k))
    &&& forall|k: Seq<char>| #[trigger] b.recent@.contains_key(k) == (a.recent@.contains_key(k) && !ids.contains(k))
    &&& forall|k: Seq<char>| #[trigger] b.recent@.contains_key(k) ==> b.recent@[k] == a.recent@[k]
}

/// Forgets the files, listings, loaded folders and recent files of the
/// repositories `ids`.
fn forget_repos(repo_files: &mut RepoFilesState, ids: &Vec<String>)
    ensures
        spec_forgot(*old(repo_files), *final(repo_files), id_views(ids@)),
{
    let ghost v = id_views(ids@);
    let n = ids.len();
    let mut i: usize = 0;
    while i < n
        invariant
            n == ids.len(),
            i <= n,
            v == id_views(ids@),
            forall|k: Seq<char>| #[trigger] repo_files.files@.contains_key(k) == (old(repo_files).files@.contains_key(k)
                && !spec_forgotten(v.subrange(0, i as int), k)),
            forall|k: Seq<char>| #[trigger] repo_files.children@.contains_key(k) == (old(repo_files).children@.contains_key(k)
                && !spec_forgotten(v.subrange(0, i as int), k)),
            forall|k: Seq<char>| #[trigger] repo_files.loaded_roots@.contains_key(k) == (old(repo_files).loaded_roots@.contains_key(k)
                && !spec_forgotten(v.subrange(0, i as int), k)),
            forall|k: Seq<char>| #[trigger] repo_files.recent@.contains_key(k) == (old(repo_files).recent@.contains_key(k)
                && !v.subrange(0, i as int).contains(k)),
            forall|k: Seq<char>| #[trigger] repo_files.files@.contains_key(k) ==> repo_files.files@[k] == old(repo_files).files@[k],
            forall|k: Seq<char>| #[trigger] repo_files.children@.contains_key(k) ==> repo_files.children@[k] == old(repo_files).children@[k],
            forall|k: Seq<char>| #[trigger] repo_files.recent@.contains_key(k) ==> repo_files.recent@[k] == old(repo_files).recent@[k],
        decreases n - i,
    {
        let ghost prev = v.subrange(0, i as int);
        let ghost next = v.subrange(0, i + 1);
        assert(next[i as int] == ids@[i as int]@);
        forget_repo_files(repo_files, ids[i].as_str());
        proof {
            assert forall|k: Seq<char>| spec_forgotten(next, k) == (spec_forgotten(prev, k) || spec_repo_prefix(
                next[i as int],
            ).is_prefix_of(k)) by {
                if spec_forgotten(next, k) {
                    let j = choose|j: int| 0 <= j < next.len() && #[trigger] spec_repo_prefix(next[j]).is_prefix_of(k);
                    if j < i {
                        assert(prev[j] == next[j]);
                    }
                }
                if spec_forgotten(prev, k) {
                    let j = choose|j: int| 0 <= j < prev.len() && #[trigger] spec_repo_prefix(prev[j]).is_prefix_of(k);
                    assert(next[j] == prev[j]);
                }
            }
            assert forall|k: Seq<char>| next.contains(k) == (prev.contains(k) || k == next[i as int]) by {
                if next.contains(k) {
                    let j = choose|j: int| 0 <= j < next.len() && next[j] == k;
                    if j < i {
                        assert(prev[j] == k);
                    }
                }
                if prev.contains(k) {
                    let j = choose|j: int| 0 <= j < prev.len() && prev[j] == k;
                    assert(next[j] == k);
                }
            }
        }
        i = i + 1;
    }
    proof {
        assert(v.subrange(0, n as int) =~= v);
    }
}

/// Whether the folder `e` can be decrypted: its repository is known and
/// unlocked, and its path is the root or has a parent.
pub open spec fn spec_entry_decryptable(repos: ReposState, e: (Seq<char>, Seq<char>, Seq<char>, Seq<char>)) -> bool {
    &&& repos.repos_by_id@.contains_key(e.2)
    &&& repos.repos_by_id@[e.2].state == RepoState::Unlocked
    &&& (e.3 == root_path() || spec_parent_path(e.3) is Some)
}

/// The folders to decrypt for the repositories `ids`: for each known one,
/// its root, then the remote files under its folder.
pub open spec fn spec_unlocked_entries(rf: RemoteFilesState, repos: ReposState, ids: Seq<Seq<char>>) -> Seq<
    (Seq<char>, Seq<char>, Seq<char>, Seq<char>),
>
    decreases ids.len(),
{
    if ids.len() == 0 {
        Seq::empty()
    } else {
        let prev = spec_unlocked_entries(rf, repos, ids.drop_last());
        let id = ids.last();
        if repos.repos_by_id@.contains_key(id) {
            let repo = repos.repos_by_id@[id];
            prev + seq![(repo.mount_id@, repo.path@, repo.id@, root_path())] + spec_walk_dir(
                rf,
                repo.mount_id@,
                lowercase(repo.path@),
                id,
                repo.path@.len() as int,
                0,
            )
        } else {
            prev
        }
    }
}

/// Whether handling a repositories mutation changes the repository files:
/// some repository was locked or removed, or an unlocked one had recent
/// files or a folder to decrypt.
pub open spec fn spec_repos_mutation_dirty(state: State, ms: MutationState) -> bool {
    let unlocked = id_views(ms.repos.unlocked_repos@);
    let entries = spec_unlocked_entries(state.remote_files, state.repos, unlocked);
    ||| ms.repos.locked_repos@.len() > 0 || ms.repos.removed_repos@.len() > 0
    ||| exists|i: int| 0 <= i < unlocked.len() && #[trigger] spec_recent_decryptable(state, unlocked[i])
    ||| exists|j: int| 0 <= j < entries.len() && #[trigger] spec_entry_decryptable(state.repos, entries[j])
}

/// Whether the files, listings, loaded folders or recent files of `rf` hold
/// anything of repository `id`.
pub open spec fn spec_holds_repo(rf: RepoFilesState, id: Seq<char>) -> bool {
    ||| exists|k: Seq<char>| #[trigger] rf.files@.contains_key(k) && spec_repo_prefix(id).is_prefix_of(k)
    ||| exists|k: Seq<char>| #[trigger] rf.children@.contains_key(k) && spec_repo_prefix(id).is_prefix_of(k)
    ||| exists|k: Seq<char>| #[trigger] rf.loaded_roots@.contains_key(k) && spec_repo_prefix(id).is_prefix_of(k)
    ||| rf.recent@.contains_key(id)
}

/// Whether the ids of the files of repository `id` cannot be those of a
/// known unlocked repository's files.
pub open spec fn spec_apart_from_unlocked(repos: ReposState, id: Seq<char>) -> bool {
    forall|x: Seq<char>|
        #![trigger repos.repos_by_id@[x]]
        repos.repos_by_id@.contains_key(x) && repos.repos_by_id@[x].state == RepoState::Unlocked ==> {
            &&& !spec_repo_prefix(id).is_prefix_of(spec_repo_prefix(repos.repos_by_id@[x].id@))
            &&& !spec_repo_prefix(repos.repos_by_id@[x].id@).is_prefix_of(spec_repo_prefix(id))
            &&& !spec_repo_prefix(id).is_prefix_of(spec_repo_prefix(x))
            &&& !spec_repo_prefix(x).is_prefix_of(spec_repo_prefix(id))
        }
}

pub proof fn lemma_prefixes_comparable(a: Seq<char>, b: Seq<char>, k: Seq<char>)
    requires
        a.is_prefix_of(k),
        b.is_prefix_of(k),
    ensures
        a.is_prefix_of(b) || b.is_prefix_of(a),
{
    if a.len() <= b.len() {
        assert(b.subrange(0, a.len() as int) =~= k.subrange(0, a.len() as int));
    } else {
        assert(a.subrange(0, b.len() as int) =~= k.subrange(0, b.len() as int));
    }
}

proof fn lemma_forgotten_stays(
    s0: State,
    s1: RepoFilesState,
    fin: RepoFilesState,
    gone: Seq<Seq<char>>,
    unlocked: Seq<Seq<char>>,
    lid: Seq<char>,
)
    requires
        gone.contains(lid),
        spec_apart_from_unlocked(s0.repos, lid),
        !(unlocked.contains(lid) && spec_recent_decryptable(s0, lid)),
        forall|k: Seq<char>| #[trigger] s1.files@.contains_key(k) ==> !spec_forgotten(gone, k),
        forall|k: Seq<char>| #[trigger] s1.children@.contains_key(k) ==> !spec_forgotten(gone, k),
        forall|k: Seq<char>| #[trigger] s1.loaded_roots@.contains_key(k) ==> !spec_forgotten(gone, k),
        forall|k: Seq<char>| #[trigger] s1.recent@.contains_key(k) ==> !gone.contains(k),
        spec_grown_within(s1, fin, s0.repos),
        forall|k: Seq<char>| #[trigger] fin.recent@.contains_key(k) ==> s1.recent@.contains_key(k) || (unlocked.contains(k)
            && spec_recent_decryptable(s0, k)),
    ensures
        !spec_holds_repo(fin, lid),
{
    assert forall|k: Seq<char>| spec_repo_prefix(lid).is_prefix_of(k) implies !spec_in_unlocked_repo(s0.repos, k)
        && spec_forgotten(gone, k) by {
        let j = choose|j: int| 0 <= j < gone.len() && gone[j] == lid;
        assert(spec_repo_prefix(gone[j]).is_prefix_of(k));
        if spec_in_unlocked_repo(s0.repos, k) {
            let x = choose|x: Seq<char>|
                #![trigger s0.repos.repos_by_id@[x]]
                s0.repos.repos_by_id@.contains_key(x) && s0.repos.repos_by_id@[x].state == RepoState::Unlocked && (
                spec_repo_prefix(s0.repos.repos_by_id@[x].id@).is_prefix_of(k) || spec_repo_prefix(x).is_prefix_of(k));
            if spec_repo_prefix(s0.repos.repos_by_id@[x].id@).is_prefix_of(k) {
                lemma_prefixes_comparable(spec_repo_prefix(lid), spec_repo_prefix(s0.repos.repos_by_id@[x].id@), k);
            } else {
                lemma_prefixes_comparable(spec_repo_prefix(lid), spec_repo_prefix(x), k);
            }
        }
    }
    assert forall|k: Seq<char>| #[trigger] fin.files@.contains_key(k) implies !spec_repo_prefix(lid).is_prefix_of(k) by {
        if spec_repo_prefix(lid).is_prefix_of(k) {
            assert(s1.files@.contains_key(k));
        }
    }
    assert forall|k: Seq<char>| #[trigger] fin.children@.contains_key(k) implies !spec_repo_prefix(lid).is_prefix_of(k) by {
        if spec_repo_prefix(lid).is_prefix_of(k) {
            assert(s1.children@.contains_key(k));
        }
    }
    assert forall|k: Seq<char>| #[trigger] fin.loaded_roots@.contains_key(k) implies !spec_repo_prefix(lid).is_prefix_of(k) by {
        if spec_repo_prefix(lid).is_prefix_of(k) {
            assert(s1.loaded_roots@.contains_key(k));
        }
    }
}

proof fn grown_after_recent(before: State, after: State, s0: State, id: Seq<char>, decs: Map<Seq<char>, FileDecryption>)
    requires
        same_but_repo_files(s0, before),
        spec_grown_within(s0.repo_files, before.repo_files, s0.repos),
        forall|x: Seq<char>| #[trigger] before.repo_files.recent@.contains_key(x) ==> s0.repo_files.recent@.contains_key(x)
            || spec_recent_decryptable(s0, x),
        same_but_repo_files(before, after),
        after.repo_files.children == before.repo_files.children,
        after.repo_files.loaded_roots == before.repo_files.loaded_roots,
        !spec_recent_decryptable(before, id) ==> after.repo_files == before.repo_files,
        spec_recent_decryptable(before, id) ==> {
            let repo = before.repos.repos_by_id@[id];
            let ids = id_views(before.remote_files.recent@[spec_repo_remote_id(repo)]@);
            let l = spec_recent_ids(before.remote_files, decs, repo, ids);
            &&& after.repo_files.recent@.dom() == before.repo_files.recent@.dom().insert(id)
            &&& forall|k: Seq<char>| #[trigger] after.repo_files.files@.contains_key(k) == (before.repo_files.files@.contains_key(k)
                || l.contains(k))
        },
    ensures
        same_but_repo_files(s0, after),
        spec_grown_within(s0.repo_files, after.repo_files, s0.repos),
        forall|x: Seq<char>| #[trigger] after.repo_files.recent@.contains_key(x) ==> s0.repo_files.recent@.contains_key(x)
            || spec_recent_decryptable(s0, x),
{
    if spec_recent_decryptable(before, id) {
        let repo = before.repos.repos_by_id@[id];
        let ids = id_views(before.remote_files.recent@[spec_repo_remote_id(repo)]@);
        let l = spec_recent_ids(before.remote_files, decs, repo, ids);
        lemma_recent_ids_in_repo(before.remote_files, decs, repo, ids);
        assert forall|k: Seq<char>| #[trigger] l.contains(k) implies spec_in_unlocked_repo(s0.repos, k) by {
            assert(spec_repo_prefix(s0.repos.repos_by_id@[id].id@).is_prefix_of(k));
        }
        assert forall|x: Seq<char>| #[trigger] after.repo_files.recent@.contains_key(x) implies s0.repo_files.recent@.contains_key(x)
            || spec_recent_decryptable(s0, x) by {
            if x != id {
                assert(before.repo_files.recent@.contains_key(x));
            }
        }
    }
}

/// `b` is `a` after decrypting the folder `e` (see `spec_files_decrypted`)
/// when it can be decrypted; else `a` unchanged.
pub open spec fn spec_decrypt_step(
    s: State,
    a: RepoFilesState,
    b: RepoFilesState,
    e: (Seq<char>, Seq<char>, Seq<char>, Seq<char>),
    decs: Map<Seq<char>, FileDecryption>,
) -> bool {
    if spec_entry_decryptable(s.repos, e) {
        spec_files_decrypted(a, b, s.remote_files, e.0, e.1, s.repos.repos_by_id@[e.2], e.3, decs, s.file_types)
    } else {
        b == a
    }
}

/// `fin` is what the repository files of `s` become when a repositories
/// mutation is followed: the files of the locked, then of the removed
/// repositories are forgotten; then the recent files of each unlocked
/// repository are decrypted in turn; then each folder to decrypt
/// (`spec_unlocked_entries`) is decrypted in turn.
pub open spec fn spec_repos_mutation_files(
    s: State,
    ms: MutationState,
    decs: Map<Seq<char>, FileDecryption>,
    fin: RepoFilesState,
) -> bool {
    let unlocked = id_views(ms.repos.unlocked_repos@);
    let entries = spec_unlocked_entries(s.remote_files, s.repos, unlocked);
    exists|mid: RepoFilesState, rc: Seq<RepoFilesState>, dc: Seq<RepoFilesState>|
        #![trigger spec_forgot(mid, rc[0], id_views(ms.repos.removed_repos@)), dc[0]]
        spec_forgot(s.repo_files, mid, id_views(ms.repos.locked_repos@)) && spec_forgot(
            mid,
            rc[0],
            id_views(ms.repos.removed_repos@),
        ) && rc.len() == unlocked.len() + 1 && (forall|j: int|
            0 <= j < unlocked.len() ==> #[trigger] spec_recent_step(s, rc[j], rc[j + 1], unlocked[j], decs))
            && dc.len() == entries.len() + 1 && dc[0] == rc[unlocked.len() as int] && (forall|j: int|
            0 <= j < entries.len() ==> #[trigger] spec_decrypt_step(s, dc[j], dc[j + 1], entries[j], decs))
            && fin == dc[entries.len() as int]
}

/// Follows a repositories mutation: forgets the files of the repositories
/// that were locked or removed, then for each unlocked one decrypts its
/// recent files and every folder stored under its remote folder.
/// `decryptions` holds, by remote file id, what the repositories' ciphers
/// made of the remote files. Returns whether the repository files changed;
/// the store then hands that change on to the parts that follow them.
pub fn handle_repos_mutation(
    state: &mut State,
    notify: &mut Notify,
    mutation_state: &MutationState,
    decryptions: &KeyMap<String, FileDecryption>,
) -> (r: bool)
    ensures
        same_but_repo_files(*old(state), *final(state)),
        r == spec_repos_mutation_dirty(*old(state), *mutation_state),
        spec_repos_mutation_files(*old(state), *mutation_state, decryptions@, final(state).repo_files),
        final(notify).events@ == if r {
            old(notify).events@.push(Event::RepoFiles)
        } else {
            old(notify).events@
        },
        forall|k: Seq<char>| #[trigger] final(state).repo_files.files@.contains_key(k) ==> (old(state).repo_files.files@.contains_key(k)
            && !spec_forgotten(id_views(mutation_state.repos.locked_repos@), k) && !spec_forgotten(
            id_views(mutation_state.repos.removed_repos@),
            k,
        )) || spec_in_unlocked_repo(old(state).repos, k),
        forall|k: Seq<char>| #[trigger] final(state).repo_files.children@.contains_key(k) ==> (old(state).repo_files.children@.contains_key(k)
            && !spec_forgotten(id_views(mutation_state.repos.locked_repos@), k) && !spec_forgotten(
            id_views(mutation_state.repos.removed_repos@),
            k,
        )) || spec_in_unlocked_repo(old(state).repos, k),
        forall|k: Seq<char>| #[trigger] final(state).repo_files.loaded_roots@.contains_key(k) ==> (old(state).repo_files.loaded_roots@.contains_key(k)
            && !spec_forgotten(id_views(mutation_state.repos.locked_repos@), k) && !spec_forgotten(
            id_views(mutation_state.repos.removed_repos@),
            k,
        )) || spec_in_unlocked_repo(old(state).repos, k),
        forall|k: Seq<char>| #[trigger] final(state).repo_files.recent@.contains_key(k) ==> (old(state).repo_files.recent@.contains_key(k)
            && !id_views(mutation_state.repos.locked_repos@).contains(k) && !id_views(
            mutation_state.repos.removed_repos@,
        ).contains(k)) || (id_views(mutation_state.repos.unlocked_repos@).contains(k) && spec_recent_decryptable(
            *old(state),
            k,
        )),
        // A locked or removed repository keeps nothing, unless an unlocked
        // repository's files could bear its ids or it was unlocked again.
        forall|l: int|
            0 <= l < mutation_state.repos.locked_repos@.len() && spec_apart_from_unlocked(
                old(state).repos,
                #[trigger] mutation_state.repos.locked_repos@[l]@,
            ) && !(id_views(mutation_state.repos.unlocked_repos@).contains(mutation_state.repos.locked_repos@[l]@)
                && spec_recent_decryptable(*old(state), mutation_state.repos.locked_repos@[l]@))
                ==> !spec_holds_repo(final(state).repo_files, mutation_state.repos.locked_repos@[l]@),
        forall|l: int|
            0 <= l < mutation_state.repos.removed_repos@.len() && spec_apart_from_unlocked(
                old(state).repos,
                #[trigger] mutation_state.repos.removed_repos@[l]@,
            ) && !(id_views(mutation_state.repos.unlocked_repos@).contains(mutation_state.repos.removed_repos@[l]@)
                && spec_recent_decryptable(*old(state), mutation_state.repos.removed_repos@[l]@))
                ==> !spec_holds_repo(final(state).repo_files, mutation_state.repos.removed_repos@[l]@),
{
    let ghost s0 = *state;
    let ghost locked = id_views(mutation_state.repos.locked_repos@);
    let ghost removed = id_views(mutation_state.repos.removed_repos@);
    let ghost unlocked = id_views(mutation_state.repos.unlocked_repos@);
    let mut dirty = mutation_state.repos.locked_repos.len() > 0 || mutation_state.repos.removed_repos.len() > 0;
    forget_repos(&mut state.repo_files, &mutation_state.repos.locked_repos);
    let ghost mid = state.repo_files;
    forget_repos(&mut state.repo_files, &mutation_state.repos.removed_repos);
    let ghost s1 = *state;
    let ghost mut rc: Seq<RepoFilesState> = seq![state.repo_files];
    // Decrypt the recent files of the unlocked repositories.
    let un = &mutation_state.repos.unlocked_repos;
    let n = un.len();
    let mut i: usize = 0;
    while i < n
        invariant
            n == un.len(),
            un == &mutation_state.repos.unlocked_repos,
            unlocked == id_views(un@),
            i <= n,
            same_but_repo_files(s0, *state),
            spec_grown_within(s1.repo_files, state.repo_files, s0.repos),
            forall|k: Seq<char>| #[trigger] state.repo_files.recent@.contains_key(k) ==> s1.repo_files.recent@.contains_key(k)
                || (unlocked.contains(k) && spec_recent_decryptable(s0, k)),
            dirty == ((locked.len() > 0 || removed.len() > 0) || exists|i2: int|
                0 <= i2 < i && #[trigger] spec_recent_decryptable(s0, unlocked[i2])),
            rc.len() == i + 1,
            rc[0] == s1.repo_files,
            rc[i as int] == state.repo_files,
            forall|j: int| 0 <= j < i ==> #[trigger] spec_recent_step(s0, rc[j], rc[j + 1], unlocked[j], decryptions@),
        decreases n - i,
    {
        let ghost before = *state;
        let id = &un[i];
        assert(unlocked[i as int] == id@);
        let decrypted = decrypt_recent_files_repo(state, id, decryptions);
        proof {
            assert(spec_recent_decryptable(before, id@) == spec_recent_decryptable(s0, id@));
            if decrypted {
                let repo = before.repos.repos_by_id@[id@];
                let ids = id_views(before.remote_files.recent@[spec_repo_remote_id(repo)]@);
                let l = spec_recent_ids(before.remote_files, decryptions@, repo, ids);
                lemma_recent_ids_in_repo(before.remote_files, decryptions@, repo, ids);
                assert forall|k: Seq<char>| #[trigger] l.contains(k) implies spec_in_unlocked_repo(s0.repos, k) by {
                    assert(spec_repo_prefix(s0.repos.repos_by_id@[id@].id@).is_prefix_of(k));
                }
                assert(unlocked.contains(id@));
            }
            if dirty || decrypted {
                if !(locked.len() > 0 || removed.len() > 0) {
                    if decrypted {
                        assert(spec_recent_decryptable(s0, unlocked[i as int]));
                    }
                }
            }
        }
        proof {
            assert(spec_recent_step(s0, before.repo_files, state.repo_files, unlocked[i as int], decryptions@));
            let rc2 = rc.push(state.repo_files);
            assert forall|j: int| 0 <= j < i + 1 implies #[trigger] spec_recent_step(s0, rc2[j], rc2[j + 1], unlocked[j], decryptions@) by {
                if j < i {
                    assert(rc2[j] == rc[j] && rc2[j + 1] == rc[j + 1]);
                }
            }
            rc = rc2;
        }
        if decrypted {
            dirty = true;
        }
        i = i + 1;
    }
    let ghost s2 = *state;
    let ghost mut dc: Seq<RepoFilesState> = seq![state.repo_files];
    // Collect the folders to decrypt.
    let mut entries: Vec<(String, String, String, String)> = Vec::new();
    let mut i: usize = 0;
    while i < n
        invariant
            n == un.len(),
            un == &mutation_state.repos.unlocked_repos,
            unlocked == id_views(un@),
            i <= n,
            state.remote_files == s0.remote_files,
            state.repos == s0.repos,
            entry_views(entries@) == spec_unlocked_entries(s0.remote_files, s0.repos, unlocked.subrange(0, i as int)),
        decreases n - i,
    {
        let id = &un[i];
        proof {
            assert(unlocked.subrange(0, i + 1).drop_last() =~= unlocked.subrange(0, i as int));
            assert(unlocked.subrange(0, i + 1).last() == id@);
        }
        let ghost pre = entry_views(entries@);
        match state.repos.repos_by_id.get(id) {
            Some(repo) => {
                entries.push((repo.mount_id.clone(), repo.path.clone(), repo.id.clone(), root()));
                let ghost mid = entry_views(entries@);
                proof {
                    assert(mid =~= pre + seq![(repo.mount_id@, repo.path@, repo.id@, root_path())]);
                }
                let lower = to_lowercase(repo.path.as_str());
                walk_dir(state, &mut entries, repo.mount_id.as_str(), lower.as_str(), id.as_str(), repo.path.unicode_len(), 0);
            },
            None => {},
        }
        i = i + 1;
    }
    proof {
        assert(unlocked.subrange(0, n as int) =~= unlocked);
    }
    let ghost ents = entry_views(entries@);
    // Decrypt the collected folders.
    let m = entries.len();
    let ghost dirty2 = dirty;
    let mut j: usize = 0;
    while j < m
        invariant
            m == entries.len(),
            j <= m,
            ents == entry_views(entries@),
            ents == spec_unlocked_entries(s0.remote_files, s0.repos, unlocked),
            same_but_repo_files(s0, *state),
            spec_grown_within(s1.repo_files, state.repo_files, s0.repos),
            forall|k: Seq<char>| #[trigger] state.repo_files.recent@.contains_key(k) ==> s1.repo_files.recent@.contains_key(k)
                || (unlocked.contains(k) && spec_recent_decryptable(s0, k)),
            dirty == (dirty2 || exists|j2: int| 0 <= j2 < j && #[trigger] spec_entry_decryptable(s0.repos, ents[j2])),
            dc.len() == j + 1,
            dc[0] == s2.repo_files,
            dc[j as int] == state.repo_files,
            forall|x: int| 0 <= x < j ==> #[trigger] spec_decrypt_step(s0, dc[x], dc[x + 1], ents[x], decryptions@),
        decreases m - j,
    {
        let e = &entries[j];
        assert(ents[j as int] == (e.0@, e.1@, e.2@, e.3@));
        let ghost before = state.repo_files;
        let valid = is_root(e.3.as_str()) || parent_path(e.3.as_str()).is_some();
        let mut done = false;
        match state.repos.repos_by_id.get(&e.2) {
            Some(repo) => {
                if repo.state.is_unlocked() && valid {
                    decrypt_files(
                        &state.remote_files,
                        &mut state.repo_files,
                        e.0.as_str(),
                        e.1.as_str(),
                        repo,
                        e.3.as_str(),
                        decryptions,
                        &state.file_types,
                    );
                    proof {
                        lemma_files_decrypted_grown(
                            before,
                            state.repo_files,
                            s0.remote_files,
                            e.0@,
                            e.1@,
                            *repo,
                            e.3@,
                            decryptions@,
                            s0.file_types,
                            s0.repos,
                            e.2@,
                        );
                    }
                    done = true;
                }
            },
            None => {},
        }
        proof {
            assert(done == spec_entry_decryptable(s0.repos, ents[j as int]));
            if done && !dirty {
                assert(spec_entry_decryptable(s0.repos, ents[j as int]));
            }
        }
        proof {
            assert(spec_decrypt_step(s0, before, state.repo_files, ents[j as int], decryptions@));
            let dc2 = dc.push(state.repo_files);
            assert forall|x: int| 0 <= x < j + 1 implies #[trigger] spec_decrypt_step(s0, dc2[x], dc2[x + 1], ents[x], decryptions@) by {
                if x < j {
                    assert(dc2[x] == dc[x] && dc2[x + 1] == dc[x + 1]);
                }
            }
            dc = dc2;
        }
        if done {
            dirty = true;
        }
        j = j + 1;
    }
    proof {
        assert(spec_forgot(s0.repo_files, mid, locked));
        assert(spec_forgot(mid, rc[0], removed));
        assert(dc[0] == rc[unlocked.len() as int]);
        assert(spec_repos_mutation_files(s0, *mutation_state, decryptions@, state.repo_files));
    }
    if dirty {
        notify.notify(Event::RepoFiles);
    }
    proof {
        assert forall|l: int|
            0 <= l < mutation_state.repos.locked_repos@.len() && spec_apart_from_unlocked(
                s0.repos,
                #[trigger] mutation_state.repos.locked_repos@[l]@,
            ) && !(unlocked.contains(mutation_state.repos.locked_repos@[l]@) && spec_recent_decryptable(
                s0,
                mutation_state.repos.locked_repos@[l]@,
            )) implies !spec_holds_repo(state.repo_files, mutation_state.repos.locked_repos@[l]@) by {
            assert(locked[l] == mutation_state.repos.locked_repos@[l]@);
            assert(locked.contains(locked[l]));
            lemma_forgotten_stays(s0, s1.repo_files, state.repo_files, locked, unlocked, locked[l]);
        }
        assert forall|l: int|
            0 <= l < mutation_state.repos.removed_repos@.len() && spec_apart_from_unlocked(
                s0.repos,
                #[trigger] mutation_state.repos.removed_repos@[l]@,
            ) && !(unlocked.contains(mutation_state.repos.removed_repos@[l]@) && spec_recent_decryptable(
                s0,
                mutation_state.repos.removed_repos@[l]@,
            )) implies !spec_holds_repo(state.repo_files, mutation_state.repos.removed_repos@[l]@) by {
            assert(removed[l] == mutation_state.repos.removed_repos@[l]@);
            assert(removed.contains(removed[l]));
            lemma_forgotten_stays(s0, s1.repo_files, state.repo_files, removed, unlocked, removed[l]);
        }
    }
    dirty
}

/// The views of a list of (mount id, path) pairs.
pub open spec fn pair_views(s: Seq<(String, String)>) -> Seq<(Seq<char>, Seq<char>)> {
    s.map_values(|e: (String, String)| (e.0@, e.1@))
}

/// The views of a list of triples of strings.
pub open spec fn triple_views(s: Seq<(String, String, String)>) -> Seq<(Seq<char>, Seq<char>, Seq<char>)> {
    s.map_values(|e: (String, String, String)| (e.0@, e.1@, e.2@))
}

/// The folders that hold the remote files `ps`, for those that have one.
pub open spec fn spec_parent_pairs(ps: Seq<(Seq<char>, Seq<char>)>) -> Seq<(Seq<char>, Seq<char>)>
    decreases ps.len(),
{
    if ps.len() == 0 {
        Seq::empty()
    } else {
        let prev = spec_parent_pairs(ps.drop_last());
        match spec_parent_path(ps.last().1) {
            Some(pp) => prev.push((ps.last().0, pp)),
            None => prev,
        }
    }
}

/// The old places of moved remote files.
pub open spec fn spec_moved_from(ms: Seq<(String, String, String)>) -> Seq<(Seq<char>, Seq<char>)> {
    ms.map_values(|e: (String, String, String)| (e.0@, e.1@))
}

/// The new places of moved remote files.
pub open spec fn spec_moved_to(ms: Seq<(String, String, String)>) -> Seq<(Seq<char>, Seq<char>)> {
    ms.map_values(|e: (String, String, String)| (e.0@, e.2@))
}

/// The remote files and folders that a remote files mutation touched: the
/// loaded folders, and the created, removed, moved (from and to) and
/// re-tagged files, each followed by the folders that hold them.
pub open spec fn spec_touched_pairs(rm: RemoteFilesMutationState) -> Seq<(Seq<char>, Seq<char>)> {
    let created = pair_views(rm.created_files@);
    let removed = pair_views(rm.removed_files@);
    let from = spec_moved_from(rm.moved_files@);
    let to = spec_moved_to(rm.moved_files@);
    let tags = pair_views(rm.tags_updated@);
    pair_views(rm.loaded_roots@) + created + spec_parent_pairs(created) + removed + spec_parent_pairs(removed) + from
        + spec_parent_pairs(from) + to + spec_parent_pairs(to) + tags + spec_parent_pairs(tags)
}

/// The repository folders or files stored at the remote places `pairs`, for
/// those that lie in a repository.
pub open spec fn spec_tree_entries(repos: ReposState, pairs: Seq<(Seq<char>, Seq<char>)>) -> Seq<
    (Seq<char>, Seq<char>, Seq<char>, Seq<char>),
>
    decreases pairs.len(),
{
    if pairs.len() == 0 {
        Seq::empty()
    } else {
        let prev = spec_tree_entries(repos, pairs.drop_last());
        let (m, p) = pairs.last();
        match spec_repo_tree_get(repos, m, p) {
            Some((rid, enc)) => prev.push((m, p, rid, enc)),
            None => prev,
        }
    }
}

fn append_pairs(out: &mut Vec<(String, String)>, src: &Vec<(String, String)>)
    ensures
        pair_views(final(out)@) == pair_views(old(out)@) + pair_views(src@),
{
    let ghost start = pair_views(out@);
    let n = src.len();
    let mut i: usize = 0;
    while i < n
        invariant
            n == src.len(),
            i <= n,
            pair_views(out@) == start + pair_views(src@).subrange(0, i as int),
        decreases n - i,
    {
        let ghost pre = pair_views(out@);
        out.push((src[i].0.clone(), src[i].1.clone()));
        proof {
            assert(pair_views(out@) =~= pre.push((src@[i as int].0@, src@[i as int].1@)));
            assert(pair_views(src@).subrange(0, i + 1) =~= pair_views(src@).subrange(0, i as int).push(
                pair_views(src@)[i as int],
            ));
        }
        i = i + 1;
    }
    proof {
        assert(pair_views(src@).subrange(0, n as int) =~= pair_views(src@));
    }
}

fn append_parents(out: &mut Vec<(String, String)>, src: &Vec<(String, String)>)
    ensures
        pair_views(final(out)@) == pair_views(old(out)@) + spec_parent_pairs(pair_views(src@)),
{
    let ghost start = pair_views(out@);
    let ghost sv = pair_views(src@);
    let n = src.len();
    let mut i: usize = 0;
    while i < n
        invariant
            n == src.len(),
            i <= n,
            sv == pair_views(src@),
            pair_views(out@) == start + spec_parent_pairs(sv.subrange(0, i as int)),
        decreases n - i,
    {
        proof {
            assert(sv.subrange(0, i + 1).drop_last() =~= sv.subrange(0, i as int));
            assert(sv.subrange(0, i + 1).last() == (src@[i as int].0@, src@[i as int].1@));
        }
        let ghost pre = pair_views(out@);
        match parent_path(src[i].1.as_str()) {
            Some(pp) => {
                let ghost ppv = pp@;
                out.push((src[i].0.clone(), pp));
                proof {
                    assert(pair_views(out@) =~= pre.push((src@[i as int].0@, ppv)));
                }
            },
            None => {},
        }
        i = i + 1;
    }
    proof {
        assert(sv.subrange(0, n as int) =~= sv);
    }
}

fn moved_pairs(ms: &Vec<(String, String, String)>, to: bool) -> (r: Vec<(String, String)>)
    ensures
        pair_views(r@) == if to {
            spec_moved_to(ms@)
        } else {
            spec_moved_from(ms@)
        },
{
    let mut r: Vec<(String, String)> = Vec::new();
    let n = ms.len();
    let mut i: usize = 0;
    while i < n
        invariant
            n == ms.len(),
            i <= n,
            pair_views(r@) == if to {
                spec_moved_to(ms@).subrange(0, i as int)
            } else {
                spec_moved_from(ms@).subrange(0, i as int)
            },
        decreases n - i,
    {
        let ghost pre = pair_views(r@);
        let p = if to {
            ms[i].2.clone()
        } else {
            ms[i].1.clone()
        };
        r.push((ms[i].0.clone(), p));
        proof {
            assert(pair_views(r@) =~= pre.push((ms@[i as int].0@, p@)));
            assert(spec_moved_to(ms@).subrange(0, i + 1) =~= spec_moved_to(ms@).subrange(0, i as int).push(
                spec_moved_to(ms@)[i as int],
            ));
            assert(spec_moved_from(ms@).subrange(0, i + 1) =~= spec_moved_from(ms@).subrange(0, i as int).push(
                spec_moved_from(ms@)[i as int],
            ));
        }
        i = i + 1;
    }
    proof {
        assert(spec_moved_to(ms@).subrange(0, n as int) =~= spec_moved_to(ms@));
        assert(spec_moved_from(ms@).subrange(0, n as int) =~= spec_moved_from(ms@));
    }
    r
}

/// The repository folders or files stored at the remote places `pairs`.
fn tree_entries(repos: &ReposState, pairs: &Vec<(String, String)>) -> (r: Vec<(String, String, String, String)>)
    ensures
        entry_views(r@) == spec_tree_entries(*repos, pair_views(pairs@)),
{
    let ghost pv = pair_views(pairs@);
    let mut r: Vec<(String, String, String, String)> = Vec::new();
    let n = pairs.len();
    let mut i: usize = 0;
    while i < n
        invariant
            n == pairs.len(),
            i <= n,
            pv == pair_views(pairs@),
            entry_views(r@) == spec_tree_entries(*repos, pv.subrange(0, i as int)),
        decreases n - i,
    {
        proof {
            assert(pv.subrange(0, i + 1).drop_last() =~= pv.subrange(0, i as int));
            assert(pv.subrange(0, i + 1).last() == (pairs@[i as int].0@, pairs@[i as int].1@));
        }
        let ghost pre = entry_views(r@);
        let m = &pairs[i].0;
        let p = &pairs[i].1;
        match repo_tree_get(repos, m.as_str(), p.as_str()) {
            Some((rid, enc)) => {
                let ghost e = (m@, p@, rid@, enc@);
                r.push((m.clone(), p.clone(), rid, enc));
                proof {
                    assert(entry_views(r@) =~= pre.push(e));
                }
            },
            None => {},
        }
        i = i + 1;
    }
    proof {
        assert(pv.subrange(0, n as int) =~= pv);
    }
    r
}

fn entry_eq(a: &(String, String, String, String), b: &(String, String, String, String)) -> (r: bool)
    ensures
        r == ((a.0@, a.1@, a.2@, a.3@) == (b.0@, b.1@, b.2@, b.3@)),
{
    crate::strings::str_eq(a.0.as_str(), b.0.as_str()) && crate::strings::str_eq(a.1.as_str(), b.1.as_str())
        && crate::strings::str_eq(a.2.as_str(), b.2.as_str()) && crate::strings::str_eq(a.3.as_str(), b.3.as_str())
}

/// The entries of `v`, each once (the first time it occurs).
fn dedup_entries(v: &Vec<(String, String, String, String)>) -> (r: Vec<(String, String, String, String)>)
    ensures
        forall|e| #[trigger] entry_views(r@).contains(e) == entry_views(v@).contains(e),
        forall|i: int, j: int|
            0 <= i < j < r@.len() ==> #[trigger] entry_views(r@)[i] != #[trigger] entry_views(r@)[j],
{
    let ghost vv = entry_views(v@);
    let mut r: Vec<(String, String, String, String)> = Vec::new();
    let n = v.len();
    let mut i: usize = 0;
    while i < n
        invariant
            n == v.len(),
            i <= n,
            vv == entry_views(v@),
            forall|e| #[trigger] entry_views(r@).contains(e) == vv.subrange(0, i as int).contains(e),
            forall|a: int, b: int|
                0 <= a < b < r@.len() ==> #[trigger] entry_views(r@)[a] != #[trigger] entry_views(r@)[b],
        decreases n - i,
    {
        let e = &v[i];
        let ghost ev = (e.0@, e.1@, e.2@, e.3@);
        assert(vv[i as int] == ev);
        let mut found = false;
        let mut j: usize = 0;
        while j < r.len()
            invariant
                j <= r.len(),
                ev == (e.0@, e.1@, e.2@, e.3@),
                found == exists|a: int| 0 <= a < j && #[trigger] entry_views(r@)[a] == ev,
            decreases r.len() - j,
        {
            if entry_eq(&r[j], e) {
                assert(entry_views(r@)[j as int] == ev);
                found = true;
            }
            j = j + 1;
        }
        let ghost pre = entry_views(r@);
        proof {
            assert(vv.subrange(0, i + 1) =~= vv.subrange(0, i as int).push(ev));
            assert forall|x| #[trigger] vv.subrange(0, i + 1).contains(x) == (vv.subrange(0, i as int).contains(x) || x == ev) by {
                let s = vv.subrange(0, i as int);
                let t = vv.subrange(0, i + 1);
                if t.contains(x) {
                    let a = choose|a: int| 0 <= a < t.len() && t[a] == x;
                    if a < i {
                        assert(s[a] == x);
                    }
                }
                if s.contains(x) {
                    let a = choose|a: int| 0 <= a < s.len() && s[a] == x;
                    assert(t[a] == x);
                }
                if x == ev {
                    assert(t[i as int] == x);
                }
            }
        }
        if !found {
            r.push((e.0.clone(), e.1.clone(), e.2.clone(), e.3.clone()));
            proof {
                assert(entry_views(r@) =~= pre.push(ev));
                assert forall|x| #[trigger] entry_views(r@).contains(x) == (pre.contains(x) || x == ev) by {
                    if entry_views(r@).contains(x) {
                        let a = choose|a: int| 0 <= a < entry_views(r@).len() && entry_views(r@)[a] == x;
                        if a < pre.len() {
                            assert(pre[a] == x);
                        }
                    }
                    if pre.contains(x) {
                        let a = choose|a: int| 0 <= a < pre.len() && pre[a] == x;
                        assert(entry_views(r@)[a] == x);
                    }
                    if x == ev {
                        assert(entry_views(r@)[pre.len() as int] == x);
                    }
                }
            }
        } else {
            proof {
                let a = choose|a: int| 0 <= a < r@.len() && #[trigger] entry_views(r@)[a] == ev;
                assert(pre.contains(ev));
            }
        }
        i = i + 1;
    }
    proof {
        assert(vv.subrange(0, n as int) =~= vv);
    }
    r
}

/// The ids of `news` that `olds` does not hold, in order.
pub open spec fn spec_not_in(olds: Seq<Seq<char>>, news: Seq<Seq<char>>) -> Seq<Seq<char>>
    decreases news.len(),
{
    if news.len() == 0 {
        Seq::empty()
    } else {
        let prev = spec_not_in(olds, news.drop_last());
        if olds.contains(news.last()) {
            prev
        } else {
            prev.push(news.last())
        }
    }
}

/// The children of folder `pid` once `news` are added: the old ones, then the
/// new ones that were not there.
pub open spec fn spec_merged_children(children: Map<Seq<char>, Vec<String>>, pid: Seq<char>, news: Seq<Seq<char>>) -> Seq<
    Seq<char>,
> {
    if children.contains_key(pid) {
        id_views(children[pid]@) + spec_not_in(id_views(children[pid]@), news)
    } else {
        news
    }
}

/// Adds the children `news` to folder `pid` and sorts its children, folders
/// first by name.
fn add_new_children(repo_files: &mut RepoFilesState, pid: &String, news: &Vec<String>)
    ensures
        final(repo_files).files == old(repo_files).files,
        final(repo_files).loaded_roots == old(repo_files).loaded_roots,
        final(repo_files).recent == old(repo_files).recent,
        final(repo_files).children@.dom() == old(repo_files).children@.dom().insert(pid@),
        forall|k: Seq<char>| k != pid@ && #[trigger] old(repo_files).children@.contains_key(k) ==> final(repo_files).children@[k] == old(repo_files).children@[k],
        sorted_files_ok(
            old(repo_files).files@,
            spec_merged_children(old(repo_files).children@, pid@, id_views(news@)),
            default_sort(),
            id_views(final(repo_files).children@[pid@]@),
        ),
{
    let ghost nv = id_views(news@);
    let base: Vec<String> = match repo_files.children.get(pid) {
        Some(c) => {
            let mut b = copy_ids(c);
            let ghost cv = id_views(c@);
            let n = news.len();
            let mut i: usize = 0;
            while i < n
                invariant
                    n == news.len(),
                    i <= n,
                    nv == id_views(news@),
                    cv == id_views(c@),
                    id_views(b@) == cv + spec_not_in(cv, nv.subrange(0, i as int)),
                decreases n - i,
            {
                proof {
                    assert(nv.subrange(0, i + 1).drop_last() =~= nv.subrange(0, i as int));
                    assert(nv.subrange(0, i + 1).last() == news@[i as int]@);
                }
                let ghost pre = id_views(b@);
                if !ids_contain(c, &news[i]) {
                    b.push(news[i].clone());
                    proof {
                        assert(id_views(b@) =~= pre.push(news@[i as int]@));
                    }
                }
                i = i + 1;
            }
            proof {
                assert(nv.subrange(0, n as int) =~= nv);
            }
            b
        },
        None => copy_ids(news),
    };
    let sort = RepoFilesSort {
        field: RepoFilesSortField::Name,
        direction: SortDirection::Asc,
        grouping: SortGrouping::DirsFirst,
    };
    let sorted = select_sorted_files(&repo_files.files, &base, &sort);
    repo_files.children.insert(pid.clone(), sorted);
    proof {
        assert(repo_files.children@.dom() =~= old(repo_files).children@.dom().insert(pid@));
    }
}

/// The (repository, path) of each of `entries`.
pub open spec fn spec_repo_paths(entries: Seq<(Seq<char>, Seq<char>, Seq<char>, Seq<char>)>) -> Seq<(Seq<char>, Seq<char>)> {
    entries.map_values(|e: (Seq<char>, Seq<char>, Seq<char>, Seq<char>)| (e.2, e.3))
}

/// The moves inside one repository among the first `n` old places `from` and
/// new places `to`, taken pairwise: (repository, old path, new path).
pub open spec fn spec_repo_moves(
    from: Seq<(Seq<char>, Seq<char>, Seq<char>, Seq<char>)>,
    to: Seq<(Seq<char>, Seq<char>, Seq<char>, Seq<char>)>,
    n: int,
) -> Seq<(Seq<char>, Seq<char>, Seq<char>)>
    decreases n,
{
    if n <= 0 {
        Seq::empty()
    } else {
        let prev = spec_repo_moves(from, to, n - 1);
        if from[n - 1].2 == to[n - 1].2 {
            prev.push((from[n - 1].2, from[n - 1].3, to[n - 1].3))
        } else {
            prev
        }
    }
}

/// Whether following a remote files mutation decrypts anything: a touched
/// place lies in a repository that can be decrypted there, or a touched
/// repository, or one whose recent files were loaded at its root, has recent
/// files to decrypt.
pub open spec fn spec_remote_mutation_decrypts(state: State, rm: RemoteFilesMutationState) -> bool {
    let m = spec_tree_entries(state.repos, spec_touched_pairs(rm));
    let lr = spec_tree_entries(state.repos, pair_views(rm.loaded_recent@));
    ||| exists|j: int| 0 <= j < m.len() && #[trigger] spec_entry_decryptable(state.repos, m[j])
    ||| exists|j: int| 0 <= j < lr.len() && lr[j].3 == root_path() && #[trigger] spec_recent_decryptable(state, lr[j].2)
    ||| exists|j: int| 0 <= j < m.len() && #[trigger] spec_recent_decryptable(state, m[j].2)
}

pub open spec fn min_len(a: int, b: int) -> int {
    if a < b {
        a
    } else {
        b
    }
}

/// Whether decrypting the folder `e` adds the file `f` to the children of
/// folder `pid`.
pub open spec fn spec_entry_adds(
    repos: ReposState,
    e: (Seq<char>, Seq<char>, Seq<char>, Seq<char>),
    pid: Seq<char>,
    f: Seq<char>,
) -> bool {
    &&& spec_entry_decryptable(repos, e)
    &&& spec_parent_path(e.3) is Some
    &&& pid == spec_repo_file_id(e.2, spec_parent_path(e.3).unwrap())
    &&& f == spec_repo_file_id(e.2, e.3)
}

/// `b` is `a` after `add_new_children` added `news` to folder `pid`.
pub open spec fn spec_add_children_step(a: RepoFilesState, b: RepoFilesState, pid: Seq<char>, news: Seq<Seq<char>>) -> bool {
    &&& b.files == a.files
    &&& b.loaded_roots == a.loaded_roots
    &&& b.recent == a.recent
    &&& b.children@.dom() == a.children@.dom().insert(pid)
    &&& forall|k: Seq<char>| k != pid && #[trigger] a.children@.contains_key(k) ==> b.children@[k] == a.children@[k]
    &&& sorted_files_ok(a.files@, spec_merged_children(a.children@, pid, news), default_sort(), id_views(b.children@[pid]@))
}

/// `b` is `a` after the touched places `m` were decrypted, each distinct one
/// once, in some order (see `spec_decrypt_step`).
pub open spec fn spec_phase_decrypt(
    s: State,
    m: Seq<(Seq<char>, Seq<char>, Seq<char>, Seq<char>)>,
    decs: Map<Seq<char>, FileDecryption>,
    a: RepoFilesState,
    b: RepoFilesState,
) -> bool {
    exists|u: Seq<(Seq<char>, Seq<char>, Seq<char>, Seq<char>)>, dc: Seq<RepoFilesState>|
        #![trigger u.len(), dc[0]]
        (forall|e| #[trigger] u.contains(e) == m.contains(e)) && (forall|i: int, j: int|
            0 <= i < j < u.len() ==> #[trigger] u[i] != #[trigger] u[j]) && dc.len() == u.len() + 1 && dc[0] == a
            && (forall|x: int| 0 <= x < u.len() ==> #[trigger] spec_decrypt_step(s, dc[x], dc[x + 1], u[x], decs)) && b
            == dc[u.len() as int]
}

/// `b` is `a` after each folder that the decryption of `m` added files to got
/// them among its children, sorted (see `add_new_children`), folder by
/// folder in some order.
pub open spec fn spec_phase_children(
    s: State,
    m: Seq<(Seq<char>, Seq<char>, Seq<char>, Seq<char>)>,
    a: RepoFilesState,
    b: RepoFilesState,
) -> bool {
    exists|ps: Seq<(Seq<char>, Seq<Seq<char>>)>, cc: Seq<RepoFilesState>|
        #![trigger ps.len(), cc[0]]
        (forall|i: int, k: int| 0 <= i < k < ps.len() ==> #[trigger] ps[i].0 != #[trigger] ps[k].0) && (forall|
            i: int,
            f: Seq<char>,
        | 0 <= i < ps.len() && #[trigger] ps[i].1.contains(f) ==> exists|x: int|
            0 <= x < m.len() && #[trigger] spec_entry_adds(s.repos, m[x], ps[i].0, f)) && (forall|
            x: int,
            pid: Seq<char>,
            f: Seq<char>,
        | 0 <= x < m.len() && #[trigger] spec_entry_adds(s.repos, m[x], pid, f) ==> exists|i: int|
            0 <= i < ps.len() && ps[i].0 == pid && #[trigger] ps[i].1.contains(f)) && (forall|i: int|
            0 <= i < ps.len() ==> #[trigger] ps[i].1.no_duplicates()) && cc.len() == ps.len() + 1 && cc[0] == a && (
        forall|i: int| 0 <= i < ps.len() ==> #[trigger] spec_add_children_step(cc[i], cc[i + 1], ps[i].0, ps[i].1))
            && b == cc[ps.len() as int]
}

/// `b` is `a` after the recent files of the repository of `e` were decrypted,
/// when `e` is its root; else `a` unchanged.
pub open spec fn spec_root_recent_step(
    s: State,
    a: RepoFilesState,
    b: RepoFilesState,
    e: (Seq<char>, Seq<char>, Seq<char>, Seq<char>),
    decs: Map<Seq<char>, FileDecryption>,
) -> bool {
    if e.3 == root_path() {
        spec_recent_step(s, a, b, e.2, decs)
    } else {
        b == a
    }
}

/// `b` is `a` after the recent files of the repositories in `lr` were
/// decrypted in turn, for those loaded at their root.
pub open spec fn spec_phase_recent_roots(
    s: State,
    lr: Seq<(Seq<char>, Seq<char>, Seq<char>, Seq<char>)>,
    decs: Map<Seq<char>, FileDecryption>,
    a: RepoFilesState,
    b: RepoFilesState,
) -> bool {
    exists|rc: Seq<RepoFilesState>|
        #![trigger rc[0]]
        rc.len() == lr.len() + 1 && rc[0] == a && (forall|j: int|
            0 <= j < lr.len() ==> #[trigger] spec_root_recent_step(s, rc[j], rc[j + 1], lr[j], decs)) && b
            == rc[lr.len() as int]
}

/// `b` is `a` after the recent files of each repository touched by `m` were
/// decrypted, each repository once, in some order.
pub open spec fn spec_phase_recent_touched(
    s: State,
    m: Seq<(Seq<char>, Seq<char>, Seq<char>, Seq<char>)>,
    decs: Map<Seq<char>, FileDecryption>,
    a: RepoFilesState,
    b: RepoFilesState,
) -> bool {
    exists|t: Seq<Seq<char>>, rc: Seq<RepoFilesState>|
        #![trigger t.len(), rc[0]]
        t.no_duplicates() && (forall|x: Seq<char>| #[trigger] t.contains(x) == exists|j: int|
            0 <= j < m.len() && #[trigger] m[j].2 == x) && rc.len() == t.len() + 1 && rc[0] == a && (forall|j: int|
            0 <= j < t.len() ==> #[trigger] spec_recent_step(s, rc[j], rc[j + 1], t[j], decs)) && b == rc[t.len() as int]
}

/// `fin` is what the repository files of `s` become when the remote files
/// mutation `rm` is followed: the touched places are decrypted, the files
/// they add join their folders, then recent files are decrypted for the
/// repositories loaded at their root and for the touched ones.
pub open spec fn spec_remote_mutation_files(
    s: State,
    rm: RemoteFilesMutationState,
    decs: Map<Seq<char>, FileDecryption>,
    fin: RepoFilesState,
) -> bool {
    let m = spec_tree_entries(s.repos, spec_touched_pairs(rm));
    let lr = spec_tree_entries(s.repos, pair_views(rm.loaded_recent@));
    exists|x1: RepoFilesState, x2: RepoFilesState, x3: RepoFilesState|
        #![trigger spec_phase_decrypt(s, m, decs, s.repo_files, x1), spec_phase_children(s, m, x1, x2), spec_phase_recent_roots(s, lr, decs, x2, x3)]
        spec_phase_decrypt(s, m, decs, s.repo_files, x1) && spec_phase_children(s, m, x1, x2)
            && spec_phase_recent_roots(s, lr, decs, x2, x3) && spec_phase_recent_touched(s, m, decs, x3, fin)
}

/// Follows a remote files mutation: decrypts again each repository folder or
/// file stored at a touched remote place and adds the new ones to their
/// folders, decrypts the recent files of the touched repositories, and
/// records the repository files that were removed or moved inside a
/// repository. `decryptions` holds, by remote file id, what the
/// repositories' ciphers made of the remote files. Returns whether the
/// repository files changed or moved; the store then hands that change on.
pub fn handle_remote_files_mutation(
    state: &mut State,
    notify: &mut Notify,
    mutation_state: &mut MutationState,
    decryptions: &KeyMap<String, FileDecryption>,
) -> (r: bool)
    ensures
        same_but_repo_files(*old(state), *final(state)),
        final(mutation_state).remote_files == old(mutation_state).remote_files,
        final(mutation_state).repos == old(mutation_state).repos,
        pair_views(final(mutation_state).repo_files.removed_files@) == pair_views(
            old(mutation_state).repo_files.removed_files@,
        ) + spec_repo_paths(
            spec_tree_entries(old(state).repos, pair_views(old(mutation_state).remote_files.removed_files@)),
        ),
        triple_views(final(mutation_state).repo_files.moved_files@) == triple_views(
            old(mutation_state).repo_files.moved_files@,
        ) + {
            let from = spec_tree_entries(old(state).repos, spec_moved_from(old(mutation_state).remote_files.moved_files@));
            let to = spec_tree_entries(old(state).repos, spec_moved_to(old(mutation_state).remote_files.moved_files@));
            spec_repo_moves(from, to, min_len(from.len() as int, to.len() as int))
        },
        final(notify).events@ == if spec_remote_mutation_decrypts(*old(state), old(mutation_state).remote_files) {
            old(notify).events@.push(Event::RepoFiles)
        } else {
            old(notify).events@
        },
        r == (spec_remote_mutation_decrypts(*old(state), old(mutation_state).remote_files)
            || final(mutation_state).repo_files.removed_files@.len() > old(mutation_state).repo_files.removed_files@.len()
            || final(mutation_state).repo_files.moved_files@.len() > old(mutation_state).repo_files.moved_files@.len()),
        spec_grown_within(old(state).repo_files, final(state).repo_files, old(state).repos),
        forall|k: Seq<char>| #[trigger] final(state).repo_files.recent@.contains_key(k) ==> old(state).repo_files.recent@.contains_key(k)
            || spec_recent_decryptable(*old(state), k),
        spec_remote_mutation_files(*old(state), old(mutation_state).remote_files, decryptions@, final(state).repo_files),
{
    let ghost s0 = *state;
    let ghost rm0 = mutation_state.remote_files;
    let mut pairs: Vec<(String, String)> = Vec::new();
    let from = moved_pairs(&mutation_state.remote_files.moved_files, false);
    let to = moved_pairs(&mutation_state.remote_files.moved_files, true);
    append_pairs(&mut pairs, &mutation_state.remote_files.loaded_roots);
    append_pairs(&mut pairs, &mutation_state.remote_files.created_files);
    append_parents(&mut pairs, &mutation_state.remote_files.created_files);
    append_pairs(&mut pairs, &mutation_state.remote_files.removed_files);
    append_parents(&mut pairs, &mutation_state.remote_files.removed_files);
    append_pairs(&mut pairs, &from);
    append_parents(&mut pairs, &from);
    append_pairs(&mut pairs, &to);
    append_parents(&mut pairs, &to);
    append_pairs(&mut pairs, &mutation_state.remote_files.tags_updated);
    append_parents(&mut pairs, &mutation_state.remote_files.tags_updated);
    proof {
        assert(pair_views(pairs@) =~= spec_touched_pairs(rm0));
    }
    let entries = tree_entries(&state.repos, &pairs);
    let ghost m = entry_views(entries@);
    let uniq = dedup_entries(&entries);
    let ghost u = entry_views(uniq@);
    let mut touched: Vec<String> = Vec::new();
    let mut parents: KeyMap<String, Vec<String>> = KeyMap::new();
    let mut dirty = false;
    let n = uniq.len();
    let mut j: usize = 0;
    let ghost mut dc: Seq<RepoFilesState> = seq![state.repo_files];
    while j < n
        invariant
            dc.len() == j + 1,
            dc[0] == s0.repo_files,
            dc[j as int] == state.repo_files,
            forall|x: int| 0 <= x < j ==> #[trigger] spec_decrypt_step(s0, dc[x], dc[x + 1], u[x], decryptions@),
            id_views(touched@).no_duplicates(),
            forall|pid: Seq<char>, f: Seq<char>|
                parents@.contains_key(pid) && #[trigger] id_views(parents@[pid]@).contains(f) ==> exists|a: int|
                    0 <= a < j && #[trigger] spec_entry_adds(s0.repos, u[a], pid, f),
            forall|a: int, pid: Seq<char>, f: Seq<char>|
                0 <= a < j && #[trigger] spec_entry_adds(s0.repos, u[a], pid, f) ==> parents@.contains_key(pid)
                    && id_views(parents@[pid]@).contains(f),
            forall|pid: Seq<char>| #[trigger] parents@.contains_key(pid) ==> id_views(parents@[pid]@).no_duplicates(),
            n == uniq.len(),
            j <= n,
            u == entry_views(uniq@),
            same_but_repo_files(s0, *state),
            spec_grown_within(s0.repo_files, state.repo_files, s0.repos),
            state.repo_files.recent@ == s0.repo_files.recent@,
            forall|x: Seq<char>| #[trigger] id_views(touched@).contains(x) == exists|a: int| 0 <= a < j && #[trigger] u[a].2 == x,
            forall|k: Seq<char>| #[trigger] parents@.contains_key(k) ==> spec_in_unlocked_repo(s0.repos, k),
            dirty == exists|a: int| 0 <= a < j && #[trigger] spec_entry_decryptable(s0.repos, u[a]),
        decreases n - j,
    {
        let e = &uniq[j];
        assert(u[j as int] == (e.0@, e.1@, e.2@, e.3@));
        let ghost tv = id_views(touched@);
        if !ids_contain(&touched, &e.2) {
            touched.push(e.2.clone());
            proof {
                assert(id_views(touched@) =~= tv.push(e.2@));
                assert forall|x: int, y: int| 0 <= x < y < id_views(touched@).len() implies id_views(touched@)[x] != id_views(touched@)[y] by {
                    if y == tv.len() {
                        assert(tv[x] == id_views(touched@)[x]);
                        assert(tv.contains(tv[x]));
                    } else {
                        assert(tv[x] != tv[y]);
                    }
                }
            }
        }
        proof {
            assert forall|x: Seq<char>| #[trigger] id_views(touched@).contains(x) == exists|a: int| 0 <= a < j + 1 && #[trigger] u[a].2 == x by {
                if id_views(touched@).contains(x) && x != e.2@ {
                    let b = choose|b: int| 0 <= b < id_views(touched@).len() && id_views(touched@)[b] == x;
                    if b < tv.len() {
                        assert(tv[b] == x);
                        assert(tv.contains(x));
                    }
                }
                if exists|a: int| 0 <= a < j + 1 && #[trigger] u[a].2 == x {
                    let a = choose|a: int| 0 <= a < j + 1 && #[trigger] u[a].2 == x;
                    if a < j {
                        assert(tv.contains(x));
                        if !id_views(touched@).contains(x) {
                            let b = choose|b: int| 0 <= b < tv.len() && tv[b] == x;
                            assert(id_views(touched@)[b] == x);
                        }
                    } else {
                        if tv.contains(x) && !id_views(touched@).contains(x) {
                            let b = choose|b: int| 0 <= b < tv.len() && tv[b] == x;
                            assert(id_views(touched@)[b] == x);
                        }
                        if !tv.contains(x) {
                            assert(id_views(touched@)[tv.len() as int] == x);
                        }
                    }
                }
                if x == e.2@ && !tv.contains(x) {
                    assert(u[j as int].2 == x);
                }
                if x == e.2@ && tv.contains(x) && !id_views(touched@).contains(x) {
                    let b = choose|b: int| 0 <= b < tv.len() && tv[b] == x;
                    assert(id_views(touched@)[b] == x);
                }
            }
        }
        let valid = is_root(e.3.as_str()) || parent_path(e.3.as_str()).is_some();
        let ghost before = state.repo_files;
        let ghost pbefore = parents@;
        let mut done = false;
        match state.repos.repos_by_id.get(&e.2) {
            Some(repo) => {
                if repo.state.is_unlocked() && valid {
                    decrypt_files(
                        &state.remote_files,
                        &mut state.repo_files,
                        e.0.as_str(),
                        e.1.as_str(),
                        repo,
                        e.3.as_str(),
                        decryptions,
                        &state.file_types,
                    );
                    proof {
                        lemma_files_decrypted_grown(
                            before,
                            state.repo_files,
                            s0.remote_files,
                            e.0@,
                            e.1@,
                            *repo,
                            e.3@,
                            decryptions@,
                            s0.file_types,
                            s0.repos,
                            e.2@,
                        );
                    }
                    match parent_path(e.3.as_str()) {
                        Some(pp) => {
                            let pid = get_file_id(e.2.as_str(), pp.as_str());
                            let fid = get_file_id(e.2.as_str(), e.3.as_str());
                            proof {
                                lemma_repo_file_id_prefix(e.2@, pp@);
                                assert(spec_repo_prefix(e.2@).is_prefix_of(pid@));
                                let x = e.2@;
                                assert(s0.repos.repos_by_id@[x] == *repo);
                                assert(spec_in_unlocked_repo(s0.repos, pid@));
                            }
                            let ghost pre = parents@;
                            let ghost pidv = pid@;
                            let ghost fidv = fid@;
                            let mut list: Vec<String> = match parents.get(&pid) {
                                Some(l) => copy_ids(l),
                                None => Vec::new(),
                            };
                            let ghost lv0 = id_views(list@);
                            proof {
                                if !pre.contains_key(pidv) {
                                    assert(lv0 =~= Seq::<Seq<char>>::empty());
                                }
                            }
                            if !ids_contain(&list, &fid) {
                                list.push(fid);
                                proof {
                                    assert(id_views(list@) =~= lv0.push(fidv));
                                    assert forall|x: int, y: int| 0 <= x < y < id_views(list@).len() implies id_views(list@)[x] != id_views(list@)[y] by {
                                        if y == lv0.len() {
                                            assert(lv0.contains(lv0[x]));
                                        }
                                    }
                                }
                            }
                            proof {
                                assert forall|g: Seq<char>| #[trigger] id_views(list@).contains(g) == (lv0.contains(g) || g == fidv) by {
                                    if id_views(list@).contains(g) && g != fidv {
                                        let b = choose|b: int| 0 <= b < id_views(list@).len() && id_views(list@)[b] == g;
                                        assert(lv0[b] == g);
                                    }
                                    if lv0.contains(g) {
                                        let b = choose|b: int| 0 <= b < lv0.len() && lv0[b] == g;
                                        assert(id_views(list@)[b] == g);
                                    }
                                    if g == fidv && !lv0.contains(g) {
                                        assert(id_views(list@)[lv0.len() as int] == g);
                                    }
                                }
                                assert(spec_entry_adds(s0.repos, u[j as int], pidv, fidv));
                            }
                            parents.insert(pid, list);
                        },
                        None => {},
                    }
                    done = true;
                }
            },
            None => {},
        }
        proof {
            assert(done == spec_entry_decryptable(s0.repos, u[j as int]));
            assert(spec_decrypt_step(s0, before, state.repo_files, u[j as int], decryptions@));
            let dc2 = dc.push(state.repo_files);
            assert forall|x: int| 0 <= x < j + 1 implies #[trigger] spec_decrypt_step(s0, dc2[x], dc2[x + 1], u[x], decryptions@) by {
                if x < j {
                    assert(dc2[x] == dc[x] && dc2[x + 1] == dc[x + 1]);
                }
            }
            dc = dc2;
            assert forall|pid: Seq<char>, f: Seq<char>|
                parents@.contains_key(pid) && #[trigger] id_views(parents@[pid]@).contains(f) implies exists|a: int|
                    0 <= a < j + 1 && #[trigger] spec_entry_adds(s0.repos, u[a], pid, f) by {
                if pbefore.contains_key(pid) && parents@[pid] == pbefore[pid] {
                    let a = choose|a: int| 0 <= a < j && #[trigger] spec_entry_adds(s0.repos, u[a], pid, f);
                } else {
                    if pbefore.contains_key(pid) && id_views(pbefore[pid]@).contains(f) {
                        let a = choose|a: int| 0 <= a < j && #[trigger] spec_entry_adds(s0.repos, u[a], pid, f);
                    } else {
                        assert(spec_entry_adds(s0.repos, u[j as int], pid, f));
                    }
                }
            }
            assert forall|a: int, pid: Seq<char>, f: Seq<char>|
                0 <= a < j + 1 && #[trigger] spec_entry_adds(s0.repos, u[a], pid, f) implies parents@.contains_key(pid)
                    && id_views(parents@[pid]@).contains(f) by {
                if a < j {
                    assert(pbefore.contains_key(pid) && id_views(pbefore[pid]@).contains(f));
                }
            }
        }
        if done {
            dirty = true;
        }
        j = j + 1;
    }
    // Add the decrypted files to their folders.
    let ghost s_mid = state.repo_files;
    proof {
        assert(spec_phase_decrypt(s0, m, decryptions@, s0.repo_files, s_mid)) by {
            assert(u.len() == n);
            assert(dc[0] == s0.repo_files);
        }
    }
    let pids = parents.keys();
    let np = pids.len();
    let mut k: usize = 0;
    let ghost mut ps: Seq<(Seq<char>, Seq<Seq<char>>)> = Seq::empty();
    let ghost mut cc: Seq<RepoFilesState> = seq![state.repo_files];
    while k < np
        invariant
            ps.len() == k,
            cc.len() == k + 1,
            cc[0] == s_mid,
            cc[k as int] == state.repo_files,
            forall|i: int| 0 <= i < k ==> #[trigger] ps[i] == (pids@[i]@, id_views(parents@[pids@[i]@]@)),
            forall|i: int| 0 <= i < k ==> #[trigger] spec_add_children_step(cc[i], cc[i + 1], ps[i].0, ps[i].1),
            np == pids.len(),
            k <= np,
            same_but_repo_files(s0, *state),
            spec_grown_within(s0.repo_files, state.repo_files, s0.repos),
            state.repo_files.recent@ == s0.repo_files.recent@,
            forall|i: int| 0 <= i < pids.len() ==> parents@.contains_key(#[trigger] pids@[i]@),
            forall|x: Seq<char>| #[trigger] parents@.contains_key(x) ==> spec_in_unlocked_repo(s0.repos, x),
        decreases np - k,
    {
        let pid = &pids[k];
        assert(parents@.contains_key(pids@[k as int]@));
        let ghost cbefore = state.repo_files;
        match parents.get(pid) {
            Some(news) => {
                let ghost before = state.repo_files;
                add_new_children(&mut state.repo_files, pid, news);
                proof {
                    assert(spec_add_children_step(before, state.repo_files, pid@, id_views(news@)));
                }
                proof {
                    assert forall|x: Seq<char>| #[trigger] state.repo_files.children@.contains_key(x) implies s0.repo_files.children@.contains_key(x)
                        || spec_in_unlocked_repo(s0.repos, x) by {
                        if x != pid@ {
                            assert(before.children@.contains_key(x));
                        }
                    }
                }
            },
            None => {},
        }
        proof {
            let ps2 = ps.push((pids@[k as int]@, id_views(parents@[pids@[k as int]@]@)));
            let cc2 = cc.push(state.repo_files);
            assert(spec_add_children_step(cbefore, state.repo_files, ps2[k as int].0, ps2[k as int].1));
            assert forall|i: int| 0 <= i < k + 1 implies #[trigger] spec_add_children_step(cc2[i], cc2[i + 1], ps2[i].0, ps2[i].1) by {
                if i < k {
                    assert(cc2[i] == cc[i] && cc2[i + 1] == cc[i + 1] && ps2[i] == ps[i]);
                }
            }
            assert forall|i: int| 0 <= i < k + 1 implies #[trigger] ps2[i] == (pids@[i]@, id_views(parents@[pids@[i]@]@)) by {
                if i < k {
                    assert(ps2[i] == ps[i]);
                }
            }
            ps = ps2;
            cc = cc2;
        }
        k = k + 1;
    }
    let ghost s_mid2 = state.repo_files;
    proof {
        assert forall|i: int, k2: int| 0 <= i < k2 < ps.len() implies #[trigger] ps[i].0 != #[trigger] ps[k2].0 by {
            assert(ps[i] == (pids@[i]@, id_views(parents@[pids@[i]@]@)));
            assert(ps[k2] == (pids@[k2]@, id_views(parents@[pids@[k2]@]@)));
        }
        assert forall|i: int, f: Seq<char>| 0 <= i < ps.len() && #[trigger] ps[i].1.contains(f) implies exists|x: int|
            0 <= x < m.len() && #[trigger] spec_entry_adds(s0.repos, m[x], ps[i].0, f) by {
            assert(ps[i] == (pids@[i]@, id_views(parents@[pids@[i]@]@)));
            assert(parents@.contains_key(pids@[i]@));
            let a = choose|a: int| 0 <= a < n && #[trigger] spec_entry_adds(s0.repos, u[a], ps[i].0, f);
            assert(u.contains(u[a]));
            assert(m.contains(u[a]));
            let x = choose|x: int| 0 <= x < m.len() && m[x] == u[a];
            assert(spec_entry_adds(s0.repos, m[x], ps[i].0, f));
        }
        assert forall|x: int, pid: Seq<char>, f: Seq<char>| 0 <= x < m.len() && #[trigger] spec_entry_adds(s0.repos, m[x], pid, f) implies exists|i: int|
            0 <= i < ps.len() && ps[i].0 == pid && #[trigger] ps[i].1.contains(f) by {
            assert(m.contains(m[x]));
            assert(u.contains(m[x]));
            let a = choose|a: int| 0 <= a < u.len() && u[a] == m[x];
            assert(spec_entry_adds(s0.repos, u[a], pid, f));
            assert(parents@.contains_key(pid));
            let i = choose|i: int| 0 <= i < pids.len() && pids@[i]@ == pid;
            assert(ps[i] == (pids@[i]@, id_views(parents@[pids@[i]@]@)));
            assert(ps[i].1.contains(f));
        }
        assert forall|i: int| 0 <= i < ps.len() implies #[trigger] ps[i].1.no_duplicates() by {
            assert(ps[i] == (pids@[i]@, id_views(parents@[pids@[i]@]@)));
            assert(parents@.contains_key(pids@[i]@));
        }
        assert(spec_phase_children(s0, m, s_mid, s_mid2)) by {
            assert(ps.len() == np);
            assert(cc[0] == s_mid);
        }
    }
    // Decrypt the recent files of repositories loaded at their root, then of
    // the touched ones.
    let ghost dirty1 = dirty;
    let lr = tree_entries(&state.repos, &mutation_state.remote_files.loaded_recent);
    let ghost lrv = entry_views(lr@);
    let nl = lr.len();
    let mut a: usize = 0;
    let ghost mut rc1: Seq<RepoFilesState> = seq![state.repo_files];
    while a < nl
        invariant
            rc1.len() == a + 1,
            rc1[0] == s_mid2,
            rc1[a as int] == state.repo_files,
            forall|j2: int| 0 <= j2 < a ==> #[trigger] spec_root_recent_step(s0, rc1[j2], rc1[j2 + 1], lrv[j2], decryptions@),
            nl == lr.len(),
            a <= nl,
            lrv == entry_views(lr@),
            same_but_repo_files(s0, *state),
            spec_grown_within(s0.repo_files, state.repo_files, s0.repos),
            forall|x: Seq<char>| #[trigger] state.repo_files.recent@.contains_key(x) ==> s0.repo_files.recent@.contains_key(x)
                || spec_recent_decryptable(s0, x),
            dirty == (dirty1 || exists|b: int|
                0 <= b < a && lrv[b].3 == root_path() && #[trigger] spec_recent_decryptable(s0, lrv[b].2)),
        decreases nl - a,
    {
        let e = &lr[a];
        assert(lrv[a as int] == (e.0@, e.1@, e.2@, e.3@));
        let ghost before = *state;
        let mut decrypted = false;
        if is_root(e.3.as_str()) {
            decrypted = decrypt_recent_files_repo(state, &e.2, decryptions);
            proof {
                grown_after_recent(before, *state, s0, e.2@, decryptions@);
            }
        }
        proof {
            assert(spec_recent_decryptable(before, e.2@) == spec_recent_decryptable(s0, e.2@));
            assert(decrypted == (lrv[a as int].3 == root_path() && spec_recent_decryptable(s0, lrv[a as int].2)));
            assert((exists|b: int| 0 <= b < a + 1 && lrv[b].3 == root_path() && #[trigger] spec_recent_decryptable(s0, lrv[b].2))
                == ((exists|b: int| 0 <= b < a && lrv[b].3 == root_path() && #[trigger] spec_recent_decryptable(s0, lrv[b].2))
                || decrypted)) by {
                if decrypted {
                    assert(spec_recent_decryptable(s0, lrv[a as int].2));
                }
            }
        }
        proof {
            let rc2 = rc1.push(state.repo_files);
            if lrv[a as int].3 == root_path() {
                assert(spec_recent_step(s0, before.repo_files, state.repo_files, lrv[a as int].2, decryptions@));
            }
            assert(spec_root_recent_step(s0, before.repo_files, state.repo_files, lrv[a as int], decryptions@));
            assert forall|j2: int| 0 <= j2 < a + 1 implies #[trigger] spec_root_recent_step(s0, rc2[j2], rc2[j2 + 1], lrv[j2], decryptions@) by {
                if j2 < a {
                    assert(rc2[j2] == rc1[j2] && rc2[j2 + 1] == rc1[j2 + 1]);
                }
            }
            rc1 = rc2;
        }
        if decrypted {
            dirty = true;
        }
        a = a + 1;
    }
    let ghost s_mid3 = state.repo_files;
    proof {
        assert(lrv == spec_tree_entries(s0.repos, pair_views(rm0.loaded_recent@)));
        assert(spec_phase_recent_roots(s0, lrv, decryptions@, s_mid2, s_mid3)) by {
            assert(rc1[0] == s_mid2);
        }
    }
    let ghost dirty2 = dirty;
    let nt = touched.len();
    let mut t: usize = 0;
    let ghost tv = id_views(touched@);
    let ghost mut rc3: Seq<RepoFilesState> = seq![state.repo_files];
    while t < nt
        invariant
            tv == id_views(touched@),
            rc3.len() == t + 1,
            rc3[0] == s_mid3,
            rc3[t as int] == state.repo_files,
            forall|j2: int| 0 <= j2 < t ==> #[trigger] spec_recent_step(s0, rc3[j2], rc3[j2 + 1], tv[j2], decryptions@),
            nt == touched.len(),
            t <= nt,
            same_but_repo_files(s0, *state),
            spec_grown_within(s0.repo_files, state.repo_files, s0.repos),
            forall|x: Seq<char>| #[trigger] state.repo_files.recent@.contains_key(x) ==> s0.repo_files.recent@.contains_key(x)
                || spec_recent_decryptable(s0, x),
            dirty == (dirty2 || exists|b: int| 0 <= b < t && #[trigger] spec_recent_decryptable(s0, touched@[b]@)),
        decreases nt - t,
    {
        let ghost before = *state;
        let decrypted = decrypt_recent_files_repo(state, &touched[t], decryptions);
        proof {
            assert(tv[t as int] == touched@[t as int]@);
            assert(spec_recent_step(s0, before.repo_files, state.repo_files, tv[t as int], decryptions@));
            let rc2 = rc3.push(state.repo_files);
            assert forall|j2: int| 0 <= j2 < t + 1 implies #[trigger] spec_recent_step(s0, rc2[j2], rc2[j2 + 1], tv[j2], decryptions@) by {
                if j2 < t {
                    assert(rc2[j2] == rc3[j2] && rc2[j2 + 1] == rc3[j2 + 1]);
                }
            }
            rc3 = rc2;
        }
        proof {
            grown_after_recent(before, *state, s0, touched@[t as int]@, decryptions@);
            assert(spec_recent_decryptable(before, touched@[t as int]@) == spec_recent_decryptable(s0, touched@[t as int]@));
        }
        if decrypted {
            dirty = true;
        }
        t = t + 1;
    }
    proof {
        assert forall|x: Seq<char>| #[trigger] tv.contains(x) == exists|j2: int| 0 <= j2 < m.len() && #[trigger] m[j2].2 == x by {
            if tv.contains(x) {
                let a2 = choose|a2: int| 0 <= a2 < n && #[trigger] u[a2].2 == x;
                assert(u.contains(u[a2]));
                assert(m.contains(u[a2]));
                let y = choose|y: int| 0 <= y < m.len() && m[y] == u[a2];
                assert(m[y].2 == x);
            }
            if exists|j2: int| 0 <= j2 < m.len() && #[trigger] m[j2].2 == x {
                let y = choose|y: int| 0 <= y < m.len() && #[trigger] m[y].2 == x;
                assert(m.contains(m[y]));
                assert(u.contains(m[y]));
                let a2 = choose|a2: int| 0 <= a2 < u.len() && u[a2] == m[y];
                assert(u[a2].2 == x);
            }
        }
        assert(spec_phase_recent_touched(s0, m, decryptions@, s_mid3, state.repo_files)) by {
            assert(tv.len() == nt);
            assert(rc3[0] == s_mid3);
        }
        assert(m == spec_tree_entries(s0.repos, spec_touched_pairs(rm0)));
        assert(spec_remote_mutation_files(s0, rm0, decryptions@, state.repo_files));
    }
    proof {
        let d = spec_remote_mutation_decrypts(s0, rm0);
        assert(m == spec_tree_entries(s0.repos, spec_touched_pairs(rm0)));
        // The touched entries and their distinct copies hold the same entries.
        if exists|a: int| 0 <= a < m.len() && #[trigger] spec_entry_decryptable(s0.repos, m[a]) {
            let a = choose|a: int| 0 <= a < m.len() && #[trigger] spec_entry_decryptable(s0.repos, m[a]);
            assert(m.contains(m[a]));
            assert(u.contains(m[a]));
            let b = choose|b: int| 0 <= b < u.len() && u[b] == m[a];
            assert(spec_entry_decryptable(s0.repos, u[b]));
        }
        if exists|a: int| 0 <= a < n && #[trigger] spec_entry_decryptable(s0.repos, u[a]) {
            let a = choose|a: int| 0 <= a < n && #[trigger] spec_entry_decryptable(s0.repos, u[a]);
            assert(u.contains(u[a]));
            assert(m.contains(u[a]));
            let b = choose|b: int| 0 <= b < m.len() && m[b] == u[a];
            assert(spec_entry_decryptable(s0.repos, m[b]));
        }
        if exists|a: int| 0 <= a < m.len() && #[trigger] spec_recent_decryptable(s0, m[a].2) {
            let a = choose|a: int| 0 <= a < m.len() && #[trigger] spec_recent_decryptable(s0, m[a].2);
            assert(m.contains(m[a]));
            assert(u.contains(m[a]));
            let b = choose|b: int| 0 <= b < u.len() && u[b] == m[a];
            assert(u[b].2 == m[a].2);
            assert(id_views(touched@).contains(m[a].2));
            let c = choose|c: int| 0 <= c < id_views(touched@).len() && id_views(touched@)[c] == m[a].2;
            assert(spec_recent_decryptable(s0, touched@[c]@));
        }
        if exists|b: int| 0 <= b < nt && #[trigger] spec_recent_decryptable(s0, touched@[b]@) {
            let b = choose|b: int| 0 <= b < nt && #[trigger] spec_recent_decryptable(s0, touched@[b]@);
            assert(id_views(touched@)[b] == touched@[b]@);
            assert(id_views(touched@).contains(touched@[b]@));
            let a = choose|a: int| 0 <= a < n && #[trigger] u[a].2 == touched@[b]@;
            assert(u.contains(u[a]));
            assert(m.contains(u[a]));
            let c = choose|c: int| 0 <= c < m.len() && m[c] == u[a];
            assert(spec_recent_decryptable(s0, m[c].2));
        }
        assert(dirty == d);
    }
    if dirty {
        notify.notify(Event::RepoFiles);
    }
    // Record the removed and moved repository files.
    let removed = tree_entries(&state.repos, &mutation_state.remote_files.removed_files);
    let fe = tree_entries(&state.repos, &from);
    let te = tree_entries(&state.repos, &to);
    let ghost rv = entry_views(removed@);
    let ghost old_removed = pair_views(mutation_state.repo_files.removed_files@);
    let nr = removed.len();
    let mut i: usize = 0;
    while i < nr
        invariant
            nr == removed.len(),
            i <= nr,
            rv == entry_views(removed@),
            mutation_state.remote_files == rm0,
            mutation_state.repos == old(mutation_state).repos,
            mutation_state.repo_files.moved_files == old(mutation_state).repo_files.moved_files,
            pair_views(mutation_state.repo_files.removed_files@) == old_removed + spec_repo_paths(rv.subrange(0, i as int)),
        decreases nr - i,
    {
        let ghost pre = pair_views(mutation_state.repo_files.removed_files@);
        mutation_state.repo_files.removed_files.push((removed[i].2.clone(), removed[i].3.clone()));
        proof {
            assert(pair_views(mutation_state.repo_files.removed_files@) =~= pre.push((rv[i as int].2, rv[i as int].3)));
            assert(spec_repo_paths(rv.subrange(0, i + 1)) =~= spec_repo_paths(rv.subrange(0, i as int)).push(
                (rv[i as int].2, rv[i as int].3),
            ));
        }
        i = i + 1;
    }
    proof {
        assert(rv.subrange(0, nr as int) =~= rv);
    }
    let ghost fv = entry_views(fe@);
    let ghost tv = entry_views(te@);
    let ghost old_moved = triple_views(mutation_state.repo_files.moved_files@);
    let old_moved_len = mutation_state.repo_files.moved_files.len();
    let nm = if fe.len() < te.len() {
        fe.len()
    } else {
        te.len()
    };
    let mut i: usize = 0;
    while i < nm
        invariant
            nm <= fe.len(),
            nm <= te.len(),
            i <= nm,
            fv == entry_views(fe@),
            tv == entry_views(te@),
            mutation_state.remote_files == rm0,
            mutation_state.repos == old(mutation_state).repos,
            triple_views(mutation_state.repo_files.moved_files@) == old_moved + spec_repo_moves(fv, tv, i as int),
            old_moved.len() == old_moved_len,
            pair_views(mutation_state.repo_files.removed_files@) == old_removed + spec_repo_paths(rv),
        decreases nm - i,
    {
        let ghost pre = triple_views(mutation_state.repo_files.moved_files@);
        if crate::strings::str_eq(fe[i].2.as_str(), te[i].2.as_str()) {
            mutation_state.repo_files.moved_files.push((fe[i].2.clone(), fe[i].3.clone(), te[i].3.clone()));
            proof {
                assert(triple_views(mutation_state.repo_files.moved_files@) =~= pre.push(
                    (fv[i as int].2, fv[i as int].3, tv[i as int].3),
                ));
            }
        }
        i = i + 1;
    }
    let grew = removed.len() > 0 || mutation_state.repo_files.moved_files.len() > old_moved_len;
    proof {
        assert(spec_repo_paths(rv).len() == rv.len());
    }
    dirty || grew
}

/// The prefix of the ids of the files under a file: its id and a '/'.
pub open spec fn spec_subtree_prefix(file_id: Seq<char>) -> Seq<char> {
    if file_id.len() > 0 && file_id.last() == '/' {
        file_id
    } else {
        file_id + seq!['/']
    }
}

/// Whether `k` is the id of the file `file_id` or of a file under it.
pub open spec fn in_subtree(file_id: Seq<char>, k: Seq<char>) -> bool {
    k == file_id || spec_subtree_prefix(file_id).is_prefix_of(k)
}

/// Forgets a file, the files under it, and the children lists of all of them.
pub fn cleanup_file(repo_files: &mut RepoFilesState, file_id: &str)
    ensures
        forall|k: Seq<char>| #[trigger] final(repo_files).files@.contains_key(k) == (old(repo_files).files@.contains_key(k) && !in_subtree(file_id@, k)),
        forall|k: Seq<char>| #[trigger] final(repo_files).files@.contains_key(k) ==> final(repo_files).files@[k] == old(repo_files).files@[k],
        forall|k: Seq<char>| #[trigger] final(repo_files).children@.contains_key(k) == (old(repo_files).children@.contains_key(k) && !in_subtree(file_id@, k)),
        forall|k: Seq<char>| #[trigger] final(repo_files).children@.contains_key(k) ==> final(repo_files).children@[k] == old(repo_files).children@[k],
        final(repo_files).loaded_roots@ == old(repo_files).loaded_roots@,
        final(repo_files).recent@ == old(repo_files).recent@,
{
    let id = copy_str(file_id);
    repo_files.files.remove(&id);
    let prefix = if ends_with_char(file_id, '/') {
        copy_str(file_id)
    } else {
        let p = concat(file_id, "/");
        proof {
            reveal_strlit("/");
        }
        p
    };
    repo_files.files.retain_not_prefixed(prefix.as_str());
    repo_files.children.remove(&id);
    repo_files.children.retain_not_prefixed(prefix.as_str());
}

/// Sorts the children of a folder: folders first, then by name.
pub fn sort_children(repo_files: &mut RepoFilesState, file_id: &String)
    ensures
        final(repo_files).files == old(repo_files).files,
        final(repo_files).loaded_roots == old(repo_files).loaded_roots,
        final(repo_files).recent == old(repo_files).recent,
        final(repo_files).children@.dom() == old(repo_files).children@.dom(),
        forall|k: Seq<char>| k != file_id@ && #[trigger] old(repo_files).children@.contains_key(k) ==> final(repo_files).children@[k] == old(repo_files).children@[k],
        old(repo_files).children@.contains_key(file_id@) ==> sorted_files_ok(
            old(repo_files).files@,
            id_views(old(repo_files).children@[file_id@]@),
            default_sort(),
            id_views(final(repo_files).children@[file_id@]@),
        ),
        old(repo_files).children@.contains_key(file_id@) ==> exists|s: Seq<RepoFile>, p: Seq<int>|
            #[trigger] crate::repo_files::selectors::placed_from(
                crate::keymap::spec_values_of_ids(old(repo_files).files@, id_views(old(repo_files).children@[file_id@]@)),
                s,
                p,
            ) && id_views(final(repo_files).children@[file_id@]@)
                == crate::repo_files::selectors::file_ids(s)
                && crate::repo_files::selectors::sort_ties_kept(
                default_sort(),
                crate::keymap::spec_values_of_ids(old(repo_files).files@, id_views(old(repo_files).children@[file_id@]@)),
                s,
                p,
            ),
{
    let sorted = match repo_files.children.get(file_id) {
        Some(children) => {
            let sort = RepoFilesSort {
                field: RepoFilesSortField::Name,
                direction: SortDirection::Asc,
                grouping: SortGrouping::DirsFirst,
            };
            select_sorted_files(&repo_files.files, children, &sort)
        },
        None => {
            return;
        },
    };
    repo_files.children.insert(file_id.clone(), sorted);
    proof {
        assert(repo_files.children@.dom() =~= old(repo_files).children@.dom());
    }
}

} // verus!
