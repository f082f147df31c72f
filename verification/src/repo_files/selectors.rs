//! Reading the files of repositories.
use vstd::prelude::*;
use vstd::string::*;

use crate::common::{SortDirection, SortGrouping};
use crate::keymap::{spec_values_of_ids, values_of_ids, KeyMap};
use crate::paths::{join_path_name, parent_path, path_to_name, paths_chain, root_path, spec_join_path_name, spec_join_paths, spec_parent_path, spec_path_to_name, spec_paths_chain};
use crate::remote::{ApiErrorCode, RemoteError};
use crate::remote_files::selectors::{get_file_id as remote_file_id, select_file as select_remote_file_by_id, spec_file_id};
use crate::remote_files::state::{id_views, RemoteFile};
use crate::repos::{select_repo, RepoNotFoundError};
use crate::natural_order::{natord_compare, natural_order};
use crate::sorting::{adjacent_sorted, sort_by_relation, stable_rearrangement_by, TotalRelation};
use crate::store::State;
use crate::files::{name_to_ext, spec_name_to_ext, FileTypes};
use crate::strings::{compare_strs, concat, concat3, copy_str, lowercase, seq_order, to_lowercase, lemma_seq_order_antisym};

use super::errors::{FileNameError, RenameFileError, RepoFilesErrors};
use super::state::{
    RepoFilesBreadcrumb,
    spec_name_lower_force, spec_size_force, RepoFile, RepoFileName, RepoFileType, RepoFilesSort,
    RepoFilesSortField, FileCategory,
};

verus! {

/// The id of a repository file: the repository id, ':' and the encrypted path.
pub open spec fn spec_repo_file_id(repo_id: Seq<char>, path: Seq<char>) -> Seq<char> {
    repo_id + seq![':'] + path
}

pub fn get_file_id(repo_id: &str, path: &str) -> (r: String)
    ensures
        r@ == spec_repo_file_id(repo_id@, path@),
{
    let r = concat3(repo_id, ":", path);
    proof {
        reveal_strlit(":");
    }
    r
}

/// The category of files with extension `ext`: the table's, else generic.
pub open spec fn spec_ext_category(types: FileTypes, ext: Option<Seq<char>>) -> FileCategory {
    match ext {
        Some(e) => match types.spec_category(e) {
            Some(c) => c,
            None => FileCategory::Generic,
        },
        None => FileCategory::Generic,
    }
}

/// The extension of a lower-cased name, its content type and its category.
pub fn get_file_ext_content_type_category(name_lower: &str, types: &FileTypes) -> (r: (
    Option<String>,
    Option<String>,
    FileCategory,
))
    ensures
        opt_string_view(r.0) == spec_name_to_ext(name_lower@),
        opt_string_view(r.1) == match spec_name_to_ext(name_lower@) {
            Some(e) => types.spec_content_type(e),
            None => None,
        },
        r.2 == spec_ext_category(*types, spec_name_to_ext(name_lower@)),
{
    match name_to_ext(name_lower) {
        Some(ext) => {
            let content_type = types.ext_to_content_type(&ext);
            let category = match types.ext_to_file_category(&ext) {
                Some(c) => c,
                None => FileCategory::Generic,
            };
            (Some(ext), content_type, category)
        },
        None => (None, None, FileCategory::Generic),
    }
}

pub open spec fn opt_string_view(o: Option<String>) -> Option<Seq<char>> {
    match o {
        Some(s) => Some(s@),
        None => None,
    }
}

/// The name under which a file's content is cached: the remote file's
/// unique id, with the file's extension when it has one.
pub fn get_file_unique_name(remote_file_unique_id: &str, ext: Option<&str>) -> (r: String)
    ensures
        match ext {
            Some(e) => r@ == remote_file_unique_id@ + seq!['.'] + e@,
            None => r@ == remote_file_unique_id@,
        },
{
    match ext {
        Some(ext) => {
            let r = concat3(remote_file_unique_id, ".", ext);
            proof {
                reveal_strlit(".");
            }
            r
        },
        None => copy_str(remote_file_unique_id),
    }
}

pub fn select_children<'a>(state: &'a State, file_id: &String) -> (r: Option<&'a Vec<String>>)
    ensures
        match r {
            Some(c) => state.repo_files.children@.contains_key(file_id@)
                && state.repo_files.children@[file_id@] == *c,
            None => !state.repo_files.children@.contains_key(file_id@),
        },
{
    state.repo_files.children.get(file_id)
}

pub fn select_file<'a>(state: &'a State, file_id: &String) -> (r: Option<&'a RepoFile>)
    ensures
        match r {
            Some(f) => state.repo_files.files@.contains_key(file_id@)
                && state.repo_files.files@[file_id@] == *f,
            None => !state.repo_files.files@.contains_key(file_id@),
        },
{
    state.repo_files.files.get(file_id)
}

/// The known files among `ids`, in order.
pub fn select_files_from_ids<'a>(state: &'a State, ids: &Vec<String>) -> (r: Vec<&'a RepoFile>)
    ensures
        r@.map_values(|f: &RepoFile| *f) == spec_values_of_ids(state.repo_files.files@, id_views(ids@)),
{
    values_of_ids(&state.repo_files.files, ids)
}

/// The loaded children of a folder of a repository.
pub open spec fn spec_repo_children(state: State, repo_id: Seq<char>, path: Seq<char>) -> Seq<RepoFile> {
    let id = spec_repo_file_id(repo_id, path);
    if state.repo_files.children@.contains_key(id) {
        spec_values_of_ids(state.repo_files.files@, id_views(state.repo_files.children@[id]@))
    } else {
        Seq::empty()
    }
}

pub fn select_files<'a>(state: &'a State, repo_id: &str, path: &str) -> (r: Vec<&'a RepoFile>)
    ensures
        r@.map_values(|f: &RepoFile| *f) == spec_repo_children(*state, repo_id@, path@),
{
    match select_children(state, &get_file_id(repo_id, path)) {
        Some(ids) => select_files_from_ids(state, ids),
        None => {
            let r: Vec<&'a RepoFile> = Vec::new();
            assert(r@.map_values(|f: &RepoFile| *f) =~= Seq::<RepoFile>::empty());
            r
        },
    }
}

pub fn select_recent<'a>(state: &'a State, repo_id: &String) -> (r: Option<&'a Vec<String>>)
    ensures
        match r {
            Some(c) => state.repo_files.recent@.contains_key(repo_id@)
                && state.repo_files.recent@[repo_id@] == *c,
            None => !state.repo_files.recent@.contains_key(repo_id@),
        },
{
    state.repo_files.recent.get(repo_id)
}

/// The known recent files of a repository, in order.
pub fn select_recent_files<'a>(state: &'a State, repo_id: &String) -> (r: Vec<&'a RepoFile>)
    ensures
        r@.map_values(|f: &RepoFile| *f) == if state.repo_files.recent@.contains_key(repo_id@) {
            spec_values_of_ids(
                state.repo_files.files@,
                id_views(state.repo_files.recent@[repo_id@]@),
            )
        } else {
            Seq::<RepoFile>::empty()
        },
{
    match select_recent(state, repo_id) {
        Some(ids) => select_files_from_ids(state, ids),
        None => {
            let r: Vec<&'a RepoFile> = Vec::new();
            assert(r@.map_values(|f: &RepoFile| *f) =~= Seq::<RepoFile>::empty());
            r
        },
    }
}

pub fn select_is_root_loaded(state: &State, repo_id: &str, path: &str) -> (r: bool)
    ensures
        r == state.repo_files.loaded_roots@.contains_key(spec_repo_file_id(repo_id@, path@)),
{
    state.repo_files.loaded_roots.contains_key(&get_file_id(repo_id, path))
}

pub fn select_is_recent_loaded(state: &State, repo_id: &String) -> (r: bool)
    ensures
        r == state.repo_files.recent@.contains_key(repo_id@),
{
    state.repo_files.recent.contains_key(repo_id)
}

/// The name shown for a file: the repository's name at the root, else the
/// decrypted name.
pub fn select_file_name<'a>(state: &'a State, file: &'a RepoFile) -> (r: Result<&'a String, FileNameError>)
    ensures
        file.encrypted_path@ == root_path() ==> match r {
            Ok(n) => state.repos.repos_by_id@.contains_key(file.repo_id@)
                && state.repos.repos_by_id@[file.repo_id@].name == *n,
            Err(e) => e is RepoNotFound && !state.repos.repos_by_id@.contains_key(file.repo_id@),
        },
        file.encrypted_path@ != root_path() ==> match file.name {
            RepoFileName::Decrypted { name, .. } => r matches Ok(n) && *n == name,
            RepoFileName::DecryptError { error, .. } => r matches Err(
                FileNameError::DecryptFilenameError(e),
            ) && e == error,
        },
{
    if crate::paths::is_root(file.encrypted_path.as_str()) {
        match select_repo(state, &file.repo_id) {
            Ok(repo) => Ok(&repo.name),
            Err(e) => Err(FileNameError::RepoNotFound(e)),
        }
    } else {
        match file.decrypted_name() {
            Ok(name) => Ok(name),
            Err(e) => Err(FileNameError::DecryptFilenameError(e)),
        }
    }
}

/// The remote file that stores a repository file.
pub fn select_remote_file<'a>(state: &'a State, file: &'a RepoFile) -> (r: Option<&'a RemoteFile>)
    ensures
        ({
            let id = spec_file_id(file.mount_id@, lowercase(file.remote_path@));
            match r {
                Some(f) => state.remote_files.files@.contains_key(id)
                    && state.remote_files.files@[id] == *f,
                None => !state.remote_files.files@.contains_key(id),
            }
        }),
{
    let lower = to_lowercase(file.remote_path.as_str());
    select_remote_file_by_id(state, &remote_file_id(file.mount_id.as_str(), lower.as_str()))
}

/// The mount and remote path of a path inside a repository.
pub fn select_repo_path_to_mount_path(state: &State, repo_id: &String, path: &str) -> (r: Result<
    (String, String),
    RepoNotFoundError,
>)
    ensures
        match r {
            Ok((m, p)) => state.repos.repos_by_id@.contains_key(repo_id@) && m@
                == state.repos.repos_by_id@[repo_id@].mount_id@ && p@ == spec_join_paths(
                state.repos.repos_by_id@[repo_id@].path@,
                path@,
            ),
            Err(_) => !state.repos.repos_by_id@.contains_key(repo_id@),
        },
{
    let repo = select_repo(state, repo_id)?;
    let remote_path = crate::paths::join_paths(repo.path.as_str(), path);
    Ok((copy_str(repo.mount_id.as_str()), remote_path))
}

/// The remote file of a path inside a repository, when it is known.
pub fn select_repo_path_to_remote_file<'a>(state: &'a State, repo_id: &String, path: &str) -> (r:
    Option<&'a RemoteFile>)
    ensures
        state.repos.repos_by_id@.contains_key(repo_id@) ==> {
            let repo = state.repos.repos_by_id@[repo_id@];
            let id = spec_file_id(repo.mount_id@, lowercase(spec_join_paths(repo.path@, path@)));
            match r {
                Some(f) => state.remote_files.files@.contains_key(id)
                    && state.remote_files.files@[id] == *f,
                None => !state.remote_files.files@.contains_key(id),
            }
        },
        !state.repos.repos_by_id@.contains_key(repo_id@) ==> r is None,
{
    match select_repo_path_to_mount_path(state, repo_id, path) {
        Ok((mount_id, remote_path)) => {
            let lower = to_lowercase(remote_path.as_str());
            select_remote_file_by_id(state, &remote_file_id(mount_id.as_str(), lower.as_str()))
        },
        Err(_) => None,
    }
}

/// The id of the repository that holds `path` of a mount: the one whose folder
/// is the nearest to the root among the folders from the root to `path`.
pub open spec fn spec_mount_path_repo(state: State, mount_id: Seq<char>, chain: Seq<Seq<char>>) -> Option<Seq<char>>
    decreases chain.len(),
{
    if chain.len() == 0 {
        None
    } else {
        match spec_mount_path_repo(state, mount_id, chain.drop_last()) {
            Some(r) => Some(r),
            None => {
                let id = spec_file_id(mount_id, lowercase(chain.last()));
                if state.repos.repo_ids_by_remote_file_id@.contains_key(id) {
                    Some(state.repos.repo_ids_by_remote_file_id@[id]@)
                } else {
                    None
                }
            },
        }
    }
}

pub fn select_mount_path_to_repo_id<'a>(state: &'a State, mount_id: &str, path: &str) -> (r: Option<
    &'a String,
>)
    ensures
        match r {
            Some(id) => spec_mount_path_repo(*state, mount_id@, spec_paths_chain(path@)) == Some(id@),
            None => spec_mount_path_repo(*state, mount_id@, spec_paths_chain(path@)) is None,
        },
{
    let chain = paths_chain(path);
    let ghost cv = id_views(chain@);
    let n = chain.len();
    let mut i: usize = 0;
    while i < n
        invariant
            n == chain@.len(),
            cv == id_views(chain@),
            cv == spec_paths_chain(path@),
            i <= n,
            spec_mount_path_repo(*state, mount_id@, cv.take(i as int)) is None,
        decreases n - i,
    {
        proof {
            assert(cv.take(i + 1).drop_last() =~= cv.take(i as int));
        }
        let lower = to_lowercase(chain[i].as_str());
        match state.repos.repo_ids_by_remote_file_id.get(&remote_file_id(mount_id, lower.as_str())) {
            Some(repo_id) => {
                proof {
                    lemma_mount_path_repo_prefix(*state, mount_id@, cv, i + 1);
                }
                return Some(repo_id);
            },
            None => {},
        }
        i = i + 1;
    }
    proof {
        assert(cv.take(n as int) =~= cv);
    }
    None
}

/// Once a prefix of the chain names a repository, the whole chain names it.
proof fn lemma_mount_path_repo_prefix(state: State, mount_id: Seq<char>, chain: Seq<Seq<char>>, k: int)
    requires
        0 <= k <= chain.len(),
        spec_mount_path_repo(state, mount_id, chain.take(k)) is Some,
    ensures
        spec_mount_path_repo(state, mount_id, chain) == spec_mount_path_repo(state, mount_id, chain.take(k)),
    decreases chain.len() - k,
{
    if k < chain.len() {
        assert(chain.take(k + 1).drop_last() =~= chain.take(k));
        lemma_mount_path_repo_prefix(state, mount_id, chain, k + 1);
    } else {
        assert(chain.take(k) =~= chain);
    }
}

/// File `j` of `s` has a decrypted name whose lower-cased form is `nm`.
pub open spec fn has_lower_name(s: Seq<RepoFile>, j: int, nm: Seq<char>) -> bool {
    s[j].name matches RepoFileName::Decrypted { name, .. } && nm == lowercase(name@)
}

/// The lower-cased decrypted names of the loaded children of a folder.
pub fn select_used_names(state: &State, repo_id: &str, parent_path: &str) -> (r: KeyMap<String, ()>)
    ensures
        forall|n: Seq<char>|
            #[trigger] r@.contains_key(n) <==> exists|i: int|
                0 <= i < spec_repo_children(*state, repo_id@, parent_path@).len() && #[trigger] has_lower_name(
                spec_repo_children(*state, repo_id@, parent_path@),
                i,
                n,
            ),
{
    let files = select_files(state, repo_id, parent_path);
    let ghost fv = files@.map_values(|f: &RepoFile| *f);
    let mut used: KeyMap<String, ()> = KeyMap::new();
    let n = files.len();
    let mut i: usize = 0;
    while i < n
        invariant
            n == files@.len(),
            fv == files@.map_values(|f: &RepoFile| *f),
            fv == spec_repo_children(*state, repo_id@, parent_path@),
            i <= n,
            forall|nm: Seq<char>|
                #[trigger] used@.contains_key(nm) <==> exists|j: int|
                    0 <= j < i && #[trigger] has_lower_name(fv, j, nm),
        decreases n - i,
    {
        let ghost before = used@;
        match files[i].decrypted_name() {
            Ok(name) => {
                let lower = to_lowercase(name.as_str());
                let ghost l = lower@;
                used.insert(lower, ());
                proof {
                    assert forall|nm: Seq<char>| #[trigger] used@.contains_key(nm) <==> exists|j: int|
                        0 <= j < i + 1 && #[trigger] has_lower_name(fv, j, nm) by {
                        if nm == l {
                            assert(has_lower_name(fv, i as int, nm));
                        } else if used@.contains_key(nm) {
                            assert(before.contains_key(nm));
                        }
                    }
                }
            },
            Err(_) => {
                proof {
                    assert forall|nm: Seq<char>| #[trigger] used@.contains_key(nm) <==> exists|j: int|
                        0 <= j < i + 1 && #[trigger] has_lower_name(fv, j, nm) by {
                        if exists|j: int|
                            0 <= j < i + 1 && #[trigger] has_lower_name(fv, j, nm) {
                            let j = choose|j: int|
                                0 <= j < i + 1 && #[trigger] has_lower_name(fv, j, nm);
                            assert(j != i);
                        }
                    }
                }
            },
        }
        i = i + 1;
    }
    used
}

/// `x` comes no later than `y` in natural order.
pub open spec fn natural_leq(x: Seq<char>, y: Seq<char>) -> bool {
    natural_order(x, y) <= 0 || !(natural_order(y, x) <= 0)
}

/// An absent number comes first, then numbers by value.
pub open spec fn opt_leq(a: Option<i64>, b: Option<i64>) -> bool {
    match (a, b) {
        (None, _) => true,
        (Some(_), None) => false,
        (Some(x), Some(y)) => x <= y,
    }
}

/// An order of repository files: by a field, in a direction; names compare
/// in natural order, or code point by code point.
#[derive(Debug, Clone, Copy)]
pub struct RepoFileOrder {
    pub field: RepoFilesSortField,
    pub direction: SortDirection,
    pub natural: bool,
}

/// `a` comes no later than `b` in `order`.
pub open spec fn file_leq(order: RepoFileOrder, a: RepoFile, b: RepoFile) -> bool {
    let (x, y) = match order.direction {
        SortDirection::Asc => (a, b),
        SortDirection::Desc => (b, a),
    };
    match order.field {
        RepoFilesSortField::Name => if order.natural {
            natural_leq(spec_name_lower_force(x), spec_name_lower_force(y))
        } else {
            seq_order(spec_name_lower_force(x), spec_name_lower_force(y)) <= 0
        },
        RepoFilesSortField::Size => spec_size_force(x) <= spec_size_force(y),
        RepoFilesSortField::Modified => opt_leq(x.modified, y.modified),
    }
}

impl<'a> TotalRelation<&'a RepoFile> for RepoFileOrder {
    open spec fn leq(&self, a: &'a RepoFile, b: &'a RepoFile) -> bool {
        file_leq(*self, *a, *b)
    }

    fn leq_exec(&self, a: &&'a RepoFile, b: &&'a RepoFile) -> (r: bool) {
        let (x, y) = match self.direction {
            SortDirection::Asc => (*a, *b),
            SortDirection::Desc => (*b, *a),
        };
        match self.field {
            RepoFilesSortField::Name => {
                if self.natural {
                    natord_compare(x.name_lower_force().as_str(), y.name_lower_force().as_str()) <= 0
                } else {
                    compare_strs(x.name_lower_force().as_str(), y.name_lower_force().as_str()) <= 0
                }
            },
            RepoFilesSortField::Size => x.size_force() <= y.size_force(),
            RepoFilesSortField::Modified => match (x.modified, y.modified) {
                (None, _) => true,
                (Some(_), None) => false,
                (Some(p), Some(q)) => p <= q,
            },
        }
    }

    proof fn lemma_total(&self, a: &'a RepoFile, b: &'a RepoFile) {
        lemma_seq_order_antisym(spec_name_lower_force(*a), spec_name_lower_force(*b));
    }
}

/// The files of `fs`, each no later than the next in `order`.
pub open spec fn files_in_order(order: RepoFileOrder, fs: Seq<RepoFile>) -> bool {
    forall|i: int| 0 <= i < fs.len() - 1 ==> file_leq(order, #[trigger] fs[i], fs[i + 1])
}

/// The ids of some files.
pub open spec fn file_ids(fs: Seq<RepoFile>) -> Seq<Seq<char>> {
    fs.map_values(|f: RepoFile| f.id@)
}

/// The order of the folders when folders come first: by name in the sort's
/// direction when sorting by name, else by name ascending, code point by code point.
pub open spec fn dir_order(sort: RepoFilesSort) -> RepoFileOrder {
    if sort.field == RepoFilesSortField::Name {
        RepoFileOrder { field: RepoFilesSortField::Name, direction: sort.direction, natural: true }
    } else {
        RepoFileOrder {
            field: RepoFilesSortField::Name,
            direction: SortDirection::Asc,
            natural: false,
        }
    }
}

/// The order of the files: by the sort's field, in its direction.
pub open spec fn file_order(sort: RepoFilesSort) -> RepoFileOrder {
    RepoFileOrder { field: sort.field, direction: sort.direction, natural: true }
}

/// `r` are the ids of the known files of `ids`, sorted by `sort`: each part
/// (folders, then files, when folders come first) a reordering of its files,
/// each file no later than the next.
pub open spec fn sorted_files_ok(
    files: Map<Seq<char>, RepoFile>,
    ids: Seq<Seq<char>>,
    sort: RepoFilesSort,
    r: Seq<Seq<char>>,
) -> bool {
    let fs = spec_values_of_ids(files, ids);
    match sort.grouping {
        SortGrouping::NoGrouping => exists|s: Seq<RepoFile>|
            #[trigger] s.to_multiset() == fs.to_multiset() && files_in_order(file_order(sort), s)
                && r == file_ids(s),
        SortGrouping::DirsFirst => exists|ds: Seq<RepoFile>, fl: Seq<RepoFile>|
            #[trigger] ds.to_multiset() == fs.filter(|f: RepoFile| f.typ == RepoFileType::Dir).to_multiset()
                && #[trigger] fl.to_multiset() == fs.filter(
                |f: RepoFile| f.typ != RepoFileType::Dir,
            ).to_multiset() && files_in_order(dir_order(sort), ds) && files_in_order(
                file_order(sort),
                fl,
            ) && r == file_ids(ds + fl),
    }
}

/// The files that some references point to.
pub open spec fn pointed_files(fs: Seq<&RepoFile>) -> Seq<RepoFile> {
    fs.map_values(|f: &RepoFile| *f)
}

/// `s` takes the files of `fs` from the positions `p`, each position once.
pub open spec fn placed_from(fs: Seq<RepoFile>, s: Seq<RepoFile>, p: Seq<int>) -> bool {
    &&& p.len() == fs.len()
    &&& s.len() == fs.len()
    &&& forall|k: int| 0 <= k < p.len() ==> 0 <= #[trigger] p[k] < fs.len() && s[k] == fs[p[k]]
    &&& forall|a: int, b: int| 0 <= a < b < p.len() ==> #[trigger] p[a] != #[trigger] p[b]
}

/// Within `lo..hi` of `s`, files that tie in `order` keep the order of their
/// positions `p`.
pub open spec fn ties_kept(order: RepoFileOrder, s: Seq<RepoFile>, p: Seq<int>, lo: int, hi: int) -> bool {
    forall|a: int, b: int|
        lo <= a < b < hi && file_leq(order, #[trigger] s[b], #[trigger] s[a]) ==> p[a] < p[b]
}

/// `x` comes no later than `y` on the field `field` read directly from the
/// files: a missing time before any time, earlier times first; sizes as
/// decrypted (or as stored when they could not be), a missing size as 0.
pub open spec fn field_at_most(field: RepoFilesSortField, x: RepoFile, y: RepoFile) -> bool {
    match field {
        RepoFilesSortField::Modified => x.modified is None || (x.modified matches Some(a)
            && y.modified matches Some(b) && a <= b),
        RepoFilesSortField::Size => {
            let sx = match x.size {
                Some(crate::repo_files::state::RepoFileSize::Decrypted { size }) => size as int,
                Some(crate::repo_files::state::RepoFileSize::DecryptError { encrypted_size, .. }) => encrypted_size as int,
                None => 0,
            };
            let sy = match y.size {
                Some(crate::repo_files::state::RepoFileSize::Decrypted { size }) => size as int,
                Some(crate::repo_files::state::RepoFileSize::DecryptError { encrypted_size, .. }) => encrypted_size as int,
                None => 0,
            };
            sx <= sy
        },
        RepoFilesSortField::Name => true,
    }
}

/// Sorted by modification time or by size, each file is no later than the
/// next on that field in the sort's direction (the files after the folders,
/// when folders come first), whatever their other fields.
pub proof fn law_sorted_files_by_field(
    files: Map<Seq<char>, RepoFile>,
    ids: Seq<Seq<char>>,
    sort: RepoFilesSort,
    r: Seq<Seq<char>>,
)
    requires
        sorted_files_ok(files, ids, sort, r),
        sort.field != RepoFilesSortField::Name,
    ensures
        exists|s: Seq<RepoFile>|
            {
                let d = match sort.grouping {
                    SortGrouping::NoGrouping => 0,
                    SortGrouping::DirsFirst => spec_values_of_ids(files, ids).filter(
                        |f: RepoFile| f.typ == RepoFileType::Dir,
                    ).len() as int,
                };
                &&& r == #[trigger] file_ids(s)
                &&& forall|i: int|
                    #![trigger s[i]]
                    d <= i < s.len() - 1 ==> match sort.direction {
                        SortDirection::Asc => field_at_most(sort.field, s[i], s[i + 1]),
                        SortDirection::Desc => field_at_most(sort.field, s[i + 1], s[i]),
                    }
            },
{
    let fs = spec_values_of_ids(files, ids);
    match sort.grouping {
        SortGrouping::NoGrouping => {
            let s = choose|s: Seq<RepoFile>|
                #[trigger] s.to_multiset() == fs.to_multiset() && files_in_order(file_order(sort), s)
                    && r == file_ids(s);
            assert forall|i: int| #![trigger s[i]] 0 <= i < s.len() - 1 implies match sort.direction {
                SortDirection::Asc => field_at_most(sort.field, s[i], s[i + 1]),
                SortDirection::Desc => field_at_most(sort.field, s[i + 1], s[i]),
            } by {
                assert(file_leq(file_order(sort), s[i], s[i + 1]));
            }
            assert(r == file_ids(s));
        },
        SortGrouping::DirsFirst => {
            let (ds, fl) = choose|ds: Seq<RepoFile>, fl: Seq<RepoFile>|
                #[trigger] ds.to_multiset() == fs.filter(|f: RepoFile| f.typ == RepoFileType::Dir).to_multiset()
                    && #[trigger] fl.to_multiset() == fs.filter(
                    |f: RepoFile| f.typ != RepoFileType::Dir,
                ).to_multiset() && files_in_order(dir_order(sort), ds) && files_in_order(
                    file_order(sort),
                    fl,
                ) && r == file_ids(ds + fl);
            let s = ds + fl;
            let d = ds.len() as int;
            vstd::seq_lib::to_multiset_len(ds);
            vstd::seq_lib::to_multiset_len(fs.filter(|f: RepoFile| f.typ == RepoFileType::Dir));
            assert forall|i: int| #![trigger s[i]] d <= i < s.len() - 1 implies match sort.direction {
                SortDirection::Asc => field_at_most(sort.field, s[i], s[i + 1]),
                SortDirection::Desc => field_at_most(sort.field, s[i + 1], s[i]),
            } by {
                assert(s[i] == fl[i - d] && s[i + 1] == fl[i + 1 - d]);
                assert(file_leq(file_order(sort), fl[i - d], fl[i - d + 1]));
            }
            assert(r == file_ids(s));
        },
    }
}

/// Sorted files hold the known files of the ids, each once for each time it
/// is named; when folders come first, no folder follows a file; sorted by
/// name, each file's lower-cased name comes no later than the next one's in
/// natural order, in the sort's direction (within the folders and within the
/// files when folders come first), and the folders go by name code point by
/// code point when folders come first and the sort is by another field.
#[verifier::rlimit(60)]
#[verifier::spinoff_prover]
pub proof fn law_sorted_files_shape(
    files: Map<Seq<char>, RepoFile>,
    ids: Seq<Seq<char>>,
    sort: RepoFilesSort,
    r: Seq<Seq<char>>,
)
    requires
        sorted_files_ok(files, ids, sort, r),
    ensures
        exists|s: Seq<RepoFile>|
            {
                let fs = spec_values_of_ids(files, ids);
                let d = match sort.grouping {
                    SortGrouping::NoGrouping => 0,
                    SortGrouping::DirsFirst => fs.filter(|f: RepoFile| f.typ == RepoFileType::Dir).len() as int,
                };
                &&& r == #[trigger] file_ids(s)
                &&& s.to_multiset() == fs.to_multiset()
                &&& sort.grouping == SortGrouping::DirsFirst ==> forall|i: int|
                    #![trigger s[i]]
                    0 <= i < s.len() ==> ((s[i].typ == RepoFileType::Dir) <==> i < d)
                &&& sort.field == RepoFilesSortField::Name ==> forall|i: int|
                    #![trigger s[i]]
                    0 <= i < s.len() - 1 && i != d - 1 ==> {
                        let (x, y) = match sort.direction {
                            SortDirection::Asc => (s[i], s[i + 1]),
                            SortDirection::Desc => (s[i + 1], s[i]),
                        };
                        natural_order(spec_name_lower_force(x), spec_name_lower_force(y)) <= 0
                            || !(natural_order(spec_name_lower_force(y), spec_name_lower_force(x)) <= 0)
                    }
                &&& sort.grouping == SortGrouping::DirsFirst && sort.field != RepoFilesSortField::Name
                    ==> forall|i: int|
                    #![trigger s[i]]
                    0 <= i < d - 1 ==> seq_order(spec_name_lower_force(s[i]), spec_name_lower_force(s[i + 1])) <= 0
            },
{
    broadcast use vstd::seq_lib::group_to_multiset_ensures;

    let fs = spec_values_of_ids(files, ids);
    match sort.grouping {
        SortGrouping::NoGrouping => {
            let s = choose|s: Seq<RepoFile>|
                #[trigger] s.to_multiset() == fs.to_multiset() && files_in_order(file_order(sort), s)
                    && r == file_ids(s);
            if sort.field == RepoFilesSortField::Name {
                assert forall|i: int| #![trigger s[i]] 0 <= i < s.len() - 1 && i != -1 implies {
                    let (x, y) = match sort.direction {
                        SortDirection::Asc => (s[i], s[i + 1]),
                        SortDirection::Desc => (s[i + 1], s[i]),
                    };
                    natural_order(spec_name_lower_force(x), spec_name_lower_force(y)) <= 0
                        || !(natural_order(spec_name_lower_force(y), spec_name_lower_force(x)) <= 0)
                } by {
                    assert(file_leq(file_order(sort), s[i], s[i + 1]));
                }
            }
            assert(r == file_ids(s));
        },
        SortGrouping::DirsFirst => {
            let pd = |f: RepoFile| f.typ == RepoFileType::Dir;
            let pf = |f: RepoFile| f.typ != RepoFileType::Dir;
            let (ds, fl) = choose|ds: Seq<RepoFile>, fl: Seq<RepoFile>|
                #[trigger] ds.to_multiset() == fs.filter(|f: RepoFile| f.typ == RepoFileType::Dir).to_multiset()
                    && #[trigger] fl.to_multiset() == fs.filter(
                    |f: RepoFile| f.typ != RepoFileType::Dir,
                ).to_multiset() && files_in_order(dir_order(sort), ds) && files_in_order(
                    file_order(sort),
                    fl,
                ) && r == file_ids(ds + fl);
            let s = ds + fl;
            let d = ds.len() as int;
            vstd::seq_lib::to_multiset_len(ds);
            vstd::seq_lib::to_multiset_len(fs.filter(pd));
            assert(fs.filter(pd) == fs.filter(|f: RepoFile| f.typ == RepoFileType::Dir));
            assert forall|i: int| #![trigger s[i]] 0 <= i < s.len() implies ((s[i].typ
                == RepoFileType::Dir) <==> i < d) by {
                if i < d {
                    assert(s[i] == ds[i]);
                    assert(ds.contains(ds[i]));
                    assert(ds.to_multiset().contains(s[i]));
                    assert(fs.filter(pd).to_multiset().contains(s[i]));
                    assert(fs.filter(pd).contains(s[i]));
                    let k = choose|k: int| 0 <= k < fs.filter(pd).len() && fs.filter(pd)[k] == s[i];
                    fs.lemma_filter_pred(pd, k);
                } else {
                    assert(s[i] == fl[i - d]);
                    assert(fl.contains(fl[i - d]));
                    assert(fl.to_multiset().contains(s[i]));
                    assert(fs.filter(pf).to_multiset().contains(s[i]));
                    assert(fs.filter(pf).contains(s[i]));
                    let k = choose|k: int| 0 <= k < fs.filter(pf).len() && fs.filter(pf)[k] == s[i];
                    fs.lemma_filter_pred(pf, k);
                }
            }
            if sort.field == RepoFilesSortField::Name {
                assert forall|i: int| #![trigger s[i]] 0 <= i < s.len() - 1 && i != d - 1 implies {
                    let (x, y) = match sort.direction {
                        SortDirection::Asc => (s[i], s[i + 1]),
                        SortDirection::Desc => (s[i + 1], s[i]),
                    };
                    natural_order(spec_name_lower_force(x), spec_name_lower_force(y)) <= 0
                        || !(natural_order(spec_name_lower_force(y), spec_name_lower_force(x)) <= 0)
                } by {
                    if i < d {
                        assert(s[i] == ds[i] && s[i + 1] == ds[i + 1]);
                        assert(file_leq(dir_order(sort), ds[i], ds[i + 1]));
                    } else {
                        assert(s[i] == fl[i - d] && s[i + 1] == fl[i + 1 - d]);
                        assert(file_leq(file_order(sort), fl[i - d], fl[i - d + 1]));
                    }
                }
            } else {
                assert forall|i: int| #![trigger s[i]] 0 <= i < d - 1 implies seq_order(
                    spec_name_lower_force(s[i]),
                    spec_name_lower_force(s[i + 1]),
                ) <= 0 by {
                    assert(s[i] == ds[i] && s[i + 1] == ds[i + 1]);
                    assert(file_leq(dir_order(sort), ds[i], ds[i + 1]));
                }
            }
            vstd::seq_lib::lemma_multiset_commutative(ds, fl);
            assert(fs.filter(pf) == fs.filter(|f: RepoFile| f.typ != RepoFileType::Dir));
            lemma_dir_partition_multiset(fs);
            assert(r == file_ids(s));
        },
    }
}

/// Splitting files into folders and the rest keeps every file, as counted.
proof fn lemma_dir_partition_multiset(s: Seq<RepoFile>)
    ensures
        s.filter(|f: RepoFile| f.typ == RepoFileType::Dir).to_multiset().add(
            s.filter(|f: RepoFile| f.typ != RepoFileType::Dir).to_multiset(),
        ) == s.to_multiset(),
    decreases s.len(),
{
    broadcast use vstd::seq_lib::group_to_multiset_ensures;

    reveal(Seq::filter);
    let pd = |f: RepoFile| f.typ == RepoFileType::Dir;
    let pf = |f: RepoFile| f.typ != RepoFileType::Dir;
    if s.len() > 0 {
        lemma_dir_partition_multiset(s.drop_last());
        assert(s =~= s.drop_last().push(s.last()));
        if s.last().typ == RepoFileType::Dir {
            assert(s.filter(pd) =~= s.drop_last().filter(pd).push(s.last()));
            assert(s.filter(pf) =~= s.drop_last().filter(pf));
        } else {
            assert(s.filter(pd) =~= s.drop_last().filter(pd));
            assert(s.filter(pf) =~= s.drop_last().filter(pf).push(s.last()));
        }
        assert(s.filter(pd).to_multiset().add(s.filter(pf).to_multiset()) =~= s.to_multiset());
    } else {
        assert(s.filter(pd).to_multiset().add(s.filter(pf).to_multiset()) =~= s.to_multiset());
    }
}

/// Sorts some files by `order` and hands back the order as values; files
/// that tie keep their order.
fn sort_files<'a>(fs: Vec<&'a RepoFile>, order: RepoFileOrder) -> (r: Vec<&'a RepoFile>)
    ensures
        r@.map_values(|f: &RepoFile| *f).to_multiset() == fs@.map_values(
            |f: &RepoFile| *f,
        ).to_multiset(),
        files_in_order(order, r@.map_values(|f: &RepoFile| *f)),
        exists|p: Seq<int>|
            #[trigger] placed_from(pointed_files(fs@), pointed_files(r@), p) && ties_kept(
                order,
                pointed_files(r@),
                p,
                0,
                r@.len() as int,
            ),
{
    let ghost before = fs@;
    let r = sort_by_relation(fs, &order);
    proof {
        crate::seq_facts::lemma_map_multiset(r@, before, |f: &RepoFile| *f);
        let s = r@.map_values(|f: &RepoFile| *f);
        let fv = before.map_values(|f: &RepoFile| *f);
        assert forall|i: int| 0 <= i < s.len() - 1 implies file_leq(order, #[trigger] s[i], s[i + 1]) by {
            assert(order.leq(r@[i], r@[i + 1]));
        }
        let p = choose|p: Seq<int>| #[trigger] stable_rearrangement_by(&order, before, r@, p);
        assert forall|k: int| 0 <= k < p.len() implies 0 <= #[trigger] p[k] < fv.len() && s[k]
            == fv[p[k]] by {
            assert(r@[k] == before[p[k]]);
        }
        assert forall|a: int, b: int|
            0 <= a < b < r@.len() && file_leq(order, #[trigger] s[b], #[trigger] s[a]) implies p[a]
            < p[b] by {
            assert(order.leq(r@[b], r@[a]));
        }
        assert(fv == pointed_files(before) && s == pointed_files(r@));
        assert(placed_from(pointed_files(before), pointed_files(r@), p));
        assert(ties_kept(order, pointed_files(r@), p, 0, r@.len() as int));
    }
    r
}

/// The ids of some files, in order.
fn ids_of(fs: &Vec<&RepoFile>) -> (r: Vec<String>)
    ensures
        id_views(r@) == file_ids(fs@.map_values(|f: &RepoFile| *f)),
{
    let mut r: Vec<String> = Vec::new();
    let n = fs.len();
    let mut i: usize = 0;
    while i < n
        invariant
            n == fs@.len(),
            i <= n,
            id_views(r@) == file_ids(fs@.map_values(|f: &RepoFile| *f)).take(i as int),
        decreases n - i,
    {
        let ghost before = r@;
        r.push(copy_str(fs[i].id.as_str()));
        proof {
            assert(id_views(r@) =~= id_views(before).push(fs@[i as int].id@));
            assert(file_ids(fs@.map_values(|f: &RepoFile| *f)).take(i + 1) =~= file_ids(
                fs@.map_values(|f: &RepoFile| *f),
            ).take(i as int).push(fs@[i as int].id@));
        }
        i = i + 1;
    }
    proof {
        assert(file_ids(fs@.map_values(|f: &RepoFile| *f)).take(n as int) =~= file_ids(
            fs@.map_values(|f: &RepoFile| *f),
        ));
    }
    r
}

/// Files that tie keep the order they had in `fs`: in the whole of `s`, or
/// within the folders and within the files when folders come first.
pub open spec fn sort_ties_kept(
    sort: RepoFilesSort,
    fs: Seq<RepoFile>,
    s: Seq<RepoFile>,
    p: Seq<int>,
) -> bool {
    match sort.grouping {
        SortGrouping::NoGrouping => ties_kept(file_order(sort), s, p, 0, s.len() as int),
        SortGrouping::DirsFirst => {
            let d = fs.filter(|f: RepoFile| f.typ == RepoFileType::Dir).len() as int;
            &&& ties_kept(dir_order(sort), s, p, 0, d)
            &&& ties_kept(file_order(sort), s, p, d, s.len() as int)
        },
    }
}

/// Positions of `all` in increasing order, holding the files of `part`.
pub open spec fn increasing_positions(
    all: Seq<RepoFile>,
    part: Seq<RepoFile>,
    idx: Seq<int>,
    bound: int,
) -> bool {
    &&& idx.len() == part.len()
    &&& forall|k: int| 0 <= k < idx.len() ==> 0 <= #[trigger] idx[k] < bound && part[k] == all[idx[k]]
    &&& forall|a: int, b: int| 0 <= a < b < idx.len() ==> #[trigger] idx[a] < #[trigger] idx[b]
}

/// The ids of the known files of `file_ids`, sorted by `sort`; files that
/// tie keep their order.
pub fn select_sorted_files(
    files: &KeyMap<String, RepoFile>,
    file_ids: &Vec<String>,
    sort: &RepoFilesSort,
) -> (r: Vec<String>)
    ensures
        sorted_files_ok(files@, id_views(file_ids@), *sort, id_views(r@)),
        exists|s: Seq<RepoFile>, p: Seq<int>|
            #[trigger] placed_from(spec_values_of_ids(files@, id_views(file_ids@)), s, p)
                && id_views(r@) == self::file_ids(s) && sort_ties_kept(
                *sort,
                spec_values_of_ids(files@, id_views(file_ids@)),
                s,
                p,
            ),
{
    let all = values_of_ids(files, file_ids);
    let ghost av = all@.map_values(|f: &RepoFile| *f);
    match sort.grouping {
        SortGrouping::NoGrouping => {
            let order = RepoFileOrder { field: sort.field, direction: sort.direction, natural: true };
            let ghost all_refs = all@;
            let sorted = sort_files(all, order);
            let r = ids_of(&sorted);
            proof {
                let s = sorted@.map_values(|f: &RepoFile| *f);
                assert(s.to_multiset() == av.to_multiset());
                assert(av == pointed_files(all_refs));
                let p = choose|p: Seq<int>|
                    #[trigger] placed_from(pointed_files(all_refs), pointed_files(sorted@), p)
                        && ties_kept(order, pointed_files(sorted@), p, 0, sorted@.len() as int);
                assert(s == pointed_files(sorted@));
                assert(placed_from(spec_values_of_ids(files@, id_views(file_ids@)), s, p));
                assert(sort_ties_kept(*sort, av, s, p));
            }
            r
        },
        SortGrouping::DirsFirst => {
            let mut dirs: Vec<&RepoFile> = Vec::new();
            let mut rest: Vec<&RepoFile> = Vec::new();
            let ghost mut di: Seq<int> = Seq::empty();
            let ghost mut ri: Seq<int> = Seq::empty();
            let n = all.len();
            let mut i: usize = 0;
            while i < n
                invariant
                    n == all@.len(),
                    av == all@.map_values(|f: &RepoFile| *f),
                    i <= n,
                    dirs@.len() + rest@.len() == i,
                    increasing_positions(av, pointed_files(dirs@), di, i as int),
                    increasing_positions(av, pointed_files(rest@), ri, i as int),
                    forall|a: int, b: int|
                        0 <= a < di.len() && 0 <= b < ri.len() ==> #[trigger] di[a] != #[trigger] ri[b],
                    dirs@.map_values(|f: &RepoFile| *f) == av.take(i as int).filter(
                        |f: RepoFile| f.typ == RepoFileType::Dir,
                    ),
                    rest@.map_values(|f: &RepoFile| *f) == av.take(i as int).filter(
                        |f: RepoFile| f.typ != RepoFileType::Dir,
                    ),
                decreases n - i,
            {
                let ghost bd = dirs@;
                let ghost br = rest@;
                proof {
                    assert(av.take(i + 1).drop_last() =~= av.take(i as int));
                    assert(av.take(i + 1).last() == *all@[i as int]);
                    reveal(Seq::filter);
                }
                if all[i].typ == RepoFileType::Dir {
                    dirs.push(all[i]);
                    proof {
                        assert(dirs@.map_values(|f: &RepoFile| *f) =~= bd.map_values(
                            |f: &RepoFile| *f,
                        ).push(*all@[i as int]));
                        di = di.push(i as int);
                    }
                } else {
                    rest.push(all[i]);
                    proof {
                        assert(rest@.map_values(|f: &RepoFile| *f) =~= br.map_values(
                            |f: &RepoFile| *f,
                        ).push(*all@[i as int]));
                        ri = ri.push(i as int);
                    }
                }
                i = i + 1;
            }
            proof {
                assert(av.take(n as int) =~= av);
            }
            let d_order = if sort.field == RepoFilesSortField::Name {
                RepoFileOrder { field: RepoFilesSortField::Name, direction: sort.direction, natural: true }
            } else {
                RepoFileOrder {
                    field: RepoFilesSortField::Name,
                    direction: SortDirection::Asc,
                    natural: false,
                }
            };
            let f_order = RepoFileOrder { field: sort.field, direction: sort.direction, natural: true };
            let ghost dirs_refs = dirs@;
            let ghost rest_refs = rest@;
            let mut sd = sort_files(dirs, d_order);
            let mut sf = sort_files(rest, f_order);
            let ghost dv = sd@.map_values(|f: &RepoFile| *f);
            let ghost fv = sf@.map_values(|f: &RepoFile| *f);
            let ghost sd_refs = sd@;
            let ghost sf_refs = sf@;
            sd.append(&mut sf);
            let r = ids_of(&sd);
            proof {
                let s = sd@.map_values(|f: &RepoFile| *f);
                assert(s =~= dv + fv);
                assert(dv.to_multiset() == av.filter(|f: RepoFile| f.typ == RepoFileType::Dir).to_multiset());
                assert(fv.to_multiset() == av.filter(|f: RepoFile| f.typ != RepoFileType::Dir).to_multiset());
                assert(files_in_order(dir_order(*sort), dv));
                assert(files_in_order(file_order(*sort), fv));
                assert(dv == pointed_files(sd_refs) && fv == pointed_files(sf_refs));
                let pd = choose|p: Seq<int>|
                    #[trigger] placed_from(pointed_files(dirs_refs), pointed_files(sd_refs), p)
                        && ties_kept(d_order, pointed_files(sd_refs), p, 0, sd_refs.len() as int);
                let pf = choose|p: Seq<int>|
                    #[trigger] placed_from(pointed_files(rest_refs), pointed_files(sf_refs), p)
                        && ties_kept(f_order, pointed_files(sf_refs), p, 0, sf_refs.len() as int);
                let dl = dv.len() as int;
                assert(dl == av.filter(|f: RepoFile| f.typ == RepoFileType::Dir).len());
                let p = Seq::new(
                    s.len(),
                    |k: int|
                        if k < dl {
                            di[pd[k]]
                        } else {
                            ri[pf[k - dl]]
                        },
                );
                assert forall|k: int| 0 <= k < p.len() implies 0 <= #[trigger] p[k] < av.len()
                    && s[k] == av[p[k]] by {
                    if k < dl {
                        assert(s[k] == dv[k]);
                        assert(0 <= pd[k] < di.len());
                    } else {
                        assert(s[k] == fv[k - dl]);
                        assert(0 <= pf[k - dl] < ri.len());
                    }
                }
                assert forall|a: int, b: int| 0 <= a < b < p.len() implies #[trigger] p[a]
                    != #[trigger] p[b] by {
                    if a < dl && b < dl {
                        assert(pd[a] != pd[b]);
                        if pd[a] < pd[b] {
                            assert(di[pd[a]] < di[pd[b]]);
                        } else {
                            assert(di[pd[b]] < di[pd[a]]);
                        }
                    } else if a < dl {
                        assert(0 <= pd[a] < di.len());
                        assert(0 <= pf[b - dl] < ri.len());
                        assert(di[pd[a]] != ri[pf[b - dl]]);
                    } else {
                        assert(pf[a - dl] != pf[b - dl]);
                        if pf[a - dl] < pf[b - dl] {
                            assert(ri[pf[a - dl]] < ri[pf[b - dl]]);
                        } else {
                            assert(ri[pf[b - dl]] < ri[pf[a - dl]]);
                        }
                    }
                }
                assert forall|a: int, b: int|
                    0 <= a < b < dl && file_leq(dir_order(*sort), #[trigger] s[b], #[trigger] s[a])
                        implies p[a] < p[b] by {
                    assert(s[a] == dv[a] && s[b] == dv[b]);
                    assert(pd[a] < pd[b]);
                    assert(di[pd[a]] < di[pd[b]]);
                }
                assert forall|a: int, b: int|
                    dl <= a < b < s.len() && file_leq(file_order(*sort), #[trigger] s[b], #[trigger] s[a])
                        implies p[a] < p[b] by {
                    assert(s[a] == fv[a - dl] && s[b] == fv[b - dl]);
                    assert(pf[a - dl] < pf[b - dl]);
                    assert(ri[pf[a - dl]] < ri[pf[b - dl]]);
                }
                assert(placed_from(av, s, p));
                assert(sort_ties_kept(*sort, av, s, p));
                assert(placed_from(spec_values_of_ids(files@, id_views(file_ids@)), s, p));
                assert(id_views(r@) == self::file_ids(s));
            }
            r
        },
    }
}

/// A name is valid when it is not empty and holds no '/'.
pub fn check_name_valid(name: &str) -> (r: Result<(), RemoteError>)
    ensures
        r is Ok <==> crate::remote_files::selectors::spec_name_valid(name@),
        r matches Err(e) ==> crate::remote_files::errors::spec_invalid_path_error(e),
{
    match crate::remote_files::selectors::check_name_valid(name) {
        Ok(()) => Ok(()),
        Err(_) => Err(RepoFilesErrors::invalid_path()),
    }
}

/// Whether the listed children of the folder `parent_path` hold a file named
/// `encrypted_name`.
pub open spec fn spec_child_exists(state: State, repo_id: Seq<char>, parent_path: Seq<char>, encrypted_name: Seq<char>) -> bool {
    let parent_id = spec_repo_file_id(repo_id, parent_path);
    state.repo_files.children@.contains_key(parent_id) && id_views(state.repo_files.children@[parent_id]@).contains(
        spec_repo_file_id(repo_id, spec_join_path_name(parent_path, encrypted_name)),
    )
}

/// A file is listed under a folder exactly when the folder's children are
/// loaded and one of them has the id of the folder's path joined with the
/// (encrypted) name.
pub proof fn law_child_exists(state: State, repo_id: Seq<char>, parent_path: Seq<char>, encrypted_name: Seq<char>)
    ensures
        spec_child_exists(state, repo_id, parent_path, encrypted_name) <==> {
            let parent_id = repo_id + seq![':'] + parent_path;
            let new_id = repo_id + seq![':'] + spec_join_path_name(parent_path, encrypted_name);
            &&& state.repo_files.children@.contains_key(parent_id)
            &&& exists|i: int|
                0 <= i < state.repo_files.children@[parent_id]@.len()
                    && #[trigger] state.repo_files.children@[parent_id]@[i]@ == new_id
        },
{
    let parent_id = spec_repo_file_id(repo_id, parent_path);
    let new_id = spec_repo_file_id(repo_id, spec_join_path_name(parent_path, encrypted_name));
    if state.repo_files.children@.contains_key(parent_id) {
        let ids = state.repo_files.children@[parent_id]@;
        if id_views(ids).contains(new_id) {
            let i = choose|i: int| 0 <= i < id_views(ids).len() && id_views(ids)[i] == new_id;
            assert(ids[i]@ == new_id);
        }
        if exists|i: int| 0 <= i < ids.len() && #[trigger] ids[i]@ == new_id {
            let i = choose|i: int| 0 <= i < ids.len() && #[trigger] ids[i]@ == new_id;
            assert(id_views(ids)[i] == new_id);
        }
    }
}

fn ids_contain(ids: &Vec<String>, id: &str) -> (r: bool)
    ensures
        r == id_views(ids@).contains(id@),
{
    let n = ids.len();
    let mut i: usize = 0;
    while i < n
        invariant
            n == ids@.len(),
            i <= n,
            forall|j: int| 0 <= j < i ==> ids@[j]@ != id@,
        decreases n - i,
    {
        if crate::strings::str_eq(ids[i].as_str(), id) {
            assert(id_views(ids@)[i as int] == id@);
            return true;
        }
        i = i + 1;
    }
    proof {
        if id_views(ids@).contains(id@) {
            let j = choose|j: int| 0 <= j < id_views(ids@).len() && id_views(ids@)[j] == id@;
            assert(ids@[j]@ == id@);
        }
    }
    false
}

/// A new name for a file in the folder `parent_path` is valid and not taken
/// by a listed file (`encrypted_new_name` is the name as the repository's
/// cipher encrypts it).
pub fn select_check_new_name_valid(
    state: &State,
    repo_id: &str,
    parent_path: &str,
    new_name: &str,
    encrypted_new_name: &str,
) -> (r: Result<(), RemoteError>)
    ensures
        !crate::remote_files::selectors::spec_name_valid(new_name@) ==> (r matches Err(e)
            && crate::remote_files::errors::spec_invalid_path_error(e)),
        crate::remote_files::selectors::spec_name_valid(new_name@) ==> if spec_child_exists(
            *state,
            repo_id@,
            parent_path@,
            encrypted_new_name@,
        ) {
            r matches Err(e) && crate::remote_files::errors::spec_already_exists_error(e)
        } else {
            r is Ok
        },
{
    check_name_valid(new_name)?;
    let new_path = join_path_name(parent_path, encrypted_new_name);
    let parent_id = get_file_id(repo_id, parent_path);
    match state.repo_files.children.get(&parent_id) {
        Some(ids) => {
            let new_id = get_file_id(repo_id, new_path.as_str());
            if ids_contain(ids, new_id.as_str()) {
                Err(RepoFilesErrors::already_exists())
            } else {
                Ok(())
            }
        },
        None => Ok(()),
    }
}

/// A rename of the file at `path` to `name` can go ahead: the file is
/// listed, is not the root, and the new name is valid and free.
pub fn select_check_rename_file(
    state: &State,
    repo_id: &str,
    path: &str,
    name: &str,
    encrypted_new_name: &str,
) -> (r: Result<(), RenameFileError>)
    ensures
        !state.repo_files.files@.contains_key(spec_repo_file_id(repo_id@, path@)) ==> (r matches Err(
            RenameFileError::RemoteError(e),
        ) && e.spec_is_api_error_code(ApiErrorCode::NotFound)),
        state.repo_files.files@.contains_key(spec_repo_file_id(repo_id@, path@)) ==> match spec_parent_path(path@) {
            None => r matches Err(RenameFileError::RenameRoot),
            Some(parent) => if !crate::remote_files::selectors::spec_name_valid(name@) {
                r matches Err(RenameFileError::RemoteError(e)) && e.spec_is_api_error_code(ApiErrorCode::InvalidPath)
            } else if spec_child_exists(*state, repo_id@, parent, encrypted_new_name@) {
                r matches Err(RenameFileError::RemoteError(e)) && e.spec_is_api_error_code(
                    ApiErrorCode::AlreadyExists,
                )
            } else {
                r is Ok
            },
        },
{
    let id = get_file_id(repo_id, path);
    if !state.repo_files.files.contains_key(&id) {
        return Err(RenameFileError::RemoteError(RepoFilesErrors::not_found()));
    }
    let parent_path = match parent_path(path) {
        Some(p) => p,
        None => {
            return Err(RenameFileError::RenameRoot);
        },
    };
    match select_check_new_name_valid(state, repo_id, parent_path.as_str(), name, encrypted_new_name) {
        Ok(()) => Ok(()),
        Err(e) => Err(RenameFileError::RemoteError(e)),
    }
}

/// The name a breadcrumb shows for the folder at `path`: the repository's
/// name at the root, else the decrypted name when the cipher knows it
/// (`names` maps encrypted names to decrypted ones), else the encrypted name.
pub open spec fn spec_crumb_name(repo_name: Seq<char>, names: Map<Seq<char>, String>, path: Seq<char>) -> Seq<char> {
    match spec_path_to_name(path) {
        Some(name) => if names.contains_key(name) {
            names[name]@
        } else {
            name
        },
        None => repo_name,
    }
}

/// The breadcrumbs of the folder at `path` of a repository: one per folder
/// from the root, the last one marked; none for an unknown repository.
pub fn select_breadcrumbs(state: &State, repo_id: &String, path: &str, names: &KeyMap<String, String>) -> (r: Vec<
    RepoFilesBreadcrumb,
>)
    ensures
        !state.repos.repos_by_id@.contains_key(repo_id@) ==> r@.len() == 0,
        state.repos.repos_by_id@.contains_key(repo_id@) ==> {
            let chain = spec_paths_chain(path@);
            let repo = state.repos.repos_by_id@[repo_id@];
            &&& r@.len() == chain.len()
            &&& forall|i: int| 0 <= i < r@.len() ==> {
                &&& (#[trigger] r@[i]).id@ == spec_repo_file_id(repo_id@, chain[i])
                &&& r@[i].repo_id@ == repo_id@
                &&& r@[i].path@ == chain[i]
                &&& r@[i].name@ == spec_crumb_name(repo.name@, names@, chain[i])
                &&& r@[i].last == (i == r@.len() - 1)
            }
        },
{
    let repo = match select_repo(state, repo_id) {
        Ok(repo) => repo,
        Err(_) => {
            return Vec::new();
        },
    };
    let paths = paths_chain(path);
    let n = paths.len();
    let mut r: Vec<RepoFilesBreadcrumb> = Vec::new();
    let mut i: usize = 0;
    while i < n
        invariant
            n == paths@.len(),
            paths@.map_values(|s: String| s@) == spec_paths_chain(path@),
            state.repos.repos_by_id@.contains_key(repo_id@),
            *repo == state.repos.repos_by_id@[repo_id@],
            i <= n,
            r@.len() == i,
            forall|j: int| 0 <= j < i ==> {
                &&& (#[trigger] r@[j]).id@ == spec_repo_file_id(repo_id@, spec_paths_chain(path@)[j])
                &&& r@[j].repo_id@ == repo_id@
                &&& r@[j].path@ == spec_paths_chain(path@)[j]
                &&& r@[j].name@ == spec_crumb_name(repo.name@, names@, spec_paths_chain(path@)[j])
                &&& r@[j].last == (j == n - 1)
            },
        decreases n - i,
    {
        let p = &paths[i];
        assert(p@ == spec_paths_chain(path@)[i as int]);
        let name = match path_to_name(p.as_str()) {
            Some(name) => match names.get(&name) {
                Some(decrypted) => copy_str(decrypted.as_str()),
                None => name,
            },
            None => copy_str(repo.name.as_str()),
        };
        r.push(
            RepoFilesBreadcrumb {
                id: get_file_id(repo_id.as_str(), p.as_str()),
                repo_id: copy_str(repo_id.as_str()),
                path: copy_str(p.as_str()),
                name,
                last: i == n - 1,
            },
        );
        i = i + 1;
    }
    r
}

/// The one breadcrumb of the recent files of a repository.
pub fn get_recent_breadcrumbs(repo_id: &str) -> (r: Vec<RepoFilesBreadcrumb>)
    ensures
        r@.len() == 1,
        r@[0].id@ == "recent:"@ + repo_id@,
        r@[0].repo_id@ == repo_id@,
        r@[0].path@ == root_path(),
        r@[0].name@ == "Recent files"@,
        r@[0].last,
{
    let mut r: Vec<RepoFilesBreadcrumb> = Vec::new();
    r.push(
        RepoFilesBreadcrumb {
            id: concat("recent:", repo_id),
            repo_id: copy_str(repo_id),
            path: crate::paths::root(),
            name: copy_str("Recent files"),
            last: true,
        },
    );
    r
}

} // verus!
