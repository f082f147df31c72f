//! Repositories (encrypted folders): what the rest of the state reads of them.
use vstd::prelude::*;

use crate::common::Status;
use crate::keymap::KeyMap;
use crate::remote::RemoteError;
use crate::remote_files::state::RemoteFilesLocation;
use crate::store::State;
use crate::paths::{is_root, paths_chain, root, root_path, spec_paths_chain};
use crate::remote_files::selectors::{get_file_id, spec_file_id};
use crate::strings::{copy_str, lowercase, str_eq, to_lowercase};
use vstd::string::*;

verus! {

/// The repository asked for is not known.
#[derive(Clone, Copy, Debug, PartialEq, Eq, Structural)]
pub struct RepoNotFoundError;

impl RepoNotFoundError {
    pub open spec fn spec_user_error() -> Seq<char> {
        "Safe Box not found"@
    }

    /// The text shown to the user for this error.
    pub fn user_error(&self) -> (r: String)
        ensures
            r@ == Self::spec_user_error(),
    {
        copy_str("Safe Box not found")
    }
}

/// The repository asked for is locked: its key is not loaded.
#[derive(Clone, Copy, Debug, PartialEq, Eq, Structural)]
pub struct RepoLockedError;

impl RepoLockedError {
    pub open spec fn spec_user_error() -> Seq<char> {
        "Safe Box is locked"@
    }

    /// The text shown to the user for this error.
    pub fn user_error(&self) -> (r: String)
        ensures
            r@ == Self::spec_user_error(),
    {
        copy_str("Safe Box is locked")
    }
}

/// Whether the key of a repository is loaded.
#[derive(Clone, Copy, Debug, PartialEq, Eq, Structural)]
pub enum RepoState {
    Locked,
    Unlocked,
}

impl RepoState {
    pub fn is_locked(&self) -> (r: bool)
        ensures
            r == (*self == RepoState::Locked),
    {
        *self == RepoState::Locked
    }

    pub fn is_unlocked(&self) -> (r: bool)
        ensures
            r == (*self == RepoState::Unlocked),
    {
        *self == RepoState::Unlocked
    }
}

/// A repository: a folder of a mount whose contents are encrypted.
#[derive(Debug)]
pub struct Repo {
    pub id: String,
    pub name: String,
    pub mount_id: String,
    pub path: String,
    pub salt: Option<String>,
    /// When the repository was added, in milliseconds since the epoch.
    pub added: i64,
    pub state: RepoState,
}

/// What is needed to open a repository elsewhere.
#[derive(Debug)]
pub struct RepoConfig {
    pub name: String,
    pub location: RemoteFilesLocation,
    pub password: String,
    pub salt: Option<String>,
    pub rclone_config: String,
}

/// A repository that was just created, with its configuration.
#[derive(Debug)]
pub struct RepoCreated {
    pub repo_id: String,
    pub config: RepoConfig,
}

#[derive(Debug)]
pub enum UnlockRepoError {
    RepoNotFound(RepoNotFoundError),
    InvalidPassword,
    RemoteError(RemoteError),
}

#[derive(Debug)]
pub enum CreateRepoError {
    RemoteError(RemoteError),
}

impl Clone for CreateRepoError {
    fn clone(&self) -> (r: Self)
        ensures
            r == *self,
    {
        match self {
            CreateRepoError::RemoteError(e) => CreateRepoError::RemoteError(e.clone()),
        }
    }
}

#[derive(Debug)]
pub enum LoadReposError {
    RemoteError(RemoteError),
}

impl LoadReposError {
    pub open spec fn spec_user_error(&self) -> Seq<char> {
        match self {
            LoadReposError::RemoteError(e) => e.spec_message(),
        }
    }

    /// The text shown to the user for this error.
    pub fn user_error(&self) -> (r: String)
        ensures
            r@ == self.spec_user_error(),
    {
        match self {
            LoadReposError::RemoteError(e) => e.user_error(),
        }
    }
}

impl Clone for LoadReposError {
    fn clone(&self) -> (r: Self)
        ensures
            r == *self,
    {
        match self {
            LoadReposError::RemoteError(e) => LoadReposError::RemoteError(e.clone()),
        }
    }
}

#[derive(Debug)]
pub enum RepoInfoError {
    RepoNotFound(RepoNotFoundError),
    RemoteError(RemoteError),
}

impl Clone for RepoInfoError {
    fn clone(&self) -> (r: Self)
        ensures
            r == *self,
    {
        match self {
            RepoInfoError::RepoNotFound(e) => RepoInfoError::RepoNotFound(*e),
            RepoInfoError::RemoteError(e) => RepoInfoError::RemoteError(e.clone()),
        }
    }
}

#[derive(Debug)]
pub struct ReposState {
    pub repos_by_id: KeyMap<String, Repo>,
    /// The repository of each remote folder that holds one, by its file id.
    pub repo_ids_by_remote_file_id: KeyMap<String, String>,
    pub status: Status<LoadReposError>,
}

impl ReposState {
    pub fn new() -> (r: Self)
        ensures
            r.repos_by_id@ == Map::<Seq<char>, Repo>::empty(),
            r.repo_ids_by_remote_file_id@ == Map::<Seq<char>, String>::empty(),
            r.status is Initial,
    {
        ReposState {
            repos_by_id: KeyMap::new(),
            repo_ids_by_remote_file_id: KeyMap::new(),
            status: Status::Initial,
        }
    }
}

/// The path of `p` inside the folder at `a`, one of its ancestors (or `p`).
pub open spec fn spec_rel_path(a: Seq<char>, p: Seq<char>) -> Seq<char> {
    if a == p {
        root_path()
    } else if a == root_path() || a.len() > p.len() {
        p
    } else {
        p.subrange(a.len() as int, p.len() as int)
    }
}

/// The repository of the deepest of the folders `chain` (ancestors of `p`,
/// root first) that holds one, with the path of `p` inside it.
pub open spec fn spec_tree_lookup(repos: ReposState, mount_id: Seq<char>, chain: Seq<Seq<char>>, p: Seq<char>) -> Option<
    (Seq<char>, Seq<char>),
>
    decreases chain.len(),
{
    if chain.len() == 0 {
        None
    } else {
        let a = chain.last();
        let key = spec_file_id(mount_id, lowercase(a));
        if repos.repo_ids_by_remote_file_id@.contains_key(key) {
            Some((repos.repo_ids_by_remote_file_id@[key]@, spec_rel_path(a, p)))
        } else {
            spec_tree_lookup(repos, mount_id, chain.drop_last(), p)
        }
    }
}

/// The repository that holds the remote file at `path` of `mount_id`, and
/// the file's path inside it: the repository of its deepest folder that is
/// one.
pub open spec fn spec_repo_tree_get(repos: ReposState, mount_id: Seq<char>, path: Seq<char>) -> Option<
    (Seq<char>, Seq<char>),
> {
    spec_tree_lookup(repos, mount_id, spec_paths_chain(path), path)
}

fn rel_path(a: &str, p: &str) -> (r: String)
    ensures
        r@ == spec_rel_path(a@, p@),
{
    if str_eq(a, p) {
        root()
    } else if is_root(a) || a.unicode_len() > p.unicode_len() {
        copy_str(p)
    } else {
        copy_str(p.substring_char(a.unicode_len(), p.unicode_len()))
    }
}

/// The repository that holds the remote file at `path` of `mount_id`, and
/// the file's path inside it (see `spec_repo_tree_get`).
pub fn repo_tree_get(repos: &ReposState, mount_id: &str, path: &str) -> (r: Option<(String, String)>)
    ensures
        match r {
            Some((id, p)) => spec_repo_tree_get(*repos, mount_id@, path@) == Some((id@, p@)),
            None => spec_repo_tree_get(*repos, mount_id@, path@) is None,
        },
{
    let chain = paths_chain(path);
    let ghost cv = chain@.map_values(|s: String| s@);
    let mut i: usize = chain.len();
    proof {
        assert(cv.subrange(0, i as int) =~= cv);
    }
    while i > 0
        invariant
            i <= chain.len(),
            cv == chain@.map_values(|s: String| s@),
            cv == spec_paths_chain(path@),
            spec_repo_tree_get(*repos, mount_id@, path@) == spec_tree_lookup(
                *repos,
                mount_id@,
                cv.subrange(0, i as int),
                path@,
            ),
        decreases i,
    {
        let a = &chain[i - 1];
        proof {
            let sub = cv.subrange(0, i as int);
            assert(sub.last() == a@);
            assert(sub.drop_last() =~= cv.subrange(0, i - 1));
        }
        let lower = to_lowercase(a.as_str());
        let key = get_file_id(mount_id, lower.as_str());
        match repos.repo_ids_by_remote_file_id.get(&key) {
            Some(id) => {
                return Some((id.clone(), rel_path(a.as_str(), path)));
            },
            None => {},
        }
        i = i - 1;
    }
    None
}

pub fn select_repo<'a>(state: &'a State, repo_id: &String) -> (r: Result<&'a Repo, RepoNotFoundError>)
    ensures
        match r {
            Ok(repo) => state.repos.repos_by_id@.contains_key(repo_id@)
                && state.repos.repos_by_id@[repo_id@] == *repo,
            Err(_) => !state.repos.repos_by_id@.contains_key(repo_id@),
        },
{
    match state.repos.repos_by_id.get(repo_id) {
        Some(repo) => Ok(repo),
        None => Err(RepoNotFoundError),
    }
}

pub fn select_repo_name<'a>(state: &'a State, repo_id: &String) -> (r: Option<&'a String>)
    ensures
        match r {
            Some(n) => state.repos.repos_by_id@.contains_key(repo_id@)
                && state.repos.repos_by_id@[repo_id@].name == *n,
            None => !state.repos.repos_by_id@.contains_key(repo_id@),
        },
{
    match state.repos.repos_by_id.get(repo_id) {
        Some(repo) => Some(&repo.name),
        None => None,
    }
}

/// What an unlock form shows of a repository.
#[derive(Debug)]
pub struct RepoUnlockInfo<'a> {
    pub repo_id: &'a String,
    pub status: &'a Status<UnlockRepoError>,
    pub repo_name: Option<&'a String>,
}

} // verus!
