//! The whole client state that mutations change and selectors read.
use vstd::prelude::*;

use crate::remote_files::state::{RemoteFilesMutationState, RemoteFilesState};
use crate::remote_files_browsers::state::RemoteFilesBrowsersState;
use crate::dir_pickers::DirPickersState;
use crate::repos::ReposState;
use crate::repo_files::state::RepoFilesState;
use crate::repo_create::state::RepoCreatesState;
use crate::repo_config_backup::state::RepoConfigBackupsState;
use crate::repo_files_details::state::RepoFilesDetailsState;
use crate::repo_files::state::RepoFilesMutationState;
use crate::files::FileTypes;
use crate::repo_files_browsers::state::RepoFilesBrowsersState;
use crate::repo_files_move::state::RepoFilesMoveState;

verus! {

#[derive(Debug)]
pub struct State {
    pub remote_files: RemoteFilesState,
    pub remote_files_browsers: RemoteFilesBrowsersState,
    pub dir_pickers: DirPickersState,
    pub repos: ReposState,
    pub repo_files: RepoFilesState,
    pub repo_creates: RepoCreatesState,
    pub repo_config_backups: RepoConfigBackupsState,
    pub repo_files_details: RepoFilesDetailsState,
    pub repo_files_browsers: RepoFilesBrowsersState,
    pub repo_files_move: Option<RepoFilesMoveState>,
    /// The known file extensions, their content types and categories.
    pub file_types: FileTypes,
}

impl State {
    /// The state of a client that knows nothing yet.
    pub fn new() -> (r: Self)
        ensures
            r.repos.repos_by_id@ == Map::<Seq<char>, crate::repos::Repo>::empty(),
            r.repo_files.files@ == Map::<Seq<char>, crate::repo_files::state::RepoFile>::empty(),
            r.repo_files_details.details@ == Map::<u32, crate::repo_files_details::state::RepoFilesDetails>::empty(),
            r.repo_files_browsers.browsers@ == Map::<u32, crate::repo_files_browsers::state::RepoFilesBrowser>::empty(),
            r.repo_files_move is None,
    {
        State {
            remote_files: RemoteFilesState::new(),
            remote_files_browsers: RemoteFilesBrowsersState::new(),
            dir_pickers: DirPickersState::new(),
            repos: ReposState::new(),
            repo_files: RepoFilesState::new(),
            repo_creates: RepoCreatesState::new(),
            repo_config_backups: RepoConfigBackupsState::new(),
            repo_files_details: RepoFilesDetailsState::new(),
            repo_files_browsers: crate::repo_files_browsers::state::RepoFilesBrowsersState::new(),
            repo_files_move: None,
            file_types: FileTypes { by_ext: crate::keymap::KeyMap::new() },
        }
    }
}

/// `b` holds what `a` holds, but for the repository files.
pub open spec fn same_but_repo_files(a: State, b: State) -> bool {
    &&& b.remote_files == a.remote_files
    &&& b.remote_files_browsers == a.remote_files_browsers
    &&& b.dir_pickers == a.dir_pickers
    &&& b.repos == a.repos
    &&& b.repo_creates == a.repo_creates
    &&& b.repo_config_backups == a.repo_config_backups
    &&& b.repo_files_details == a.repo_files_details
    &&& b.repo_files_browsers == a.repo_files_browsers
    &&& b.repo_files_move == a.repo_files_move
    &&& b.file_types == a.file_types
}

/// What changed to repositories in one mutation, by repository id.
#[derive(Debug)]
pub struct ReposMutationState {
    pub locked_repos: Vec<String>,
    pub unlocked_repos: Vec<String>,
    pub removed_repos: Vec<String>,
}

/// What one mutation changed, for the parts of the state that follow others.
#[derive(Debug)]
pub struct MutationState {
    pub remote_files: RemoteFilesMutationState,
    pub repo_files: RepoFilesMutationState,
    pub repos: ReposMutationState,
}

} // verus!
