//! Reading the move dialog and checking a move before it starts.
use vstd::prelude::*;

use crate::paths::{join_path_name, path_to_name, spec_join_path_name, spec_path_to_name};
use crate::remote::ApiErrorCode;
use crate::repo_files::errors::{MoveFileError, RepoFilesErrors};
use crate::repo_files::selectors::{get_file_id, select_file, spec_repo_file_id};
use crate::repo_files::state::{RepoFile, RepoFileType};
use crate::store::State;
use crate::strings::str_eq;

use super::errors::DirPickerClickError;
use super::state::RepoFilesMoveState;

verus! {

pub fn select_dir_picker_id(state: &State) -> (r: Option<u32>)
    ensures
        match state.repo_files_move {
            Some(m) => r == Some(m.dir_picker_id),
            None => r is None,
        },
{
    match &state.repo_files_move {
        Some(m) => Some(m.dir_picker_id),
        None => None,
    }
}

pub fn select_dest_path<'a>(state: &'a State) -> (r: Option<&'a String>)
    ensures
        match state.repo_files_move {
            Some(m) => r == Some(&m.dest_path),
            None => r is None,
        },
{
    match &state.repo_files_move {
        Some(m) => Some(&m.dest_path),
        None => None,
    }
}

pub fn select_repo_id_dest_path<'a>(state: &'a State) -> (r: Option<(&'a String, &'a String)>)
    ensures
        match state.repo_files_move {
            Some(m) => r == Some((&m.repo_id, &m.dest_path)),
            None => r is None,
        },
{
    match &state.repo_files_move {
        Some(m) => Some((&m.repo_id, &m.dest_path)),
        None => None,
    }
}

/// The file of the folder chosen as the destination, when it is listed.
pub open spec fn spec_dest_file(state: State) -> Option<RepoFile> {
    match state.repo_files_move {
        Some(m) => {
            let id = spec_repo_file_id(m.repo_id@, m.dest_path@);
            if state.repo_files.files@.contains_key(id) {
                Some(state.repo_files.files@[id])
            } else {
                None
            }
        },
        None => None,
    }
}

pub fn select_dest_file<'a>(state: &'a State) -> (r: Option<&'a RepoFile>)
    ensures
        match r {
            Some(f) => spec_dest_file(*state) == Some(*f),
            None => spec_dest_file(*state) is None,
        },
{
    match select_repo_id_dest_path(state) {
        Some((repo_id, dest_path)) => {
            let id = get_file_id(repo_id.as_str(), dest_path.as_str());
            select_file(state, &id)
        },
        None => None,
    }
}

/// A click on a folder in the dialog's picker: the picker and the decrypted
/// path of the folder.
pub fn select_dir_picker_click(state: &State, file_id: &String) -> (r: Result<(u32, String), DirPickerClickError>)
    ensures
        match state.repo_files_move {
            None => r matches Err(DirPickerClickError::RemoteError(e)) && e.spec_is_api_error_code(
                ApiErrorCode::NotFound,
            ),
            Some(m) => if !state.repo_files.files@.contains_key(file_id@) {
                r matches Err(DirPickerClickError::RemoteError(e)) && e.spec_is_api_error_code(
                    ApiErrorCode::NotFound,
                )
            } else {
                match state.repo_files.files@[file_id@].path {
                    crate::repo_files::state::RepoFilePath::Decrypted { path } => r matches Ok((id, p)) && id
                        == m.dir_picker_id && p@ == path@,
                    crate::repo_files::state::RepoFilePath::DecryptError { error } => r matches Err(
                        DirPickerClickError::DecryptFilenameError(e),
                    ) && e == error,
                }
            },
        },
{
    let dir_picker_id = match select_dir_picker_id(state) {
        Some(id) => id,
        None => {
            return Err(DirPickerClickError::RemoteError(RepoFilesErrors::not_found()));
        },
    };
    let file = match select_file(state, file_id) {
        Some(f) => f,
        None => {
            return Err(DirPickerClickError::RemoteError(RepoFilesErrors::not_found()));
        },
    };
    match file.decrypted_path() {
        Ok(path) => Ok((dir_picker_id, path.clone())),
        Err(e) => Err(DirPickerClickError::DecryptFilenameError(e)),
    }
}

/// A folder can be created in the destination when it is a listed folder.
pub fn select_create_dir_enabled(state: &State) -> (r: bool)
    ensures
        r == (spec_dest_file(*state) matches Some(f) && f.typ == RepoFileType::Dir),
{
    match select_dest_file(state) {
        Some(file) => file.typ.is_dir(),
        None => false,
    }
}

/// Why moving the file at `src` into `dest` of repository `repo_id` fails: a
/// path without a name, a move onto itself, or a file already there.
pub open spec fn spec_move_path_error(state: State, repo_id: Seq<char>, dest: Seq<char>, src: Seq<char>) -> Option<
    ApiErrorCode,
> {
    match spec_path_to_name(src) {
        None => Some(ApiErrorCode::InvalidPath),
        Some(name) => {
            let dest_path = spec_join_path_name(dest, name);
            if src == dest_path {
                Some(ApiErrorCode::MoveIntoSelf)
            } else if state.repo_files.files@.contains_key(spec_repo_file_id(repo_id, dest_path)) {
                Some(ApiErrorCode::AlreadyExists)
            } else {
                None
            }
        },
    }
}

/// The error of the first of `srcs` that cannot move.
pub open spec fn spec_first_move_error(state: State, repo_id: Seq<char>, dest: Seq<char>, srcs: Seq<String>) -> Option<
    ApiErrorCode,
>
    decreases srcs.len(),
{
    if srcs.len() == 0 {
        None
    } else {
        match spec_move_path_error(state, repo_id, dest, srcs[0]@) {
            Some(e) => Some(e),
            None => spec_first_move_error(state, repo_id, dest, srcs.drop_first()),
        }
    }
}

pub proof fn lemma_first_move_error_prefix(
    state: State,
    repo_id: Seq<char>,
    dest: Seq<char>,
    srcs: Seq<String>,
    i: int,
)
    requires
        0 <= i < srcs.len(),
        forall|j: int| 0 <= j < i ==> spec_move_path_error(state, repo_id, dest, #[trigger] srcs[j]@) is None,
    ensures
        spec_first_move_error(state, repo_id, dest, srcs) == match spec_move_path_error(
            state,
            repo_id,
            dest,
            srcs[i]@,
        ) {
            Some(e) => Some(e),
            None => spec_first_move_error(state, repo_id, dest, srcs.subrange(i + 1, srcs.len() as int)),
        },
    decreases i,
{
    if i > 0 {
        assert(spec_move_path_error(state, repo_id, dest, srcs[0]@) is None);
        lemma_first_move_error_prefix(state, repo_id, dest, srcs.drop_first(), i - 1);
        assert(srcs.drop_first().subrange(i, srcs.len() - 1) =~= srcs.subrange(i + 1, srcs.len() as int));
    } else {
        assert(srcs.drop_first() =~= srcs.subrange(1, srcs.len() as int));
    }
}

/// Checks that the dialog's files can move into the chosen folder: each has a
/// name, none would move onto itself, and none would replace a listed file.
pub fn select_check_move<'a>(state: &'a State) -> (r: Result<(&'a RepoFilesMoveState, &'a String), MoveFileError>)
    ensures
        match state.repo_files_move {
            None => r matches Err(MoveFileError::RemoteError(e)) && e.spec_is_api_error_code(ApiErrorCode::NotFound),
            Some(m) => match spec_first_move_error(*state, m.repo_id@, m.dest_path@, m.src_paths@) {
                Some(code) => r matches Err(MoveFileError::RemoteError(e)) && e.spec_is_api_error_code(code),
                None => r == Ok::<(&RepoFilesMoveState, &String), MoveFileError>((&m, &m.dest_path)),
            },
        },
{
    let m = match &state.repo_files_move {
        Some(m) => m,
        None => {
            return Err(MoveFileError::RemoteError(RepoFilesErrors::not_found()));
        },
    };
    let dest_parent_path = &m.dest_path;
    let n = m.src_paths.len();
    let mut i: usize = 0;
    while i < n
        invariant
            n == m.src_paths@.len(),
            i <= n,
            state.repo_files_move == Some(*m),
            dest_parent_path == &m.dest_path,
            forall|j: int| 0 <= j < i ==> spec_move_path_error(*state, m.repo_id@, m.dest_path@, #[trigger] m.src_paths@[j]@) is None,
        decreases n - i,
    {
        let src_path = &m.src_paths[i];
        proof {
            lemma_first_move_error_prefix(*state, m.repo_id@, m.dest_path@, m.src_paths@, i as int);
        }
        let name = match path_to_name(src_path.as_str()) {
            Some(name) => name,
            None => {
                return Err(MoveFileError::RemoteError(RepoFilesErrors::invalid_path()));
            },
        };
        let dest_path = join_path_name(dest_parent_path.as_str(), name.as_str());
        if str_eq(src_path.as_str(), dest_path.as_str()) {
            return Err(MoveFileError::RemoteError(RepoFilesErrors::move_into_self()));
        }
        let dest_file_id = get_file_id(m.repo_id.as_str(), dest_path.as_str());
        if select_file(state, &dest_file_id).is_some() {
            return Err(MoveFileError::RemoteError(RepoFilesErrors::already_exists()));
        }
        i = i + 1;
    }
    proof {
        assert forall|k: int| 0 <= k <= n implies #[trigger] spec_first_move_error(
            *state,
            m.repo_id@,
            m.dest_path@,
            m.src_paths@.subrange(k, n as int),
        ) is None by {
            lemma_suffix_no_error(*state, m.repo_id@, m.dest_path@, m.src_paths@, k);
        }
        assert(m.src_paths@.subrange(0, n as int) =~= m.src_paths@);
    }
    Ok((m, dest_parent_path))
}

proof fn lemma_suffix_no_error(state: State, repo_id: Seq<char>, dest: Seq<char>, srcs: Seq<String>, k: int)
    requires
        0 <= k <= srcs.len(),
        forall|j: int| 0 <= j < srcs.len() ==> spec_move_path_error(state, repo_id, dest, #[trigger] srcs[j]@) is None,
    ensures
        spec_first_move_error(state, repo_id, dest, srcs.subrange(k, srcs.len() as int)) is None,
    decreases srcs.len() - k,
{
    let s = srcs.subrange(k, srcs.len() as int);
    if k < srcs.len() {
        lemma_suffix_no_error(state, repo_id, dest, srcs, k + 1);
        assert(s.drop_first() =~= srcs.subrange(k + 1, srcs.len() as int));
        assert(s[0] == srcs[k]);
    }
}

} // verus!
