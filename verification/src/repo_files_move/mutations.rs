//! Opening, steering and closing the move dialog.
use vstd::prelude::*;

use crate::common::{Event, Notify};
use crate::remote::ApiErrorCode;
use crate::remote_files::state::{copy_ids, id_views};
use crate::repo_files::errors::MoveFileError;
use crate::store::State;

use super::selectors::{select_check_move, spec_first_move_error};
use super::state::{RepoFilesMoveInfo, RepoFilesMoveMode, RepoFilesMoveState};

verus! {

/// Opens the move dialog for the files at `src_paths` of a repository.
pub fn show(
    state: &mut State,
    notify: &mut Notify,
    repo_id: String,
    src_paths: Vec<String>,
    dest_path: String,
    mode: RepoFilesMoveMode,
    dir_picker_id: u32,
)
    ensures
        final(state).repo_files_move == Some(RepoFilesMoveState { repo_id, src_paths, mode, dest_path, dir_picker_id }),
        final(state).repo_files == old(state).repo_files,
        final(notify).events@ == old(notify).events@.push(Event::RepoFilesMove),
{
    notify.notify(Event::RepoFilesMove);
    state.repo_files_move = Some(RepoFilesMoveState { repo_id, src_paths, mode, dest_path, dir_picker_id });
}

/// Chooses the destination folder of an open move dialog.
pub fn set_dest_path(state: &mut State, notify: &mut Notify, dest_path: String)
    ensures
        match old(state).repo_files_move {
            Some(m) => final(state).repo_files_move == Some(RepoFilesMoveState { dest_path, ..m })
                && final(notify).events@ == old(notify).events@.push(Event::RepoFilesMove),
            None => *final(state) == *old(state) && final(notify).events@ == old(notify).events@,
        },
        final(state).repo_files == old(state).repo_files,
{
    match state.repo_files_move.take() {
        Some(mut m) => {
            notify.notify(Event::RepoFilesMove);
            m.dest_path = dest_path;
            state.repo_files_move = Some(m);
        },
        None => {},
    }
}

/// Confirms the move: when `select_check_move` admits it, the dialog closes
/// and what the move is to do is returned.
pub fn move_files(state: &mut State, notify: &mut Notify) -> (r: Result<RepoFilesMoveInfo, MoveFileError>)
    ensures
        final(notify).events@ == old(notify).events@.push(Event::RepoFilesMove),
        final(state).repo_files == old(state).repo_files,
        match old(state).repo_files_move {
            None => r matches Err(MoveFileError::RemoteError(e)) && e.spec_is_api_error_code(ApiErrorCode::NotFound)
                && *final(state) == *old(state),
            Some(m) => match spec_first_move_error(*old(state), m.repo_id@, m.dest_path@, m.src_paths@) {
                Some(code) => r matches Err(MoveFileError::RemoteError(e)) && e.spec_is_api_error_code(code)
                    && *final(state) == *old(state),
                None => r matches Ok(info) && info.repo_id == m.repo_id && id_views(info.src_paths@) == id_views(
                    m.src_paths@,
                ) && info.mode == m.mode && info.dir_picker_id == m.dir_picker_id && info.dest_path == m.dest_path
                    && final(state).repo_files_move is None,
            },
        },
{
    notify.notify(Event::RepoFilesMove);
    let info = match select_check_move(state) {
        Ok((m, dest_path)) => RepoFilesMoveInfo {
            repo_id: m.repo_id.clone(),
            src_paths: copy_ids(&m.src_paths),
            mode: m.mode,
            dir_picker_id: m.dir_picker_id,
            dest_path: dest_path.clone(),
        },
        Err(e) => {
            return Err(e);
        },
    };
    state.repo_files_move = None;
    Ok(info)
}

/// Closes the move dialog; returns its folder picker, when it was open.
pub fn cancel(state: &mut State, notify: &mut Notify) -> (r: Option<u32>)
    ensures
        r == match old(state).repo_files_move {
            Some(m) => Some(m.dir_picker_id),
            None => None,
        },
        final(state).repo_files_move is None,
        final(state).repo_files == old(state).repo_files,
        final(notify).events@ == old(notify).events@.push(Event::RepoFilesMove),
{
    notify.notify(Event::RepoFilesMove);
    let id = match &state.repo_files_move {
        Some(m) => Some(m.dir_picker_id),
        None => None,
    };
    state.repo_files_move = None;
    id
}

} // verus!
