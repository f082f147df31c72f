//! Reading the details views: their file, its status, what is shown as the
//! error, and whether content has to be loaded again.
use vstd::prelude::*;
use vstd::string::*;

use crate::common::Status;
use crate::paths::{parent_path, spec_join_paths, spec_parent_path};
use crate::remote::ApiErrorCode;
use crate::remote_files::selectors::spec_file_id;
use crate::remote_files::state::RemoteFile;
use crate::repo_files::errors::{LoadFilesError, RepoFilesErrors};
use crate::repo_files::selectors as repo_files_selectors;
use crate::repo_files::selectors::spec_repo_file_id;
use crate::repo_files::state::{FileCategory, RepoFile};
use crate::repo_files::selectors::{get_file_ext_content_type_category, spec_ext_category};
use crate::files::spec_name_to_ext;
use crate::strings::to_lowercase;
use crate::repos::{Repo, RepoInfoError, RepoLockedError, RepoNotFoundError, RepoState};
use crate::store::{MutationState, State};
use crate::strings::{concat, copy_str, lowercase, spec_i64_decimal, str_eq, usize_to_string};
use crate::transfers::TransferError;
use crate::repo_files_read::errors::GetFilesReaderError;
use crate::repo_files::state::same_file;

use super::errors::SaveError;
use super::state::{
    clone_load_status, clone_repo_status, clone_save_status, clone_transfer_status, RepoFilesDetailsInfo,
    RepoFilesDetails, RepoFilesDetailsContent, RepoFilesDetailsContentData, RepoFilesDetailsContentLoading,
    RepoFilesDetailsLocation,
};

verus! {

/// The name under which a details view follows changes of its mount.
pub fn get_eventstream_mount_subscriber(details_id: u32) -> (r: String)
    ensures
        r@ == "RepoFilesDetails:"@ + spec_i64_decimal(details_id as int),
{
    let n = usize_to_string(details_id as usize);
    concat("RepoFilesDetails:", n.as_str())
}

pub open spec fn spec_details(state: State, details_id: u32) -> Option<RepoFilesDetails> {
    if state.repo_files_details.details@.contains_key(details_id) {
        Some(state.repo_files_details.details@[details_id])
    } else {
        None
    }
}

pub open spec fn spec_location(state: State, details_id: u32) -> Option<RepoFilesDetailsLocation> {
    match spec_details(state, details_id) {
        Some(d) => d.location,
        None => None,
    }
}

pub fn select_details<'a>(state: &'a State, details_id: u32) -> (r: Option<&'a RepoFilesDetails>)
    ensures
        match r {
            Some(d) => spec_details(*state, details_id) == Some(*d),
            None => spec_details(*state, details_id) is None,
        },
{
    state.repo_files_details.details.get(&details_id)
}

pub fn select_details_location<'a>(state: &'a State, details_id: u32) -> (r: Option<&'a RepoFilesDetailsLocation>)
    ensures
        match r {
            Some(l) => spec_location(*state, details_id) == Some(*l),
            None => spec_location(*state, details_id) is None,
        },
{
    match select_details(state, details_id) {
        Some(details) => details.location.as_ref(),
        None => None,
    }
}

pub fn select_repo_id<'a>(state: &'a State, details_id: u32) -> (r: Option<&'a String>)
    ensures
        match r {
            Some(id) => spec_location(*state, details_id) matches Some(l) && l.repo_id == *id,
            None => spec_location(*state, details_id) is None,
        },
{
    match select_details_location(state, details_id) {
        Some(loc) => Some(&loc.repo_id),
        None => None,
    }
}

pub fn select_repo_id_path_owned(state: &State, details_id: u32) -> (r: Option<(String, String)>)
    ensures
        match r {
            Some((id, p)) => spec_location(*state, details_id) matches Some(l) && l.repo_id@ == id@
                && l.path@ == p@,
            None => spec_location(*state, details_id) is None,
        },
{
    match select_details_location(state, details_id) {
        Some(loc) => Some((copy_str(loc.repo_id.as_str()), copy_str(loc.path.as_str()))),
        None => None,
    }
}

/// The repository of the file that a details view shows, when it is known.
pub open spec fn spec_repo(state: State, details_id: u32) -> Option<Repo> {
    match spec_location(state, details_id) {
        Some(l) => if state.repos.repos_by_id@.contains_key(l.repo_id@) {
            Some(state.repos.repos_by_id@[l.repo_id@])
        } else {
            None
        },
        None => None,
    }
}

pub fn select_repo<'a>(state: &'a State, details_id: u32) -> (r: Option<&'a Repo>)
    ensures
        match r {
            Some(repo) => spec_repo(*state, details_id) == Some(*repo),
            None => spec_repo(*state, details_id) is None,
        },
{
    match select_details_location(state, details_id) {
        Some(loc) => match crate::repos::select_repo(state, &loc.repo_id) {
            Ok(repo) => Some(repo),
            Err(_) => None,
        },
        None => None,
    }
}

pub fn select_repo_state<'a>(state: &'a State, details_id: u32) -> (r: Option<&'a RepoState>)
    ensures
        match r {
            Some(s) => spec_repo(*state, details_id) matches Some(repo) && repo.state == *s,
            None => spec_repo(*state, details_id) is None,
        },
{
    match select_repo(state, details_id) {
        Some(repo) => Some(&repo.state),
        None => None,
    }
}

pub fn select_is_locked(state: &State, details_id: u32) -> (r: bool)
    ensures
        r == (spec_repo(*state, details_id) matches Some(repo) && repo.state == RepoState::Locked),
{
    match select_repo_state(state, details_id) {
        Some(s) => s.is_locked(),
        None => false,
    }
}

pub fn select_is_unlocked(state: &State, details_id: u32) -> (r: bool)
    ensures
        r == (spec_repo(*state, details_id) matches Some(repo) && repo.state == RepoState::Unlocked),
{
    match select_repo_state(state, details_id) {
        Some(s) => s.is_unlocked(),
        None => false,
    }
}

pub fn select_is_status_any_loaded(state: &State, details_id: u32) -> (r: bool)
    ensures
        r == (spec_details(*state, details_id) matches Some(d) && d.status.spec_loaded()),
{
    match select_details(state, details_id) {
        Some(details) => details.status.loaded(),
        None => false,
    }
}

/// The load status that a details view shows: a missing repository and a
/// locked one win over the listing's own status, and a listing that loaded
/// without the file is a "not found" error.
pub open spec fn spec_status(
    status: Status<LoadFilesError>,
    file_exists: bool,
    repo_status: Status<RepoInfoError>,
    is_locked: bool,
) -> Status<LoadFilesError> {
    if repo_status matches Status::Error { error: RepoInfoError::RepoNotFound(_), .. } {
        Status::Error { error: LoadFilesError::RepoNotFound(RepoNotFoundError), loaded: false }
    } else if is_locked {
        Status::Error { error: LoadFilesError::RepoLocked(RepoLockedError), loaded: status.spec_loaded() }
    } else if status is Loaded && !file_exists {
        Status::Error {
            error: LoadFilesError::RemoteError(
                crate::remote::RemoteError::ApiError { code: ApiErrorCode::NotFound, message: arbitrary() },
            ),
            loaded: true,
        }
    } else {
        status
    }
}

/// Whether the shown status is the "not found" error: the listing loaded
/// without the file, and neither the repository's absence nor its lock wins.
pub open spec fn status_is_not_found(
    status: Status<LoadFilesError>,
    file_exists: bool,
    repo_status: Status<RepoInfoError>,
    is_locked: bool,
) -> bool {
    &&& !(repo_status matches Status::Error { error: RepoInfoError::RepoNotFound(_), .. })
    &&& !is_locked
    &&& status is Loaded
    &&& !file_exists
}

pub open spec fn is_not_found_status(r: Status<LoadFilesError>) -> bool {
    r matches Status::Error {
        error: LoadFilesError::RemoteError(crate::remote::RemoteError::ApiError { code, message }),
        loaded,
    } && loaded && code == ApiErrorCode::NotFound && message@ == "Not found"@
}

/// `r` is the status shown for these inputs.
pub open spec fn status_ok(
    r: Status<LoadFilesError>,
    status: Status<LoadFilesError>,
    file_exists: bool,
    repo_status: Status<RepoInfoError>,
    is_locked: bool,
) -> bool {
    if status_is_not_found(status, file_exists, repo_status, is_locked) {
        is_not_found_status(r)
    } else {
        r == spec_status(status, file_exists, repo_status, is_locked)
    }
}

pub fn get_status(
    status: &Status<LoadFilesError>,
    file_exists: bool,
    repo_status: &Status<RepoInfoError>,
    is_locked: bool,
) -> (r: Status<LoadFilesError>)
    ensures
        status_ok(r, *status, file_exists, *repo_status, is_locked),
{
    if let Status::Error { error: RepoInfoError::RepoNotFound(_), .. } = repo_status {
        return Status::Error { error: LoadFilesError::RepoNotFound(RepoNotFoundError), loaded: false };
    }
    if is_locked {
        return Status::Error { error: LoadFilesError::RepoLocked(RepoLockedError), loaded: status.loaded() };
    }
    match status {
        Status::Loaded => if file_exists {
            Status::Loaded
        } else {
            Status::Error { error: LoadFilesError::RemoteError(RepoFilesErrors::not_found()), loaded: true }
        },
        _ => super::state::clone_load_status(status),
    }
}

pub open spec fn spec_data_matches(data: RepoFilesDetailsContentData, remote_file: RemoteFile) -> bool {
    &&& data.remote_size == remote_file.size
    &&& data.remote_modified == remote_file.modified
    &&& opt_str_view(data.remote_hash) == opt_str_view(remote_file.hash)
}

pub open spec fn spec_loading_matches(loading: RepoFilesDetailsContentLoading, remote_file: RemoteFile) -> bool {
    &&& loading.remote_size == remote_file.size
    &&& loading.remote_modified == remote_file.modified
    &&& opt_str_view(loading.remote_hash) == opt_str_view(remote_file.hash)
}

pub open spec fn opt_str_view(o: Option<String>) -> Option<Seq<char>> {
    match o {
        Some(s) => Some(s@),
        None => None,
    }
}

fn opt_i64_eq(a: Option<i64>, b: Option<i64>) -> (r: bool)
    ensures
        r == (a == b),
{
    match (a, b) {
        (Some(x), Some(y)) => x == y,
        (None, None) => true,
        _ => false,
    }
}

fn opt_str_eq(a: &Option<String>, b: &Option<String>) -> (r: bool)
    ensures
        r == (opt_str_view(*a) == opt_str_view(*b)),
{
    match (a, b) {
        (Some(x), Some(y)) => str_eq(x.as_str(), y.as_str()),
        (None, None) => true,
        _ => false,
    }
}

/// Whether loaded content came from the current version of the remote file.
pub fn content_data_matches_remote_file(data: &RepoFilesDetailsContentData, remote_file: &RemoteFile) -> (r: bool)
    ensures
        r == spec_data_matches(*data, *remote_file),
{
    opt_i64_eq(data.remote_size, remote_file.size) && opt_i64_eq(data.remote_modified, remote_file.modified)
        && opt_str_eq(&data.remote_hash, &remote_file.hash)
}

/// Whether content being loaded comes from the current version of the remote file.
pub fn content_loading_matches_remote_file(loading: &RepoFilesDetailsContentLoading, remote_file: &RemoteFile) -> (r:
    bool)
    ensures
        r == spec_loading_matches(*loading, *remote_file),
{
    opt_i64_eq(loading.remote_size, remote_file.size) && opt_i64_eq(loading.remote_modified, remote_file.modified)
        && opt_str_eq(&loading.remote_hash, &remote_file.hash)
}

/// Edited content conflicts when the remote file changed since it was loaded.
pub open spec fn spec_is_content_conflict(
    is_dirty: bool,
    data: Option<RepoFilesDetailsContentData>,
    remote_file: Option<RemoteFile>,
) -> bool {
    is_dirty && (data matches Some(d) && remote_file matches Some(f) && !spec_data_matches(d, f))
}

pub fn get_is_content_conflict(
    is_dirty: bool,
    data: Option<&RepoFilesDetailsContentData>,
    remote_file: Option<&RemoteFile>,
) -> (r: bool)
    ensures
        r == spec_is_content_conflict(
            is_dirty,
            match data {
                Some(d) => Some(*d),
                None => None,
            },
            match remote_file {
                Some(f) => Some(*f),
                None => None,
            },
        ),
{
    is_dirty && match (data, remote_file) {
        (Some(data), Some(remote_file)) => !content_data_matches_remote_file(data, remote_file),
        _ => false,
    }
}

pub open spec fn conflict_message() -> Seq<char> {
    "File was changed by someone else since your last save. Automatic saving is disabled."@
}

pub open spec fn spec_conflict_error(is_conflict: bool) -> Option<Seq<char>> {
    if is_conflict {
        Some(conflict_message())
    } else {
        None
    }
}

pub fn get_conflict_error(is_conflict: bool) -> (r: Option<String>)
    ensures
        opt_str_view(r) == spec_conflict_error(is_conflict),
{
    if is_conflict {
        Some(copy_str("File was changed by someone else since your last save. Automatic saving is disabled."))
    } else {
        None
    }
}

/// A save failed because the service reported a conflict.
pub open spec fn spec_is_save_conflict(status: Status<SaveError>) -> bool {
    status matches Status::Error { error: SaveError::RemoteError(e), .. } && e.spec_is_api_error_code(
        ApiErrorCode::Conflict,
    )
}

pub fn get_is_save_conflict(status: &Status<SaveError>) -> (r: bool)
    ensures
        r == spec_is_save_conflict(*status),
{
    match status {
        Status::Error { error, .. } => match error {
            SaveError::RemoteError(error) => error.is_api_error_code(ApiErrorCode::Conflict),
            _ => false,
        },
        _ => false,
    }
}

/// A conflict is shown unless a first save is under way.
pub open spec fn spec_is_conflict(
    is_dirty: bool,
    data: Option<RepoFilesDetailsContentData>,
    remote_file: Option<RemoteFile>,
    save_status: Status<SaveError>,
) -> bool {
    !(save_status matches Status::Loading { loaded } && !loaded) && (spec_is_content_conflict(
        is_dirty,
        data,
        remote_file,
    ) || spec_is_save_conflict(save_status))
}

pub fn get_is_conflict(
    is_dirty: bool,
    data: Option<&RepoFilesDetailsContentData>,
    remote_file: Option<&RemoteFile>,
    save_status: &Status<SaveError>,
) -> (r: bool)
    ensures
        r == spec_is_conflict(
            is_dirty,
            match data {
                Some(d) => Some(*d),
                None => None,
            },
            match remote_file {
                Some(f) => Some(*f),
                None => None,
            },
            *save_status,
        ),
{
    let first_save = match save_status {
        Status::Loading { loaded } => !*loaded,
        _ => false,
    };
    !first_save && (get_is_content_conflict(is_dirty, data, remote_file) || get_is_save_conflict(save_status))
}

pub open spec fn spec_save_error(status: Status<SaveError>) -> Option<Seq<char>> {
    if spec_is_save_conflict(status) {
        Some(conflict_message())
    } else {
        match status {
            Status::Error { error, .. } => Some(error.spec_user_error()),
            _ => None,
        }
    }
}

pub fn get_save_error(status: &Status<SaveError>) -> (r: Option<String>)
    ensures
        opt_str_view(r) == spec_save_error(*status),
{
    if get_is_save_conflict(status) {
        get_conflict_error(true)
    } else {
        match status {
            Status::Error { error, .. } => Some(error.user_error()),
            _ => None,
        }
    }
}

pub open spec fn no_longer_accessible() -> Seq<char> {
    "This file is no longer accessible. Probably it was deleted or you no longer have access to it."@
}

pub open spec fn spec_load_error(status: Status<LoadFilesError>) -> Option<Seq<char>> {
    match status {
        Status::Error { error, .. } => match error {
            LoadFilesError::RemoteError(e) => if e.spec_is_api_error_code(ApiErrorCode::NotFound) {
                Some(no_longer_accessible())
            } else {
                Some(error.spec_user_error())
            },
            _ => Some(error.spec_user_error()),
        },
        _ => None,
    }
}

pub fn get_load_error(status: &Status<LoadFilesError>) -> (r: Option<String>)
    ensures
        opt_str_view(r) == spec_load_error(*status),
{
    match status {
        Status::Error { error, .. } => match error {
            LoadFilesError::RemoteError(e) => if e.is_api_error_code(ApiErrorCode::NotFound) {
                Some(
                    copy_str(
                        "This file is no longer accessible. Probably it was deleted or you no longer have access to it.",
                    ),
                )
            } else {
                Some(error.user_error())
            },
            _ => Some(error.user_error()),
        },
        _ => None,
    }
}

pub open spec fn spec_content_error(status: Status<TransferError>) -> Option<Seq<char>> {
    match status {
        Status::Error { error, .. } => match error {
            TransferError::RemoteError(e) => if e.spec_is_api_error_code(ApiErrorCode::NotFound) {
                Some(no_longer_accessible())
            } else {
                Some(error.spec_user_error())
            },
            _ => Some(error.spec_user_error()),
        },
        _ => None,
    }
}

pub fn get_content_error(status: &Status<TransferError>) -> (r: Option<String>)
    ensures
        opt_str_view(r) == spec_content_error(*status),
{
    match status {
        Status::Error { error, .. } => match error {
            TransferError::RemoteError(e) => if e.is_api_error_code(ApiErrorCode::NotFound) {
                Some(
                    copy_str(
                        "This file is no longer accessible. Probably it was deleted or you no longer have access to it.",
                    ),
                )
            } else {
                Some(error.user_error())
            },
            _ => Some(error.user_error()),
        },
        _ => None,
    }
}

/// The id of the repository file that a details view shows.
pub open spec fn spec_file_id_of(state: State, details_id: u32) -> Option<Seq<char>> {
    match spec_location(state, details_id) {
        Some(l) => Some(spec_repo_file_id(l.repo_id@, l.path@)),
        None => None,
    }
}

pub open spec fn spec_file(state: State, details_id: u32) -> Option<RepoFile> {
    match spec_file_id_of(state, details_id) {
        Some(id) => if state.repo_files.files@.contains_key(id) {
            Some(state.repo_files.files@[id])
        } else {
            None
        },
        None => None,
    }
}

pub fn select_file_id(state: &State, details_id: u32) -> (r: Option<String>)
    ensures
        opt_str_view(r) == spec_file_id_of(*state, details_id),
{
    match select_details_location(state, details_id) {
        Some(loc) => Some(repo_files_selectors::get_file_id(loc.repo_id.as_str(), loc.path.as_str())),
        None => None,
    }
}

pub fn select_file<'a>(state: &'a State, details_id: u32) -> (r: Option<&'a RepoFile>)
    ensures
        match r {
            Some(f) => spec_file(*state, details_id) == Some(*f),
            None => spec_file(*state, details_id) is None,
        },
{
    match select_file_id(state, details_id) {
        Some(file_id) => repo_files_selectors::select_file(state, &file_id),
        None => None,
    }
}

/// The name shown for a repository file, when it is known.
pub open spec fn spec_repo_file_name(state: State, file: RepoFile) -> Option<Seq<char>> {
    if file.encrypted_path@ == crate::paths::root_path() {
        if state.repos.repos_by_id@.contains_key(file.repo_id@) {
            Some(state.repos.repos_by_id@[file.repo_id@].name@)
        } else {
            None
        }
    } else {
        match file.name {
            crate::repo_files::state::RepoFileName::Decrypted { name, .. } => Some(name@),
            _ => None,
        }
    }
}

/// The name a details view shows: that of the file when it is listed, else
/// the name decrypted from its location.
pub open spec fn spec_file_name(state: State, details_id: u32) -> Option<Seq<char>> {
    match spec_file(state, details_id) {
        Some(f) => match spec_repo_file_name(state, f) {
            Some(n) => Some(n),
            None => spec_location_name(state, details_id),
        },
        None => spec_location_name(state, details_id),
    }
}

pub open spec fn spec_location_name(state: State, details_id: u32) -> Option<Seq<char>> {
    match spec_location(state, details_id) {
        Some(l) => match l.decrypted_name {
            Some(Ok(n)) => Some(n@),
            _ => None,
        },
        None => None,
    }
}

fn location_name(state: &State, details_id: u32) -> (r: Option<String>)
    ensures
        opt_str_view(r) == spec_location_name(*state, details_id),
{
    match select_details_location(state, details_id) {
        Some(loc) => match &loc.decrypted_name {
            Some(Ok(n)) => Some(copy_str(n.as_str())),
            _ => None,
        },
        None => None,
    }
}

pub fn select_file_name(state: &State, details_id: u32) -> (r: Option<String>)
    ensures
        opt_str_view(r) == spec_file_name(*state, details_id),
{
    match select_file(state, details_id) {
        Some(file) => match repo_files_selectors::select_file_name(state, file) {
            Ok(name) => Some(copy_str(name.as_str())),
            Err(_) => location_name(state, details_id),
        },
        None => location_name(state, details_id),
    }
}

/// The remote file that stores the file a details view shows.
pub open spec fn spec_remote_file(state: State, details_id: u32) -> Option<RemoteFile> {
    match spec_file(state, details_id) {
        Some(file) => {
            let id = spec_file_id(file.mount_id@, lowercase(file.remote_path@));
            if state.remote_files.files@.contains_key(id) {
                Some(state.remote_files.files@[id])
            } else {
                None
            }
        },
        None => None,
    }
}

pub fn select_remote_file<'a>(state: &'a State, details_id: u32) -> (r: Option<&'a RemoteFile>)
    ensures
        match r {
            Some(f) => spec_remote_file(*state, details_id) == Some(*f),
            None => spec_remote_file(*state, details_id) is None,
        },
{
    match select_file(state, details_id) {
        Some(file) => repo_files_selectors::select_remote_file(state, file),
        None => None,
    }
}

pub fn select_is_editing(state: &State, details_id: u32) -> (r: bool)
    ensures
        r == (spec_location(*state, details_id) matches Some(l) && l.is_editing),
{
    match select_details_location(state, details_id) {
        Some(loc) => loc.is_editing,
        None => false,
    }
}

pub fn select_is_dirty(state: &State, details_id: u32) -> (r: bool)
    ensures
        r == (spec_location(*state, details_id) matches Some(l) && l.is_dirty),
{
    match select_details_location(state, details_id) {
        Some(loc) => loc.is_dirty,
        None => false,
    }
}

pub fn select_is_content_loading(state: &State, details_id: u32) -> (r: bool)
    ensures
        r == (spec_location(*state, details_id) matches Some(l) && l.content.status is Loading),
{
    match select_details_location(state, details_id) {
        Some(loc) => loc.content.status.is_loading(),
        None => false,
    }
}

pub fn select_is_content_loaded_error(state: &State, details_id: u32) -> (r: bool)
    ensures
        r == (spec_location(*state, details_id) matches Some(l) && l.content.status is Error),
{
    match select_details_location(state, details_id) {
        Some(loc) => loc.content.status.is_error(),
        None => false,
    }
}

pub fn select_is_saving(state: &State, details_id: u32) -> (r: bool)
    ensures
        r == (spec_location(*state, details_id) matches Some(l) && l.save_status is Loading),
{
    match select_details_location(state, details_id) {
        Some(loc) => loc.save_status.is_loading(),
        None => false,
    }
}

/// The loaded bytes of a details view and their version; no bytes and
/// version 0 for a view without a location.
pub fn select_content_bytes_version<'a>(state: &'a State, details_id: u32) -> (r: (Option<&'a [u8]>, u32))
    ensures
        match spec_location(*state, details_id) {
            Some(l) => r.1 == l.content.version && match l.content.data {
                Some(d) => r.0 matches Some(b) && b@ == d.bytes@,
                None => r.0 is None,
            },
            None => r.0 is None && r.1 == 0,
        },
{
    match select_details_location(state, details_id) {
        Some(location) => (
            match &location.content.data {
                Some(data) => Some(data.bytes.as_slice()),
                None => None,
            },
            location.content.version,
        ),
        None => (None, 0),
    }
}

pub fn select_content<'a>(state: &'a State, details_id: u32) -> (r: Option<&'a RepoFilesDetailsContent>)
    ensures
        match r {
            Some(c) => spec_location(*state, details_id) matches Some(l) && l.content == *c,
            None => spec_location(*state, details_id) is None,
        },
{
    match select_details_location(state, details_id) {
        Some(location) => Some(&location.content),
        None => None,
    }
}

pub open spec fn spec_content_data(state: State, details_id: u32) -> Option<RepoFilesDetailsContentData> {
    match spec_location(state, details_id) {
        Some(l) => l.content.data,
        None => None,
    }
}

pub open spec fn spec_content_loading(state: State, details_id: u32) -> Option<RepoFilesDetailsContentLoading> {
    match spec_location(state, details_id) {
        Some(l) => l.content.loading,
        None => None,
    }
}

pub fn select_content_data<'a>(state: &'a State, details_id: u32) -> (r: Option<&'a RepoFilesDetailsContentData>)
    ensures
        match r {
            Some(d) => spec_content_data(*state, details_id) == Some(*d),
            None => spec_content_data(*state, details_id) is None,
        },
{
    match select_content(state, details_id) {
        Some(content) => content.data.as_ref(),
        None => None,
    }
}

pub fn select_content_loading<'a>(state: &'a State, details_id: u32) -> (r: Option<
    &'a RepoFilesDetailsContentLoading,
>)
    ensures
        match r {
            Some(d) => spec_content_loading(*state, details_id) == Some(*d),
            None => spec_content_loading(*state, details_id) is None,
        },
{
    match select_content(state, details_id) {
        Some(content) => content.loading.as_ref(),
        None => None,
    }
}

/// The content is stale when the remote file exists and neither the loaded
/// content nor the content being loaded is of its current version.
pub open spec fn spec_is_content_stale(state: State, details_id: u32) -> bool {
    match spec_remote_file(state, details_id) {
        Some(f) => match (spec_content_data(state, details_id), spec_content_loading(state, details_id)) {
            (Some(d), Some(l)) => !spec_data_matches(d, f) || !spec_loading_matches(l, f),
            (Some(d), None) => !spec_data_matches(d, f),
            (None, Some(l)) => !spec_loading_matches(l, f),
            (None, None) => true,
        },
        None => false,
    }
}

pub fn select_is_content_stale(state: &State, details_id: u32) -> (r: bool)
    ensures
        r == spec_is_content_stale(*state, details_id),
{
    let remote_file = select_remote_file(state, details_id);
    let content_data = select_content_data(state, details_id);
    let content_loading = select_content_loading(state, details_id);
    match remote_file {
        Some(remote_file) => match (content_data, content_loading) {
            (Some(data), Some(loading)) => !content_data_matches_remote_file(data, remote_file)
                || !content_loading_matches_remote_file(loading, remote_file),
            (Some(data), None) => !content_data_matches_remote_file(data, remote_file),
            (None, Some(loading)) => !content_loading_matches_remote_file(loading, remote_file),
            (None, None) => true,
        },
        None => false,
    }
}

pub fn select_is_not_deleting_or_deleted(state: &State, details_id: u32) -> (r: bool)
    ensures
        r == (spec_location(*state, details_id) matches Some(l) && !(l.delete_status is Loading)
            && !(l.delete_status is Loaded)),
{
    match select_details_location(state, details_id) {
        Some(loc) => !loc.delete_status.is_loading() && !loc.delete_status.is_loaded(),
        None => false,
    }
}

/// Whether the mutation removed the file that a details view shows.
pub open spec fn spec_was_removed(state: State, mutation_state: MutationState, details_id: u32) -> bool {
    spec_location(state, details_id) matches Some(l) && exists|i: int|
        0 <= i < mutation_state.repo_files.removed_files@.len()
            && #[trigger] mutation_state.repo_files.removed_files@[i].0@ == l.repo_id@
            && mutation_state.repo_files.removed_files@[i].1@ == l.path@
}

pub fn select_was_removed(state: &State, mutation_state: &MutationState, details_id: u32) -> (r: bool)
    ensures
        r == spec_was_removed(*state, *mutation_state, details_id),
{
    let loc = match select_details_location(state, details_id) {
        Some(loc) => loc,
        None => {
            return false;
        },
    };
    let removed = &mutation_state.repo_files.removed_files;
    let n = removed.len();
    let mut i: usize = 0;
    while i < n
        invariant
            n == removed@.len(),
            i <= n,
            spec_location(*state, details_id) == Some(*loc),
            removed@ == mutation_state.repo_files.removed_files@,
            forall|j: int|
                0 <= j < i ==> !(#[trigger] removed@[j].0@ == loc.repo_id@ && removed@[j].1@ == loc.path@),
        decreases n - i,
    {
        if str_eq(removed[i].0.as_str(), loc.repo_id.as_str()) && str_eq(removed[i].1.as_str(), loc.path.as_str()) {
            assert(removed@[i as int].0@ == loc.repo_id@);
            return true;
        }
        i = i + 1;
    }
    false
}

pub open spec fn spec_should_reload_content(state: State, mutation_state: MutationState, details_id: u32) -> bool {
    &&& spec_details(state, details_id) matches Some(d) && d.status.spec_loaded()
    &&& spec_is_content_stale(state, details_id)
    &&& spec_location(state, details_id) matches Some(l) && !l.is_dirty && !(l.save_status is Loading) && !(
    l.content.status is Loading) && !(l.content.status is Error)
    &&& !spec_was_removed(state, mutation_state, details_id)
}

/// Whether the content has to be loaded again: the view loaded, its content
/// is stale, and nothing (editing, saving, loading, an error, a removal)
/// stands in the way.
pub fn select_should_reload_content(state: &State, mutation_state: &MutationState, details_id: u32) -> (r: bool)
    ensures
        r == spec_should_reload_content(*state, *mutation_state, details_id),
{
    select_is_status_any_loaded(state, details_id) && select_is_content_stale(state, details_id)
        && !select_is_dirty(state, details_id) && !select_is_saving(state, details_id)
        && !select_is_content_loading(state, details_id) && !select_is_content_loaded_error(state, details_id)
        && !select_was_removed(state, mutation_state, details_id)
}

/// `Some` once waiting for the view to load can stop: it loaded, failed, or
/// is gone.
pub fn select_should_wait_for_loaded(state: &State, details_id: u32) -> (r: Option<()>)
    ensures
        r is Some <==> match spec_details(*state, details_id) {
            Some(d) => d.status is Loaded || d.status is Error,
            None => true,
        },
{
    match select_details(state, details_id) {
        Some(details) => match &details.status {
            Status::Initial | Status::Loading { .. } => None,
            Status::Loaded | Status::Error { .. } => Some(()),
        },
        None => Some(()),
    }
}

/// The file of a details view to read, once the view has loaded or failed
/// (or is not known): the file, or that it is not known.
pub fn select_file_reader_file(state: &State, details_id: u32) -> (r: Option<Result<RepoFile, GetFilesReaderError>>)
    ensures
        match spec_details(*state, details_id) {
            Some(d) => !(d.status is Loaded || d.status is Error) ==> r is None,
            None => true,
        },
        (match spec_details(*state, details_id) {
            Some(d) => d.status is Loaded || d.status is Error,
            None => true,
        }) ==> match spec_file(*state, details_id) {
            Some(f) => r matches Some(Ok(g)) && same_file(g, f),
            None => r == Some(Err::<RepoFile, GetFilesReaderError>(GetFilesReaderError::FileNotFound)),
        },
{
    match select_should_wait_for_loaded(state, details_id) {
        Some(()) => Some(
            match select_file(state, details_id) {
                Some(f) => Ok(f.copy()),
                None => Err(GetFilesReaderError::FileNotFound),
            },
        ),
        None => None,
    }
}

/// The remote file at the location of a details view, when it is known.
pub open spec fn spec_location_remote_file(state: State, loc: RepoFilesDetailsLocation) -> Option<RemoteFile> {
    if state.repos.repos_by_id@.contains_key(loc.repo_id@) {
        let repo = state.repos.repos_by_id@[loc.repo_id@];
        let id = spec_file_id(repo.mount_id@, lowercase(spec_join_paths(repo.path@, loc.path@)));
        if state.remote_files.files@.contains_key(id) {
            Some(state.remote_files.files@[id])
        } else {
            None
        }
    } else {
        None
    }
}

/// The name, extension and category that a details view shows: the listed
/// file's, else those of the name decrypted from the location.
pub open spec fn spec_info_name(state: State, details_id: u32) -> (Option<Seq<char>>, Option<Seq<char>>, Option<
    FileCategory,
>) {
    match spec_file(state, details_id) {
        Some(f) => (spec_repo_file_name(state, f), opt_str_view(f.ext), Some(f.category)),
        None => match spec_location_name(state, details_id) {
            Some(n) => {
                let ext = spec_name_to_ext(lowercase(n));
                (Some(n), ext, Some(spec_ext_category(state.file_types, ext)))
            },
            None => (None, None, None),
        },
    }
}

pub open spec fn first_some(a: Option<Seq<char>>, b: Option<Seq<char>>) -> Option<Seq<char>> {
    match a {
        Some(x) => Some(x),
        None => b,
    }
}

/// What `select_info` returns for an existing details view.
pub open spec fn spec_info_ok(state: State, details_id: u32, info: RepoFilesDetailsInfo) -> bool {
    let d = state.repo_files_details.details@[details_id];
    let remote_file = match d.location {
        Some(l) => spec_location_remote_file(state, l),
        None => None,
    };
    let names = spec_info_name(state, details_id);
    let file_exists = remote_file is Some;
    let content_status = match d.location {
        Some(l) => l.content.status,
        None => Status::Initial,
    };
    let save_status = match d.location {
        Some(l) => l.save_status,
        None => Status::Initial,
    };
    let is_dirty = d.location matches Some(l) && l.is_dirty;
    let is_editing = d.location matches Some(l) && l.is_editing;
    let content_data = match d.location {
        Some(l) => l.content.data,
        None => None,
    };
    let is_conflict = spec_is_conflict(is_dirty, content_data, remote_file, save_status);
    &&& match d.location {
        Some(l) => {
            &&& info.repo_id == Some(&l.repo_id)
            &&& info.path == Some(&l.path)
            &&& opt_str_view(info.parent_path) == spec_parent_path(l.path@)
            &&& info.transfer_id == l.content.transfer_id
            &&& info.should_destroy == l.should_destroy
        },
        None => {
            &&& info.repo_id is None
            &&& info.path is None
            &&& info.parent_path is None
            &&& info.transfer_id is None
            &&& !info.should_destroy
        },
    }
    &&& opt_str_view(info.file_name) == names.0
    &&& opt_str_view(info.file_ext) == names.1
    &&& info.file_category == names.2
    &&& info.file_modified == match remote_file {
        Some(f) => f.modified,
        None => None,
    }
    &&& info.file_exists == file_exists
    &&& status_ok(info.status, d.status, file_exists, d.repo_status, d.is_locked)
    &&& info.content_status == content_status
    &&& info.save_status == save_status
    &&& opt_str_view(info.error) == first_some(
        spec_save_error(save_status),
        first_some(
            spec_load_error(info.status),
            first_some(spec_content_error(content_status), spec_conflict_error(is_conflict)),
        ),
    )
    &&& info.is_editing == is_editing
    &&& info.is_dirty == is_dirty
    &&& info.can_save == (is_editing && is_dirty && !(save_status is Loading))
    &&& info.can_download && info.can_copy && info.can_move && info.can_delete
    &&& info.repo_status == d.repo_status
    &&& info.is_locked == d.is_locked
}

/// Everything a details view shows, or `None` for an unknown view.
pub fn select_info<'a>(state: &'a State, details_id: u32) -> (r: Option<RepoFilesDetailsInfo<'a>>)
    ensures
        r is Some <==> state.repo_files_details.details@.contains_key(details_id),
        r matches Some(info) ==> spec_info_ok(*state, details_id, info),
{
    let details = match select_details(state, details_id) {
        Some(details) => details,
        None => {
            return None;
        },
    };
    let location = details.location.as_ref();
    let (repo_id, path, parent, remote_file, transfer_id, should_destroy) = match location {
        Some(loc) => (
            Some(&loc.repo_id),
            Some(&loc.path),
            parent_path(loc.path.as_str()),
            repo_files_selectors::select_repo_path_to_remote_file(state, &loc.repo_id, loc.path.as_str()),
            loc.content.transfer_id,
            loc.should_destroy,
        ),
        None => (None, None, None, None, None, false),
    };
    let (file_name, file_ext, file_category) = match select_file(state, details_id) {
        Some(file) => (
            match repo_files_selectors::select_file_name(state, file) {
                Ok(n) => Some(copy_str(n.as_str())),
                Err(_) => None,
            },
            match &file.ext {
                Some(e) => Some(copy_str(e.as_str())),
                None => None,
            },
            Some(file.category),
        ),
        None => match location_name(state, details_id) {
            Some(name) => {
                let lower = to_lowercase(name.as_str());
                let (ext, _, category) = get_file_ext_content_type_category(lower.as_str(), &state.file_types);
                (Some(name), ext, Some(category))
            },
            None => (None, None, None),
        },
    };
    let file_modified = match remote_file {
        Some(f) => f.modified,
        None => None,
    };
    let file_exists = remote_file.is_some();
    let repo_status = clone_repo_status(&details.repo_status);
    let is_locked = details.is_locked;
    let status = get_status(&details.status, file_exists, &details.repo_status, is_locked);
    let content_status = match location {
        Some(loc) => clone_transfer_status(&loc.content.status),
        None => Status::Initial,
    };
    let save_status = match location {
        Some(loc) => clone_save_status(&loc.save_status),
        None => Status::Initial,
    };
    let content_data = match location {
        Some(loc) => loc.content.data.as_ref(),
        None => None,
    };
    let is_dirty = match location {
        Some(loc) => loc.is_dirty,
        None => false,
    };
    let is_editing = match location {
        Some(loc) => loc.is_editing,
        None => false,
    };
    let is_conflict = get_is_conflict(is_dirty, content_data, remote_file, &save_status);
    let error = match get_save_error(&save_status) {
        Some(e) => Some(e),
        None => match get_load_error(&status) {
            Some(e) => Some(e),
            None => match get_content_error(&content_status) {
                Some(e) => Some(e),
                None => get_conflict_error(is_conflict),
            },
        },
    };
    let can_save = is_editing && is_dirty && !save_status.is_loading();
    Some(
        RepoFilesDetailsInfo {
            repo_id,
            parent_path: parent,
            path,
            status,
            file_name,
            file_ext,
            file_category,
            file_modified,
            file_exists,
            content_status,
            transfer_id,
            save_status,
            error,
            is_editing,
            is_dirty,
            should_destroy,
            can_save,
            can_download: true,
            can_copy: true,
            can_move: true,
            can_delete: true,
            repo_status,
            is_locked,
        },
    )
}

/// The repository of the file that the details view `k` shows.
pub open spec fn details_repo(state: State, k: u32) -> Option<Seq<char>> {
    if state.repo_files_details.details@.contains_key(k) {
        match state.repo_files_details.details@[k].location {
            Some(l) => Some(l.repo_id@),
            None => None,
        }
    } else {
        None
    }
}

/// Whether `repo` is among the first `upto` ids of `ids`.
pub open spec fn repo_in(ids: Seq<String>, upto: int, repo: Seq<char>) -> bool {
    exists|a: int| 0 <= a < upto && #[trigger] ids[a]@ == repo
}

/// The details views of the repositories that the mutation unlocked.
pub fn select_unlocked_details(state: &State, mutation_state: &MutationState) -> (r: Vec<u32>)
    ensures
        forall|k: u32| #[trigger] r@.contains(k) <==> (details_repo(*state, k) is Some && repo_in(
            mutation_state.repos.unlocked_repos@,
            mutation_state.repos.unlocked_repos@.len() as int,
            details_repo(*state, k).unwrap(),
        )),
{
    let unlocked = &mutation_state.repos.unlocked_repos;
    let keys = state.repo_files_details.details.keys();
    let mut r: Vec<u32> = Vec::new();
    let m = unlocked.len();
    let n = keys.len();
    let mut u: usize = 0;
    proof {
        assert forall|k: u32| state.repo_files_details.details@.contains_key(k) implies exists|a: int|
            0 <= a < n && keys@[a] == k by {
            let a = choose|a: int| 0 <= a < keys.len() && keys@[a]@ == k;
            assert(keys@[a] == k);
        }
    }
    while u < m
        invariant
            m == unlocked@.len(),
            n == keys@.len(),
            u <= m,
            unlocked == &mutation_state.repos.unlocked_repos,
            forall|k: u32| state.repo_files_details.details@.contains_key(k) ==> exists|a: int|
                0 <= a < n && keys@[a] == k,
            forall|k: u32| #[trigger] r@.contains(k) <==> (details_repo(*state, k) is Some && repo_in(
                unlocked@,
                u as int,
                details_repo(*state, k).unwrap(),
            )),
        decreases m - u,
    {
        let mut i: usize = 0;
        let ghost r0 = r@;
        while i < n
            invariant
                m == unlocked@.len(),
                n == keys@.len(),
                u < m,
                i <= n,
                forall|k: u32| #[trigger] r@.contains(k) <==> (r0.contains(k) || exists|a: int|
                    0 <= a < i && keys@[a] == k && details_repo(*state, k) == Some(unlocked@[u as int]@)),
            decreases n - i,
        {
            let k = keys[i];
            let matched = match state.repo_files_details.details.get(&k) {
                Some(d) => match &d.location {
                    Some(l) => str_eq(l.repo_id.as_str(), unlocked[u].as_str()),
                    None => false,
                },
                None => false,
            };
            assert(matched == (details_repo(*state, k) == Some(unlocked@[u as int]@)));
            let ghost r_prev = r@;
            if matched {
                r.push(k);
            }
            proof {
                assert forall|k2: u32| #[trigger] r@.contains(k2) <==> (r0.contains(k2) || exists|a: int|
                    0 <= a < i + 1 && keys@[a] == k2 && details_repo(*state, k2) == Some(unlocked@[u as int]@)) by {
                    if matched {
                        assert(r@ == r_prev.push(k));
                        if r@.contains(k2) && !r_prev.contains(k2) {
                            let j = choose|j: int| 0 <= j < r@.len() && r@[j] == k2;
                            assert(j == r_prev.len());
                            assert(keys@[i as int] == k2);
                        }
                        if r_prev.contains(k2) {
                            let j = choose|j: int| 0 <= j < r_prev.len() && r_prev[j] == k2;
                            assert(r@[j] == k2);
                        }
                        if k2 == k {
                            assert(r@[r_prev.len() as int] == k2);
                        }
                    }
                    if (exists|a: int|
                        0 <= a < i + 1 && keys@[a] == k2 && details_repo(*state, k2) == Some(unlocked@[u as int]@))
                        && !(exists|a: int|
                        0 <= a < i && keys@[a] == k2 && details_repo(*state, k2) == Some(unlocked@[u as int]@)) {
                        assert(keys@[i as int] == k2);
                        assert(matched);
                        assert(r@[r_prev.len() as int] == k2);
                    }
                }
            }
            i = i + 1;
        }
        proof {
            assert forall|k: u32| #[trigger] r@.contains(k) <==> (details_repo(*state, k) is Some && repo_in(
                unlocked@,
                u + 1,
                details_repo(*state, k).unwrap(),
            )) by {
                if details_repo(*state, k) == Some(unlocked@[u as int]@) {
                    let a = choose|a: int| 0 <= a < n && keys@[a] == k;
                    assert(keys@[a] == k);
                }
                if details_repo(*state, k) is Some && repo_in(unlocked@, u + 1, details_repo(*state, k).unwrap())
                    && !repo_in(unlocked@, u as int, details_repo(*state, k).unwrap()) {
                    let a = choose|a: int| 0 <= a < u + 1 && #[trigger] unlocked@[a]@ == details_repo(*state, k).unwrap();
                    assert(a == u);
                }
                if details_repo(*state, k) == Some(unlocked@[u as int]@) {
                    assert(repo_in(unlocked@, u + 1, details_repo(*state, k).unwrap()));
                }
            }
        }
        u = u + 1;
    }
    r
}

} // verus!
