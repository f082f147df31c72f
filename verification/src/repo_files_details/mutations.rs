//! Changes to the details views: opening and closing them, following the
//! load of their file, loading, editing, saving and deleting its content.
use vstd::prelude::*;

use crate::cipher::DecryptFilenameError;
use crate::common::{announced_only, Event, Notify, Status};
use crate::paths::{path_to_name, spec_path_to_name};
use crate::repo_files::errors::{DeleteFileError, LoadFilesError, RepoFilesErrors};
use crate::repo_files::selectors::{get_file_id, spec_repo_file_id};
use crate::repo_files::state::{same_file, RepoFile, RepoFilesUploadResult};
use crate::remote::RemoteError;
use crate::repos::{RepoInfoError, RepoState};
use crate::store::{MutationState, State};
use crate::strings::{copy_bytes, copy_str, str_eq};
use crate::transfers::TransferError;
use crate::repo_files_read::errors::GetFilesReaderError;
use crate::remote_files::selectors::spec_file_id;
use crate::strings::lowercase;
use crate::keymap::KeyMap;

use super::errors::{LoadContentError, SaveError};
use super::selectors::{
    get_is_conflict, opt_str_view, select_content, select_details, select_details_location, select_file,
    select_is_dirty, select_remote_file, spec_details, spec_file, spec_is_conflict, spec_location,
    spec_remote_file,
};
use super::state::{
    clone_load_status, clone_repo_status, RepoFilesDetails, RepoFilesDetailsContent, RepoFilesDetailsContentData,
    RepoFilesDetailsContentLoading, RepoFilesDetailsLocation, RepoFilesDetailsOptions, SaveInitiator,
};

verus! {

/// Only the details views changed, and of them only the one with `id`
/// (added, changed or removed).
pub open spec fn only_details_changed(a: State, b: State, id: u32) -> bool {
    &&& b.remote_files == a.remote_files
    &&& b.remote_files_browsers == a.remote_files_browsers
    &&& b.dir_pickers == a.dir_pickers
    &&& b.repos == a.repos
    &&& b.repo_files == a.repo_files
    &&& b.repo_creates == a.repo_creates
    &&& b.repo_config_backups == a.repo_config_backups
    &&& b.file_types == a.file_types
    &&& b.repo_files_move == a.repo_files_move
    &&& b.repo_files_browsers == a.repo_files_browsers
    &&& b.repo_files_details.next_id == a.repo_files_details.next_id
    &&& forall|k: u32| k != id ==> #[trigger] b.repo_files_details.details@.contains_key(k)
        == a.repo_files_details.details@.contains_key(k) && (a.repo_files_details.details@.contains_key(k)
        ==> b.repo_files_details.details@[k] == a.repo_files_details.details@[k])
}

/// The details view `id` after `f` changed it; everything else unchanged.
pub open spec fn details_replaced(a: State, b: State, id: u32, d: RepoFilesDetails) -> bool {
    &&& only_details_changed(a, b, id)
    &&& b.repo_files_details.details@.contains_key(id)
    &&& b.repo_files_details.details@[id] == d
}

/// A fresh location for the file at `path` of a repository; the path must
/// name a file (not the root).
pub fn create_location(
    repo_id: String,
    path: &str,
    is_editing: bool,
    decrypted_name: Option<Result<String, DecryptFilenameError>>,
) -> (r: Result<RepoFilesDetailsLocation, LoadFilesError>)
    ensures
        r is Err <==> spec_path_to_name(path@) is None,
        r matches Err(e) ==> e matches LoadFilesError::RemoteError(re) && re.spec_is_api_error_code(
            crate::remote::ApiErrorCode::InvalidPath,
        ),
        r matches Ok(l) ==> {
            &&& l.repo_id == repo_id
            &&& l.path@ == path@
            &&& spec_path_to_name(path@) == Some(l.name@)
            &&& l.decrypted_name == decrypted_name
            &&& l.content.status is Initial
            &&& l.content.data is None
            &&& l.content.loading is None
            &&& l.content.version == 0
            &&& l.content.transfer_id is None
            &&& l.is_editing == is_editing
            &&& !l.is_dirty
            &&& l.save_status is Initial
            &&& l.delete_status is Initial
            &&& !l.should_destroy
        },
{
    let name = match path_to_name(path) {
        Some(name) => name,
        None => {
            return Err(LoadFilesError::RemoteError(RepoFilesErrors::invalid_path()));
        },
    };
    Ok(
        RepoFilesDetailsLocation {
            repo_id,
            path: copy_str(path),
            name,
            decrypted_name,
            content: RepoFilesDetailsContent {
                status: Status::Initial,
                data: None,
                loading: None,
                version: 0,
                transfer_id: None,
            },
            is_editing,
            is_dirty: false,
            save_status: Status::Initial,
            delete_status: Status::Initial,
            should_destroy: false,
        },
    )
}

/// Two errors of the service that read the same.
pub open spec fn same_remote_error(a: RemoteError, b: RemoteError) -> bool {
    match (a, b) {
        (RemoteError::ApiError { code: c1, message: m1 }, RemoteError::ApiError { code: c2, message: m2 }) => c1
            == c2 && m1@ == m2@,
        (RemoteError::HttpError { message: m1 }, RemoteError::HttpError { message: m2 }) => m1@ == m2@,
        _ => false,
    }
}

/// Two repository statuses that read the same.
pub open spec fn same_repo_status(a: Status<RepoInfoError>, b: Status<RepoInfoError>) -> bool {
    match (a, b) {
        (Status::Initial, Status::Initial) => true,
        (Status::Loading { loaded: x }, Status::Loading { loaded: y }) => x == y,
        (Status::Loaded, Status::Loaded) => true,
        (Status::Error { error: e1, loaded: x }, Status::Error { error: e2, loaded: y }) => x == y && match (e1, e2) {
            (RepoInfoError::RepoNotFound(_), RepoInfoError::RepoNotFound(_)) => true,
            (RepoInfoError::RemoteError(r1), RepoInfoError::RemoteError(r2)) => same_remote_error(r1, r2),
            _ => false,
        },
        _ => false,
    }
}

fn repo_status_eq(a: &Status<RepoInfoError>, b: &Status<RepoInfoError>) -> (r: bool)
    ensures
        r == same_repo_status(*a, *b),
{
    match (a, b) {
        (Status::Initial, Status::Initial) => true,
        (Status::Loading { loaded: x }, Status::Loading { loaded: y }) => *x == *y,
        (Status::Loaded, Status::Loaded) => true,
        (Status::Error { error: e1, loaded: x }, Status::Error { error: e2, loaded: y }) => *x == *y && match (
            e1,
            e2,
        ) {
            (RepoInfoError::RepoNotFound(_), RepoInfoError::RepoNotFound(_)) => true,
            (RepoInfoError::RemoteError(r1), RepoInfoError::RemoteError(r2)) => remote_error_eq(r1, r2),
            _ => false,
        },
        _ => false,
    }
}

fn remote_error_eq(a: &RemoteError, b: &RemoteError) -> (r: bool)
    ensures
        r == same_remote_error(*a, *b),
{
    match (a, b) {
        (RemoteError::ApiError { code: c1, message: m1 }, RemoteError::ApiError { code: c2, message: m2 }) => *c1
            == *c2 && str_eq(m1.as_str(), m2.as_str()),
        (RemoteError::HttpError { message: m1 }, RemoteError::HttpError { message: m2 }) => str_eq(
            m1.as_str(),
            m2.as_str(),
        ),
        _ => false,
    }
}

/// Whether the repository of a location is locked.
pub open spec fn spec_is_locked(state: State, loc: Option<RepoFilesDetailsLocation>) -> bool {
    loc matches Some(l) && state.repos.repos_by_id@.contains_key(l.repo_id@)
        && state.repos.repos_by_id@[l.repo_id@].state == RepoState::Locked
}

/// The decrypted name of a location after an update: set when the
/// repository's cipher became available, dropped when it went away.
pub open spec fn spec_next_decrypted_name(
    current: Option<Result<String, DecryptFilenameError>>,
    decrypted: Option<Result<String, DecryptFilenameError>>,
) -> Option<Result<String, DecryptFilenameError>> {
    if current is None && decrypted is Some {
        decrypted
    } else if current is Some && decrypted is None {
        None
    } else {
        current
    }
}

/// A details view after `update_details`.
pub open spec fn spec_updated(
    state: State,
    d: RepoFilesDetails,
    decrypted: Option<Result<String, DecryptFilenameError>>,
    repo_status: Status<RepoInfoError>,
) -> RepoFilesDetails {
    let rs = if d.location is Some {
        repo_status
    } else {
        Status::Initial
    };
    RepoFilesDetails {
        location: match d.location {
            Some(l) => Some(
                RepoFilesDetailsLocation {
                    decrypted_name: spec_next_decrypted_name(l.decrypted_name, decrypted),
                    ..l
                },
            ),
            None => None,
        },
        repo_status: if same_repo_status(d.repo_status, rs) {
            d.repo_status
        } else {
            rs
        },
        is_locked: spec_is_locked(state, d.location),
        ..d
    }
}

/// Whether `update_details` changed anything that views show.
pub open spec fn spec_update_changes(
    state: State,
    d: RepoFilesDetails,
    decrypted: Option<Result<String, DecryptFilenameError>>,
    repo_status: Status<RepoInfoError>,
) -> bool {
    let rs = if d.location is Some {
        repo_status
    } else {
        Status::Initial
    };
    ||| (d.location matches Some(l) && ((l.decrypted_name is None && decrypted is Some) || (
    l.decrypted_name is Some && decrypted is None)))
    ||| !same_repo_status(d.repo_status, rs)
    ||| d.is_locked != spec_is_locked(state, d.location)
}

fn is_locked_of(state: &State, loc: Option<&RepoFilesDetailsLocation>) -> (r: bool)
    ensures
        r == spec_is_locked(
            *state,
            match loc {
                Some(l) => Some(*l),
                None => None,
            },
        ),
{
    match loc {
        Some(l) => match state.repos.repos_by_id.get(&l.repo_id) {
            Some(repo) => repo.state.is_locked(),
            None => false,
        },
        None => false,
    }
}

/// Brings a details view up to date with its repository: its status, whether
/// it is locked, and the name decrypted by the repository's cipher
/// (`decrypted` is that decryption when the repository has a cipher).
pub fn update_details(
    state: &mut State,
    notify: &mut Notify,
    details_id: u32,
    decrypted: Option<Result<String, DecryptFilenameError>>,
    repo_status: Status<RepoInfoError>,
)
    ensures
        !old(state).repo_files_details.details@.contains_key(details_id) ==> *final(state) == *old(state)
            && final(notify).events@ == old(notify).events@,
        old(state).repo_files_details.details@.contains_key(details_id) ==> {
            let od = old(state).repo_files_details.details@[details_id];
            &&& details_replaced(
                *old(state),
                *final(state),
                details_id,
                spec_updated(*old(state), od, decrypted, repo_status),
            )
            &&& final(notify).events@ == if spec_update_changes(*old(state), od, decrypted, repo_status) {
                old(notify).events@.push(Event::RepoFilesDetails)
            } else {
                old(notify).events@
            }
        },
{
    if !state.repo_files_details.details.contains_key(&details_id) {
        return;
    }
    let mut details = state.repo_files_details.details.remove(&details_id).unwrap();
    let is_locked = is_locked_of(state, details.location.as_ref());
    let rs = if details.location.is_some() {
        repo_status
    } else {
        Status::Initial
    };
    let mut dirty = false;
    match &mut details.location {
        Some(location) => {
            let has_name = location.decrypted_name.is_some();
            if !has_name && decrypted.is_some() {
                location.decrypted_name = decrypted;
                dirty = true;
            } else if has_name && decrypted.is_none() {
                location.decrypted_name = None;
                dirty = true;
            }
        },
        None => {},
    }
    if !repo_status_eq(&details.repo_status, &rs) {
        details.repo_status = rs;
        dirty = true;
    }
    if details.is_locked != is_locked {
        details.is_locked = is_locked;
        dirty = true;
    }
    state.repo_files_details.details.insert(details_id, details);
    if dirty {
        notify.notify(Event::RepoFilesDetails);
    }
    proof {
        assert(state.repo_files_details.details@ =~= old(state).repo_files_details.details@.insert(
            details_id,
            spec_updated(*old(state), old(state).repo_files_details.details@[details_id], decrypted, repo_status),
        ));
    }
}

/// The details view `id` with its location replaced by `l`.
pub open spec fn location_replaced(a: State, b: State, id: u32, l: RepoFilesDetailsLocation) -> bool {
    details_replaced(a, b, id, RepoFilesDetails { location: Some(l), ..a.repo_files_details.details@[id] })
}

pub open spec fn unchanged(a: State, b: State, ea: Seq<Event>, eb: Seq<Event>) -> bool {
    b == a && eb == ea
}

/// Takes the details view `id` out of the state, when it has a location.
fn take_located(state: &mut State, details_id: u32) -> (r: Option<RepoFilesDetails>)
    ensures
        r is Some <==> spec_location(*old(state), details_id) is Some,
        r is None ==> *final(state) == *old(state),
        r matches Some(d) ==> {
            &&& d == old(state).repo_files_details.details@[details_id]
            &&& d.location is Some
            &&& only_details_changed(*old(state), *final(state), details_id)
            &&& !final(state).repo_files_details.details@.contains_key(details_id)
        },
{
    match select_details_location(state, details_id) {
        Some(_) => {},
        None => {
            return None;
        },
    }
    state.repo_files_details.details.remove(&details_id)
}

/// Marks a details view as loading its file, keeping whether it loaded before.
pub fn loading(state: &mut State, notify: &mut Notify, details_id: u32)
    ensures
        match spec_details(*old(state), details_id) {
            None => unchanged(*old(state), *final(state), old(notify).events@, final(notify).events@),
            Some(d) => if d.status == (Status::<LoadFilesError>::Loading { loaded: d.status.spec_loaded() }) {
                unchanged(*old(state), *final(state), old(notify).events@, final(notify).events@)
            } else {
                &&& details_replaced(
                    *old(state),
                    *final(state),
                    details_id,
                    RepoFilesDetails { status: Status::Loading { loaded: d.status.spec_loaded() }, ..d },
                )
                &&& final(notify).events@ == old(notify).events@.push(Event::RepoFilesDetails)
            },
        },
{
    match select_details(state, details_id) {
        Some(d) => if let Status::Loading { .. } = d.status {
            return;
        },
        None => {
            return;
        },
    }
    let mut details = state.repo_files_details.details.remove(&details_id).unwrap();
    notify.notify(Event::RepoFilesDetails);
    details.status = Status::Loading { loaded: details.status.loaded() };
    state.repo_files_details.details.insert(details_id, details);
}

/// Records the end of loading the file of a details view, when the view
/// still shows that file.
pub fn loaded(
    state: &mut State,
    notify: &mut Notify,
    details_id: u32,
    repo_id: &str,
    path: &str,
    error: Option<&LoadFilesError>,
)
    ensures
        match spec_details(*old(state), details_id) {
            Some(d) if (d.location matches Some(l) && l.repo_id@ == repo_id@ && l.path@ == path@) => {
                &&& details_replaced(
                    *old(state),
                    *final(state),
                    details_id,
                    RepoFilesDetails {
                        status: match error {
                            Some(e) => Status::Error { error: *e, loaded: d.status.spec_loaded() },
                            None => Status::Loaded,
                        },
                        ..d
                    },
                )
                &&& final(notify).events@ == old(notify).events@.push(Event::RepoFilesDetails)
            },
            _ => unchanged(*old(state), *final(state), old(notify).events@, final(notify).events@),
        },
{
    match select_details_location(state, details_id) {
        Some(loc) => if !(str_eq(loc.repo_id.as_str(), repo_id) && str_eq(loc.path.as_str(), path)) {
            return;
        },
        None => {
            return;
        },
    }
    let mut details = state.repo_files_details.details.remove(&details_id).unwrap();
    notify.notify(Event::RepoFilesDetails);
    details.status = match error {
        Some(e) => Status::Error { error: e.clone(), loaded: details.status.loaded() },
        None => Status::Loaded,
    };
    state.repo_files_details.details.insert(details_id, details);
}

/// Starts editing the file of a details view.
pub fn edit(state: &mut State, notify: &mut Notify, details_id: u32)
    ensures
        match spec_location(*old(state), details_id) {
            Some(l) => {
                &&& location_replaced(*old(state), *final(state), details_id, RepoFilesDetailsLocation { is_editing: true, ..l })
                &&& final(notify).events@ == old(notify).events@.push(Event::RepoFilesDetails)
            },
            None => unchanged(*old(state), *final(state), old(notify).events@, final(notify).events@),
        },
{
    let mut details = match take_located(state, details_id) {
        Some(d) => d,
        None => {
            return;
        },
    };
    notify.notify(Event::RepoFilesDetails);
    let mut location = details.location.unwrap();
    location.is_editing = true;
    details.location = Some(location);
    state.repo_files_details.details.insert(details_id, details);
}

/// Stops editing: edits are forgotten, and when they are discarded the
/// content is dropped so that it loads again.
pub fn edit_cancel(state: &mut State, notify: &mut Notify, details_id: u32, is_discarded: bool)
    ensures
        match spec_location(*old(state), details_id) {
            Some(l) if l.is_editing => {
                &&& location_replaced(
                    *old(state),
                    *final(state),
                    details_id,
                    RepoFilesDetailsLocation {
                        is_editing: false,
                        is_dirty: false,
                        save_status: Status::Initial,
                        content: if is_discarded {
                            RepoFilesDetailsContent { status: Status::Initial, data: None, loading: None, ..l.content }
                        } else {
                            l.content
                        },
                        ..l
                    },
                )
                &&& final(notify).events@ == old(notify).events@.push(Event::RepoFilesDetails)
            },
            _ => unchanged(*old(state), *final(state), old(notify).events@, final(notify).events@),
        },
{
    match select_details_location(state, details_id) {
        Some(loc) => if !loc.is_editing {
            return;
        },
        None => {
            return;
        },
    }
    let mut details = state.repo_files_details.details.remove(&details_id).unwrap();
    let mut location = details.location.unwrap();
    location.is_editing = false;
    location.is_dirty = false;
    location.save_status = Status::Initial;
    if is_discarded {
        location.content.status = Status::Initial;
        location.content.data = None;
        location.content.loading = None;
    }
    details.location = Some(location);
    state.repo_files_details.details.insert(details_id, details);
    notify.notify(Event::RepoFilesDetails);
}

/// Records that loading the content failed.
pub fn content_error(state: &mut State, notify: &mut Notify, details_id: u32, err: TransferError)
    ensures
        match spec_location(*old(state), details_id) {
            Some(l) => {
                &&& location_replaced(
                    *old(state),
                    *final(state),
                    details_id,
                    RepoFilesDetailsLocation {
                        content: RepoFilesDetailsContent {
                            status: Status::Error { error: err, loaded: l.content.status.spec_loaded() },
                            ..l.content
                        },
                        ..l
                    },
                )
                &&& final(notify).events@ == old(notify).events@.push(Event::RepoFilesDetails)
            },
            None => unchanged(*old(state), *final(state), old(notify).events@, final(notify).events@),
        },
{
    let mut details = match take_located(state, details_id) {
        Some(d) => d,
        None => {
            return;
        },
    };
    notify.notify(Event::RepoFilesDetails);
    let mut location = details.location.unwrap();
    location.content.status = Status::Error { error: err, loaded: location.content.status.loaded() };
    details.location = Some(location);
    state.repo_files_details.details.insert(details_id, details);
}

/// Marks the file of a details view as being deleted.
pub fn deleting(state: &mut State, notify: &mut Notify, details_id: u32)
    ensures
        match spec_location(*old(state), details_id) {
            Some(l) => {
                &&& location_replaced(
                    *old(state),
                    *final(state),
                    details_id,
                    RepoFilesDetailsLocation {
                        delete_status: Status::Loading { loaded: l.delete_status.spec_loaded() },
                        ..l
                    },
                )
                &&& final(notify).events@ == old(notify).events@.push(Event::RepoFilesDetails)
            },
            None => unchanged(*old(state), *final(state), old(notify).events@, final(notify).events@),
        },
{
    let mut details = match take_located(state, details_id) {
        Some(d) => d,
        None => {
            return;
        },
    };
    notify.notify(Event::RepoFilesDetails);
    let mut location = details.location.unwrap();
    location.delete_status = Status::Loading { loaded: location.delete_status.loaded() };
    details.location = Some(location);
    state.repo_files_details.details.insert(details_id, details);
}

/// Records the end of deleting: a deleted file closes the view, a canceled
/// delete is forgotten, a failed one is shown.
pub fn deleted(state: &mut State, notify: &mut Notify, details_id: u32, res: Result<(), DeleteFileError>)
    ensures
        match spec_location(*old(state), details_id) {
            Some(l) => {
                &&& location_replaced(
                    *old(state),
                    *final(state),
                    details_id,
                    match res {
                        Ok(()) => RepoFilesDetailsLocation {
                            delete_status: Status::Loaded,
                            should_destroy: true,
                            ..l
                        },
                        Err(DeleteFileError::Canceled) => RepoFilesDetailsLocation {
                            delete_status: Status::Initial,
                            ..l
                        },
                        Err(e) => RepoFilesDetailsLocation {
                            delete_status: Status::Error { error: e, loaded: l.delete_status.spec_loaded() },
                            ..l
                        },
                    },
                )
                &&& final(notify).events@ == old(notify).events@.push(Event::RepoFilesDetails)
            },
            None => unchanged(*old(state), *final(state), old(notify).events@, final(notify).events@),
        },
{
    let mut details = match take_located(state, details_id) {
        Some(d) => d,
        None => {
            return;
        },
    };
    notify.notify(Event::RepoFilesDetails);
    let mut location = details.location.unwrap();
    match res {
        Ok(()) => {
            location.delete_status = Status::Loaded;
            location.should_destroy = true;
        },
        Err(DeleteFileError::Canceled) => {
            location.delete_status = Status::Initial;
        },
        Err(err) => {
            location.delete_status = Status::Error { error: err, loaded: location.delete_status.loaded() };
        },
    }
    details.location = Some(location);
    state.repo_files_details.details.insert(details_id, details);
}

/// The content of a location after loading ended with `res`: edits and
/// saves in progress keep what is there.
pub open spec fn spec_content_loaded(
    l: RepoFilesDetailsLocation,
    res: Result<Option<RepoFilesDetailsContentData>, TransferError>,
) -> RepoFilesDetailsContent {
    let c = RepoFilesDetailsContent { loading: None, ..l.content };
    if l.is_dirty || l.save_status is Loading {
        RepoFilesDetailsContent { status: Status::Loaded, ..c }
    } else {
        match res {
            Ok(data) => RepoFilesDetailsContent { status: Status::Loaded, data, version: (c.version + 1) as u32, ..c },
            Err(e) => RepoFilesDetailsContent {
                status: Status::Error { error: e, loaded: c.status.spec_loaded() },
                ..c
            },
        }
    }
}

/// The events that `content_loaded` announces for a view that shows the file.
pub open spec fn spec_content_loaded_events<T>(l: RepoFilesDetailsLocation, res: Result<T, TransferError>) -> Seq<
    Event,
> {
    if !(l.is_dirty || l.save_status is Loading) && res is Ok {
        seq![Event::RepoFilesDetails, Event::RepoFilesDetailsContentData]
    } else {
        seq![Event::RepoFilesDetails]
    }
}

/// Whether the view `id` shows the file at `path` of repository `repo_id`.
pub open spec fn shows(state: State, details_id: u32, repo_id: Seq<char>, path: Seq<char>) -> bool {
    spec_location(state, details_id) matches Some(l) && l.repo_id@ == repo_id && l.path@ == path
}

/// Records the end of loading content, when the view still shows that file.
pub fn content_loaded(
    state: &mut State,
    notify: &mut Notify,
    details_id: u32,
    repo_id: &str,
    path: &str,
    res: Result<Option<RepoFilesDetailsContentData>, TransferError>,
)
    requires
        spec_location(*old(state), details_id) matches Some(l) ==> l.content.version < u32::MAX,
    ensures
        shows(*old(state), details_id, repo_id@, path@) ==> {
            let l = spec_location(*old(state), details_id).unwrap();
            let replaced = !(l.is_dirty || l.save_status is Loading) && res is Ok;
            &&& location_replaced(
                *old(state),
                *final(state),
                details_id,
                RepoFilesDetailsLocation { content: spec_content_loaded(l, res), ..l },
            )
            &&& final(notify).events@ == old(notify).events@ + spec_content_loaded_events(l, res)
        },
        !shows(*old(state), details_id, repo_id@, path@) ==> unchanged(
            *old(state),
            *final(state),
            old(notify).events@,
            final(notify).events@,
        ),
{
    match select_details_location(state, details_id) {
        Some(loc) => if !(str_eq(loc.repo_id.as_str(), repo_id) && str_eq(loc.path.as_str(), path)) {
            return;
        },
        None => {
            return;
        },
    }
    let mut details = state.repo_files_details.details.remove(&details_id).unwrap();
    notify.notify(Event::RepoFilesDetails);
    let mut location = details.location.unwrap();
    location.content.loading = None;
    if location.is_dirty || location.save_status.is_loading() {
        location.content.status = Status::Loaded;
    } else {
        match res {
            Ok(data) => {
                location.content.status = Status::Loaded;
                location.content.data = data;
                location.content.version = location.content.version + 1;
                notify.notify(Event::RepoFilesDetailsContentData);
            },
            Err(err) => {
                location.content.status = Status::Error { error: err, loaded: location.content.status.loaded() };
            },
        }
    }
    details.location = Some(location);
    state.repo_files_details.details.insert(details_id, details);
}

/// Records that the transfer of the content ended: as `content_loaded`
/// without data, then the transfer is forgotten when it is the view's.
pub fn content_transfer_removed(
    state: &mut State,
    notify: &mut Notify,
    details_id: u32,
    repo_id: &str,
    path: &str,
    transfer_id: u32,
    res: Result<(), TransferError>,
)
    requires
        spec_location(*old(state), details_id) matches Some(l) ==> l.content.version < u32::MAX,
    ensures
        spec_location(*old(state), details_id) is None ==> unchanged(
            *old(state),
            *final(state),
            old(notify).events@,
            final(notify).events@,
        ),
        spec_location(*old(state), details_id) matches Some(l) ==> {
            let res2 = match res {
                Ok(()) => Ok(None),
                Err(e) => Err(e),
            };
            let l1 = if shows(*old(state), details_id, repo_id@, path@) {
                RepoFilesDetailsLocation { content: spec_content_loaded(l, res2), ..l }
            } else {
                l
            };
            let ours = l1.content.transfer_id == Some(transfer_id);
            let l2 = if ours {
                RepoFilesDetailsLocation {
                    content: RepoFilesDetailsContent { transfer_id: None, ..l1.content },
                    ..l1
                }
            } else {
                l1
            };
            &&& spec_details(*final(state), details_id) matches Some(d) && d.location == Some(l2)
                && d == (RepoFilesDetails { location: Some(l2), ..spec_details(*old(state), details_id).unwrap() })
            &&& only_details_changed(*old(state), *final(state), details_id)
            &&& final(notify).events@ == old(notify).events@ + (if shows(
                *old(state),
                details_id,
                repo_id@,
                path@,
            ) {
                spec_content_loaded_events(l, res2)
            } else {
                Seq::empty()
            }) + (if ours {
                seq![Event::RepoFilesDetails]
            } else {
                Seq::empty()
            })
        },
{
    let res2 = match res {
        Ok(()) => Ok(None),
        Err(e) => Err(e),
    };
    content_loaded(state, notify, details_id, repo_id, path, res2);
    let ghost mid = *state;
    let current = match select_details_location(state, details_id) {
        Some(loc) => loc.content.transfer_id,
        None => {
            return;
        },
    };
    if current == Some(transfer_id) {
        let mut details = state.repo_files_details.details.remove(&details_id).unwrap();
        let mut location = details.location.unwrap();
        location.content.transfer_id = None;
        details.location = Some(location);
        state.repo_files_details.details.insert(details_id, details);
        notify.notify(Event::RepoFilesDetails);
    }
}

fn bytes_eq(a: &Vec<u8>, b: &Vec<u8>) -> (r: bool)
    ensures
        r == (a@ == b@),
{
    if a.len() != b.len() {
        return false;
    }
    let n = a.len();
    let mut i: usize = 0;
    while i < n
        invariant
            n == a@.len(),
            n == b@.len(),
            i <= n,
            forall|j: int| 0 <= j < i ==> a@[j] == b@[j],
        decreases n - i,
    {
        if a[i] != b[i] {
            return false;
        }
        i = i + 1;
    }
    assert(a@ =~= b@);
    true
}

/// Replaces the loaded content with edited bytes; a change marks the view
/// dirty.
pub fn set_content(state: &mut State, notify: &mut Notify, details_id: u32, content: Vec<u8>)
    requires
        match spec_location(*old(state), details_id) {
            Some(l) => (l.content.data matches Some(d) && d.bytes@ != content@) ==> l.content.version
                < u32::MAX,
            None => true,
        },
    ensures
        match spec_location(*old(state), details_id) {
            Some(l) if (l.content.data matches Some(d) && d.bytes@ != content@) => {
                let d = l.content.data.unwrap();
                let nl = RepoFilesDetailsLocation {
                    content: RepoFilesDetailsContent {
                        data: Some(RepoFilesDetailsContentData { bytes: content, ..d }),
                        version: (l.content.version + 1) as u32,
                        ..l.content
                    },
                    is_dirty: true,
                    ..l
                };
                &&& location_replaced(*old(state), *final(state), details_id, nl)
                &&& final(notify).events@ == if l.is_dirty {
                    old(notify).events@.push(Event::RepoFilesDetailsContentData)
                } else {
                    old(notify).events@.push(Event::RepoFilesDetailsContentData).push(Event::RepoFilesDetails)
                }
            },
            _ => unchanged(*old(state), *final(state), old(notify).events@, final(notify).events@),
        },
{
    match select_details_location(state, details_id) {
        Some(loc) => match &loc.content.data {
            Some(data) => if bytes_eq(&data.bytes, &content) {
                return;
            },
            None => {
                return;
            },
        },
        None => {
            return;
        },
    }
    let mut details = state.repo_files_details.details.remove(&details_id).unwrap();
    let mut location = details.location.unwrap();
    let mut data = location.content.data.unwrap();
    data.bytes = content;
    location.content.data = Some(data);
    location.content.version = location.content.version + 1;
    notify.notify(Event::RepoFilesDetailsContentData);
    if !location.is_dirty {
        location.is_dirty = true;
        notify.notify(Event::RepoFilesDetails);
    }
    details.location = Some(location);
    state.repo_files_details.details.insert(details_id, details);
}

fn copy_data(d: &RepoFilesDetailsContentData) -> (r: RepoFilesDetailsContentData)
    ensures
        r.bytes@ == d.bytes@,
        r.remote_size == d.remote_size,
        r.remote_modified == d.remote_modified,
        r.remote_hash == d.remote_hash,
{
    RepoFilesDetailsContentData {
        bytes: copy_bytes(&d.bytes),
        remote_size: d.remote_size,
        remote_modified: d.remote_modified,
        remote_hash: match &d.remote_hash {
            Some(h) => Some(h.clone()),
            None => None,
        },
    }
}

/// When a save may start: the view is dirty, has content, and an autosave
/// neither meets a conflict nor a deleted file.
pub open spec fn spec_saving_error(state: State, details_id: u32, initiator: SaveInitiator) -> Option<SaveError> {
    let l = spec_location(state, details_id);
    if !(l matches Some(loc) && loc.is_dirty) {
        Some(SaveError::NotDirty)
    } else if l.unwrap().content.data is None {
        Some(SaveError::InvalidState)
    } else if initiator == SaveInitiator::Autosave && (spec_is_conflict(
        true,
        l.unwrap().content.data,
        spec_remote_file(state, details_id),
        l.unwrap().save_status,
    ) || spec_file(state, details_id) is None) {
        Some(SaveError::AutosaveNotPossible)
    } else {
        None
    }
}

/// Starts saving the edited content; returns what the upload needs: the
/// repository, the path, the encrypted name, the content, its version and
/// whether the file was deleted meanwhile.
pub fn saving(state: &mut State, notify: &mut Notify, details_id: u32, initiator: SaveInitiator) -> (r: Result<
    (String, String, String, RepoFilesDetailsContentData, u32, bool),
    SaveError,
>)
    ensures
        match spec_saving_error(*old(state), details_id, initiator) {
            Some(e) => r == Err::<(String, String, String, RepoFilesDetailsContentData, u32, bool), SaveError>(e)
                && unchanged(*old(state), *final(state), old(notify).events@, final(notify).events@),
            None => {
                let l = spec_location(*old(state), details_id).unwrap();
                let d = l.content.data.unwrap();
                &&& r matches Ok((repo_id, path, name, data, version, is_deleted)) && repo_id == l.repo_id
                    && path == l.path && name == l.name && data.bytes@ == d.bytes@ && data.remote_size
                    == d.remote_size && data.remote_modified == d.remote_modified && data.remote_hash
                    == d.remote_hash && version == l.content.version && is_deleted == spec_file(
                    *old(state),
                    details_id,
                ) is None
                &&& location_replaced(
                    *old(state),
                    *final(state),
                    details_id,
                    RepoFilesDetailsLocation {
                        save_status: Status::Loading { loaded: l.save_status.spec_loaded() },
                        ..l
                    },
                )
                &&& final(notify).events@ == old(notify).events@.push(Event::RepoFilesDetails)
            },
        },
{
    if !select_is_dirty(state, details_id) {
        return Err(SaveError::NotDirty);
    }
    let file = select_file(state, details_id);
    let remote_file = match file {
        Some(f) => crate::repo_files::selectors::select_remote_file(state, f),
        None => None,
    };
    let location = select_details_location(state, details_id).unwrap();
    let data = match &location.content.data {
        Some(d) => copy_data(d),
        None => {
            return Err(SaveError::InvalidState);
        },
    };
    let is_deleted = file.is_none();
    if initiator == SaveInitiator::Autosave && (get_is_conflict(
        true,
        Some(&data),
        remote_file,
        &location.save_status,
    ) || is_deleted) {
        return Err(SaveError::AutosaveNotPossible);
    }
    let version = location.content.version;
    let mut details = state.repo_files_details.details.remove(&details_id).unwrap();
    let mut location = details.location.unwrap();
    location.save_status = Status::Loading { loaded: location.save_status.loaded() };
    notify.notify(Event::RepoFilesDetails);
    let out = (location.repo_id.clone(), location.path.clone(), location.name.clone(), data, version, is_deleted);
    details.location = Some(location);
    state.repo_files_details.details.insert(details_id, details);
    Ok(out)
}

/// The location after a save ended with `res`.
pub open spec fn spec_saved(
    l: RepoFilesDetailsLocation,
    saved_version: u32,
    res: Result<(String, RepoFilesUploadResult, bool), SaveError>,
) -> RepoFilesDetailsLocation {
    match res {
        Ok((saved_path, result, should_destroy)) => RepoFilesDetailsLocation {
            path: if l.path@ == saved_path@ {
                l.path
            } else {
                saved_path
            },
            content: RepoFilesDetailsContent {
                data: match l.content.data {
                    Some(d) => Some(
                        RepoFilesDetailsContentData {
                            remote_size: result.remote_file.size,
                            remote_modified: result.remote_file.modified,
                            remote_hash: result.remote_file.hash,
                            ..d
                        },
                    ),
                    None => None,
                },
                ..l.content
            },
            is_dirty: if l.content.version == saved_version {
                false
            } else {
                l.is_dirty
            },
            save_status: Status::Initial,
            should_destroy: l.should_destroy || should_destroy,
            ..l
        },
        Err(SaveError::Canceled) => RepoFilesDetailsLocation { save_status: Status::Initial, ..l },
        Err(SaveError::DiscardChanges { should_destroy }) => RepoFilesDetailsLocation {
            save_status: Status::Initial,
            should_destroy: l.should_destroy || should_destroy,
            ..l
        },
        Err(e) => RepoFilesDetailsLocation {
            save_status: Status::Error { error: e, loaded: l.save_status.spec_loaded() },
            ..l
        },
    }
}

/// Records the end of a save: a saved file takes the remote version it now
/// has, and is clean unless edited meanwhile.
pub fn saved(
    state: &mut State,
    notify: &mut Notify,
    details_id: u32,
    saved_version: u32,
    res: Result<(String, RepoFilesUploadResult, bool), SaveError>,
)
    ensures
        match spec_location(*old(state), details_id) {
            Some(l) => {
                &&& location_replaced(*old(state), *final(state), details_id, spec_saved(l, saved_version, res))
                &&& final(notify).events@ == old(notify).events@.push(Event::RepoFilesDetails)
            },
            None => unchanged(*old(state), *final(state), old(notify).events@, final(notify).events@),
        },
{
    let mut details = match take_located(state, details_id) {
        Some(d) => d,
        None => {
            return;
        },
    };
    notify.notify(Event::RepoFilesDetails);
    let mut location = details.location.unwrap();
    match res {
        Ok((saved_path, result, should_destroy)) => {
            if !str_eq(location.path.as_str(), saved_path.as_str()) {
                location.path = saved_path;
            }
            match location.content.data {
                Some(mut data) => {
                    data.remote_size = result.remote_file.size;
                    data.remote_modified = result.remote_file.modified;
                    data.remote_hash = result.remote_file.hash;
                    location.content.data = Some(data);
                },
                None => {},
            }
            if location.content.version == saved_version {
                location.is_dirty = false;
            }
            location.save_status = Status::Initial;
            if should_destroy {
                location.should_destroy = true;
            }
        },
        Err(err) => {
            match err {
                SaveError::Canceled => {
                    location.save_status = Status::Initial;
                },
                SaveError::DiscardChanges { should_destroy } => {
                    location.save_status = Status::Initial;
                    if should_destroy {
                        location.should_destroy = true;
                    }
                },
                err => {
                    location.save_status = Status::Error { error: err, loaded: location.save_status.loaded() };
                },
            }
        },
    }
    details.location = Some(location);
    state.repo_files_details.details.insert(details_id, details);
}

/// The version of the remote file whose content starts loading.
pub open spec fn spec_loading_of(f: Option<crate::remote_files::state::RemoteFile>) -> Option<
    RepoFilesDetailsContentLoading,
> {
    match f {
        Some(f) => Some(
            RepoFilesDetailsContentLoading { remote_size: f.size, remote_modified: f.modified, remote_hash: f.hash },
        ),
        None => None,
    }
}

/// The remote file that stores `file`, if it is known.
pub open spec fn spec_stored_in(state: State, file: RepoFile) -> Option<crate::remote_files::state::RemoteFile> {
    let id = spec_file_id(file.mount_id@, lowercase(file.remote_path@));
    if state.remote_files.files@.contains_key(id) {
        Some(state.remote_files.files@[id])
    } else {
        None
    }
}

/// A location whose content starts loading the version `loading`.
pub open spec fn spec_reader_loading(
    l: RepoFilesDetailsLocation,
    loading: Option<RepoFilesDetailsContentLoading>,
) -> RepoFilesDetailsLocation {
    RepoFilesDetailsLocation {
        content: RepoFilesDetailsContent {
            status: Status::Loading { loaded: l.content.status.spec_loaded() },
            loading,
            ..l.content
        },
        ..l
    }
}

/// Marks the content of a details view as loading the version of `file`
/// that is stored remotely; fails when the view has no location.
pub fn file_reader_loading(state: &mut State, notify: &mut Notify, details_id: u32, file: &RepoFile) -> (r: Result<
    (),
    GetFilesReaderError,
>)
    ensures
        match spec_location(*old(state), details_id) {
            None => r == Err::<(), GetFilesReaderError>(GetFilesReaderError::FileNotFound) && unchanged(
                *old(state),
                *final(state),
                old(notify).events@,
                final(notify).events@,
            ),
            Some(l) => {
                &&& r is Ok
                &&& location_replaced(
                    *old(state),
                    *final(state),
                    details_id,
                    spec_reader_loading(l, spec_loading_of(spec_stored_in(*old(state), *file))),
                )
                &&& final(notify).events@ == old(notify).events@.push(Event::RepoFilesDetails)
            },
        },
{
    let loading = match crate::repo_files::selectors::select_remote_file(state, file) {
        Some(f) => Some(
            RepoFilesDetailsContentLoading {
                remote_size: f.size,
                remote_modified: f.modified,
                remote_hash: match &f.hash {
                    Some(h) => Some(h.clone()),
                    None => None,
                },
            },
        ),
        None => None,
    };
    let mut details = match take_located(state, details_id) {
        Some(d) => d,
        None => {
            return Err(GetFilesReaderError::FileNotFound);
        },
    };
    notify.notify(Event::RepoFilesDetails);
    let mut location = details.location.unwrap();
    location.content.status = Status::Loading { loaded: location.content.status.loaded() };
    location.content.loading = loading;
    details.location = Some(location);
    state.repo_files_details.details.insert(details_id, details);
    Ok(())
}

/// Marks the content of a details view as loading the version of `file`
/// that is stored remotely, through transfer `transfer_id`; hands back the
/// transfer it replaces, if any. Fails when the view has no location.
pub fn content_transfer_created(
    state: &mut State,
    notify: &mut Notify,
    details_id: u32,
    file: &RepoFile,
    transfer_id: u32,
) -> (r: Result<Option<u32>, GetFilesReaderError>)
    ensures
        match spec_location(*old(state), details_id) {
            None => r == Err::<Option<u32>, GetFilesReaderError>(GetFilesReaderError::FileNotFound) && unchanged(
                *old(state),
                *final(state),
                old(notify).events@,
                final(notify).events@,
            ),
            Some(l) => {
                let l1 = spec_reader_loading(l, spec_loading_of(spec_stored_in(*old(state), *file)));
                &&& r == Ok::<Option<u32>, GetFilesReaderError>(l1.content.transfer_id)
                &&& location_replaced(
                    *old(state),
                    *final(state),
                    details_id,
                    RepoFilesDetailsLocation {
                        content: RepoFilesDetailsContent { transfer_id: Some(transfer_id), ..l1.content },
                        ..l1
                    },
                )
                &&& final(notify).events@ == old(notify).events@.push(Event::RepoFilesDetails).push(
                    Event::RepoFilesDetails,
                )
            },
        },
{
    match file_reader_loading(state, notify, details_id, file) {
        Ok(()) => {},
        Err(e) => {
            return Err(e);
        },
    }
    let mut details = take_located(state, details_id).unwrap();
    notify.notify(Event::RepoFilesDetails);
    let mut location = details.location.unwrap();
    let previous = location.content.transfer_id;
    location.content.transfer_id = Some(transfer_id);
    details.location = Some(location);
    state.repo_files_details.details.insert(details_id, details);
    Ok(previous)
}

/// Why loading the content of a details view cannot start, if it cannot.
pub open spec fn spec_content_loading_error(state: State, details_id: u32) -> Option<LoadContentError> {
    match spec_file(state, details_id) {
        None => Some(LoadContentError::FileNotFound),
        Some(f) => {
            let d = spec_details(state, details_id).unwrap();
            if !d.options.load_content.spec_matches(opt_str_view(f.ext), f.category) {
                Some(LoadContentError::LoadFilterMismatch)
            } else if d.location.unwrap().content.status is Loading {
                Some(LoadContentError::AlreadyLoading)
            } else {
                None
            }
        },
    }
}

/// Starts loading the content of the file of a details view, when the view's
/// filter admits it and it is not loading already; returns the file.
pub fn content_loading(state: &mut State, notify: &mut Notify, details_id: u32) -> (r: Result<
    RepoFile,
    LoadContentError,
>)
    ensures
        match spec_content_loading_error(*old(state), details_id) {
            Some(e) => (r matches Err(x) && x == e) && unchanged(
                *old(state),
                *final(state),
                old(notify).events@,
                final(notify).events@,
            ),
            None => {
                let l = spec_location(*old(state), details_id).unwrap();
                &&& r matches Ok(f) && same_file(f, spec_file(*old(state), details_id).unwrap())
                &&& location_replaced(
                    *old(state),
                    *final(state),
                    details_id,
                    RepoFilesDetailsLocation {
                        content: RepoFilesDetailsContent {
                            status: Status::Loading { loaded: l.content.status.spec_loaded() },
                            loading: spec_loading_of(spec_remote_file(*old(state), details_id)),
                            ..l.content
                        },
                        ..l
                    },
                )
                &&& final(notify).events@ == old(notify).events@.push(Event::RepoFilesDetails)
            },
        },
{
    let file = match select_file(state, details_id) {
        Some(f) => f.copy(),
        None => {
            return Err(LoadContentError::FileNotFound);
        },
    };
    let details = select_details(state, details_id).unwrap();
    let ext = match &file.ext {
        Some(e) => Some(e.as_str()),
        None => None,
    };
    if !details.options.load_content.matches(ext, &file.category) {
        return Err(LoadContentError::LoadFilterMismatch);
    }
    let loading = match select_remote_file(state, details_id) {
        Some(f) => Some(
            RepoFilesDetailsContentLoading {
                remote_size: f.size,
                remote_modified: f.modified,
                remote_hash: match &f.hash {
                    Some(h) => Some(h.clone()),
                    None => None,
                },
            },
        ),
        None => None,
    };
    if details.location.as_ref().unwrap().content.status.is_loading() {
        return Err(LoadContentError::AlreadyLoading);
    }
    let mut details = state.repo_files_details.details.remove(&details_id).unwrap();
    let mut location = details.location.unwrap();
    location.content.status = Status::Loading { loaded: location.content.status.loaded() };
    location.content.loading = loading;
    details.location = Some(location);
    state.repo_files_details.details.insert(details_id, details);
    notify.notify(Event::RepoFilesDetails);
    Ok(file)
}

/// Closes a details view; returns its subscription to the repository files
/// and its content transfer, when it had them.
pub fn destroy(state: &mut State, notify: &mut Notify, details_id: u32) -> (r: (Option<u32>, Option<u32>))
    ensures
        final(notify).events@ == old(notify).events@.push(Event::RepoFilesDetails),
        match spec_details(*old(state), details_id) {
            Some(d) => {
                &&& r.0 == Some(d.repo_files_subscription_id)
                &&& r.1 == match d.location {
                    Some(l) => l.content.transfer_id,
                    None => None,
                }
                &&& only_details_changed(*old(state), *final(state), details_id)
                &&& !final(state).repo_files_details.details@.contains_key(details_id)
            },
            None => r == (None::<u32>, None::<u32>) && *final(state) == *old(state),
        },
{
    notify.notify(Event::RepoFilesDetails);
    if !state.repo_files_details.details.contains_key(&details_id) {
        return (None, None);
    }
    let details = state.repo_files_details.details.remove(&details_id).unwrap();
    let transfer_id = match &details.location {
        Some(l) => l.content.transfer_id,
        None => None,
    };
    (Some(details.repo_files_subscription_id), transfer_id)
}

fn clone_decrypted_name(n: &Option<Result<String, DecryptFilenameError>>) -> (r: Option<
    Result<String, DecryptFilenameError>,
>)
    ensures
        r == *n,
{
    match n {
        Some(Ok(s)) => Some(Ok(s.clone())),
        Some(Err(e)) => Some(Err(e.clone())),
        None => None,
    }
}

/// Opens a details view on the file at `path` of a repository and returns
/// its id. `decrypted_name` is what the repository's cipher made of the
/// file's name, when the repository is unlocked; `repo_status` is the load
/// status of the repository.
pub fn create(
    state: &mut State,
    notify: &mut Notify,
    options: RepoFilesDetailsOptions,
    repo_id: String,
    path: &str,
    is_editing: bool,
    repo_files_subscription_id: u32,
    decrypted_name: Option<Result<String, DecryptFilenameError>>,
    repo_status: Status<RepoInfoError>,
) -> (r: u32)
    requires
        old(state).repo_files_details.next_id.value < u32::MAX,
    ensures
        r == old(state).repo_files_details.next_id.value,
        final(state).repo_files_details.next_id.value == r + 1,
        final(state).repo_files_details.details@.contains_key(r),
        forall|k: u32| k != r ==> #[trigger] final(state).repo_files_details.details@.contains_key(k)
            == old(state).repo_files_details.details@.contains_key(k) && (
            old(state).repo_files_details.details@.contains_key(k) ==> final(state).repo_files_details.details@[k]
                == old(state).repo_files_details.details@[k]),
        final(state).repo_files == old(state).repo_files,
        final(state).repos == old(state).repos,
        final(state).remote_files == old(state).remote_files,
        ({
            let d = final(state).repo_files_details.details@[r];
            &&& d.id == r
            &&& d.options == options
            &&& d.repo_files_subscription_id == repo_files_subscription_id
            &&& match spec_path_to_name(path@) {
                Some(name) => {
                    &&& d.location matches Some(l) && l.repo_id == repo_id && l.path@ == path@ && l.name@ == name
                        && l.decrypted_name == decrypted_name && l.is_editing == is_editing && !l.is_dirty
                        && l.content.status is Initial && l.content.data is None && l.content.loading is None
                        && l.content.version == 0 && l.content.transfer_id is None && l.save_status is Initial
                        && l.delete_status is Initial && !l.should_destroy
                    &&& d.status == Status::<LoadFilesError>::Loading {
                        loaded: old(state).repo_files.files@.contains_key(spec_repo_file_id(repo_id@, path@)),
                    }
                    &&& (if repo_status is Initial { d.repo_status is Initial } else { d.repo_status == repo_status })
                },
                None => {
                    &&& d.location is None
                    &&& d.status matches Status::Error { error: LoadFilesError::RemoteError(e), loaded }
                        && !loaded && e.spec_is_api_error_code(crate::remote::ApiErrorCode::InvalidPath)
                    &&& d.repo_status is Initial
                },
            }
            &&& d.is_locked == spec_is_locked(*old(state), d.location)
        }),
        announced_only(old(notify).events@, final(notify).events@, Event::RepoFilesDetails),
        final(notify).events@.len() > old(notify).events@.len(),
{
    notify.notify(Event::RepoFilesDetails);
    let details_id = state.repo_files_details.next_id.next();
    let file_id = get_file_id(repo_id.as_str(), path);
    let file_exists = state.repo_files.files.contains_key(&file_id);
    let location = create_location(repo_id, path, is_editing, clone_decrypted_name(&decrypted_name));
    let (location, status) = match location {
        Ok(l) => (Some(l), Status::Loading { loaded: file_exists }),
        Err(e) => (None, Status::Error { error: e, loaded: false }),
    };
    let details = RepoFilesDetails {
        id: details_id,
        options,
        location,
        status,
        repo_files_subscription_id,
        repo_status: Status::Initial,
        is_locked: false,
    };
    state.repo_files_details.details.insert(details_id, details);
    let ghost ev1 = notify.events@;
    update_details(state, notify, details_id, decrypted_name, repo_status);
    proof {
        assert(notify.events@.len() >= ev1.len());
    }
    details_id
}

/// Where the last move of `moved` that starts at `path` of `repo_id` took it.
pub open spec fn spec_moved_to(moved: Seq<(String, String, String)>, repo_id: Seq<char>, path: Seq<char>) -> Option<
    String,
>
    decreases moved.len(),
{
    if moved.len() == 0 {
        None
    } else if moved.last().0@ == repo_id && moved.last().1@ == path {
        Some(moved.last().2)
    } else {
        spec_moved_to(moved.drop_last(), repo_id, path)
    }
}

fn moved_to<'a>(moved: &'a Vec<(String, String, String)>, repo_id: &str, path: &str) -> (r: Option<&'a String>)
    ensures
        match r {
            Some(p) => spec_moved_to(moved@, repo_id@, path@) == Some(*p),
            None => spec_moved_to(moved@, repo_id@, path@) is None,
        },
{
    let mut i: usize = moved.len();
    assert(moved@.subrange(0, moved@.len() as int) =~= moved@);
    while i > 0
        invariant
            i <= moved@.len(),
            spec_moved_to(moved@, repo_id@, path@) == spec_moved_to(moved@.subrange(0, i as int), repo_id@, path@),
        decreases i,
    {
        let ghost pre = moved@.subrange(0, i as int);
        assert(pre.drop_last() =~= moved@.subrange(0, i - 1));
        if str_eq(moved[i - 1].0.as_str(), repo_id) && str_eq(moved[i - 1].1.as_str(), path) {
            return Some(&moved[i - 1].2);
        }
        i = i - 1;
    }
    assert(moved@.subrange(0, 0) =~= Seq::<(String, String, String)>::empty());
    None
}

/// A details view after the files of repositories moved: a view of a moved
/// file follows it to its new path, and its name will be decrypted again.
pub open spec fn spec_follows_move(moved: Seq<(String, String, String)>, d: RepoFilesDetails, nd: RepoFilesDetails) -> bool {
    match d.location {
        Some(l) => match spec_moved_to(moved, l.repo_id@, l.path@) {
            Some(np) => match spec_path_to_name(np@) {
                Some(name) => nd.location matches Some(nl) && nl.path == np && nl.name@ == name
                    && nd == (RepoFilesDetails {
                    location: Some(
                        RepoFilesDetailsLocation { path: np, name: nl.name, decrypted_name: None, ..l },
                    ),
                    ..d
                }),
                None => nd == d,
            },
            None => nd == d,
        },
        None => nd == d,
    }
}

/// Follows the files that the mutation moved: each details view of a moved
/// file now shows it at its new path.
fn follow_moves(state: &mut State, notify: &mut Notify, mutation_state: &MutationState)
    ensures
        final(state).remote_files == old(state).remote_files,
        final(state).repos == old(state).repos,
        final(state).repo_files == old(state).repo_files,
        final(state).repo_files_details.next_id == old(state).repo_files_details.next_id,
        final(state).repo_files_details.details@.dom() == old(state).repo_files_details.details@.dom(),
        forall|k: u32| #[trigger] old(state).repo_files_details.details@.contains_key(k) ==> spec_follows_move(
            mutation_state.repo_files.moved_files@,
            old(state).repo_files_details.details@[k],
            final(state).repo_files_details.details@[k],
        ),
        announced_only(old(notify).events@, final(notify).events@, Event::RepoFilesDetails),
{
    let moved = &mutation_state.repo_files.moved_files;
    let keys = state.repo_files_details.details.keys();
    let ghost old_details = state.repo_files_details.details@;
    let n = keys.len();
    let mut i: usize = 0;
    proof {
        assert forall|k: u32| old_details.contains_key(k) implies exists|a: int| 0 <= a < n && keys@[a] == k by {
            let a = choose|a: int| 0 <= a < keys.len() && keys@[a]@ == k;
            assert(keys@[a] == k);
        }
        assert forall|a: int, b: int| 0 <= a < n && 0 <= b < n && a != b implies keys@[a] != keys@[b] by {
            assert(keys@[a]@ != keys@[b]@);
        }
    }
    while i < n
        invariant
            n == keys@.len(),
            i <= n,
            moved == &mutation_state.repo_files.moved_files,
            forall|k: u32| old_details.contains_key(k) ==> exists|a: int| 0 <= a < n && keys@[a] == k,
            forall|a: int, b: int| 0 <= a < n && 0 <= b < n && a != b ==> keys@[a] != keys@[b],
            state.repo_files_details.details@.dom() == old_details.dom(),
            old_details == old(state).repo_files_details.details@,
            state.remote_files == old(state).remote_files,
            state.repos == old(state).repos,
            state.repo_files == old(state).repo_files,
            state.repo_files_details.next_id == old(state).repo_files_details.next_id,
            forall|a: int| 0 <= a < i && old_details.contains_key(#[trigger] keys@[a]) ==> spec_follows_move(
                moved@,
                old_details[keys@[a]],
                state.repo_files_details.details@[keys@[a]],
            ),
            forall|a: int| i <= a < n ==> state.repo_files_details.details@[#[trigger] keys@[a]] == old_details[keys@[a]],
            announced_only(old(notify).events@, notify.events@, Event::RepoFilesDetails),
        decreases n - i,
    {
        let k = keys[i];
        let target = match state.repo_files_details.details.get(&k) {
            Some(d) => match &d.location {
                Some(l) => match moved_to(moved, l.repo_id.as_str(), l.path.as_str()) {
                    Some(np) => match path_to_name(np.as_str()) {
                        Some(name) => Some((np.clone(), name)),
                        None => None,
                    },
                    None => None,
                },
                None => None,
            },
            None => None,
        };
        match target {
            Some((np, name)) => {
                let mut details = state.repo_files_details.details.remove(&k).unwrap();
                let mut location = details.location.unwrap();
                location.path = np;
                location.name = name;
                location.decrypted_name = None;
                details.location = Some(location);
                state.repo_files_details.details.insert(k, details);
                notify.notify(Event::RepoFilesDetails);
            },
            None => {},
        }
        proof {
            assert(state.repo_files_details.details@.dom() =~= old_details.dom());
            assert forall|a: int| i + 1 <= a < n implies state.repo_files_details.details@[#[trigger] keys@[a]]
                == old_details[keys@[a]] by {
                assert(keys@[a] != keys@[i as int]);
            }
            assert forall|a: int| 0 <= a < i + 1 && old_details.contains_key(#[trigger] keys@[a]) implies spec_follows_move(
                moved@,
                old_details[keys@[a]],
                state.repo_files_details.details@[keys@[a]],
            ) by {
                if a < i {
                    assert(keys@[a] != keys@[i as int]);
                }
            }
        }
        i = i + 1;
    }
    proof {
        assert forall|k: u32| #[trigger] old_details.contains_key(k) implies spec_follows_move(
            moved@,
            old_details[k],
            state.repo_files_details.details@[k],
        ) by {
            let a = choose|a: int| 0 <= a < n && keys@[a] == k;
            assert(spec_follows_move(moved@, old_details[keys@[a]], state.repo_files_details.details@[keys@[a]]));
        }
    }
}

/// A save of the version being shown leaves the view clean and no longer
/// saving, at the path it was saved to.
pub proof fn law_saved_current_version_is_clean(
    l: RepoFilesDetailsLocation,
    saved_path: String,
    result: RepoFilesUploadResult,
    should_destroy: bool,
)
    ensures
        !spec_saved(l, l.content.version, Ok((saved_path, result, should_destroy))).is_dirty,
        spec_saved(l, l.content.version, Ok((saved_path, result, should_destroy))).save_status is Initial,
        spec_saved(l, l.content.version, Ok((saved_path, result, should_destroy))).path@ == saved_path@,
{
}

/// Edits made while a save was under way survive it: a save of an older
/// version keeps the view dirty.
pub proof fn law_saved_older_version_stays_dirty(
    l: RepoFilesDetailsLocation,
    saved_version: u32,
    saved_path: String,
    result: RepoFilesUploadResult,
    should_destroy: bool,
)
    requires
        l.is_dirty,
        saved_version != l.content.version,
    ensures
        spec_saved(l, saved_version, Ok((saved_path, result, should_destroy))).is_dirty,
{
}

/// An autosave never starts when the edits conflict with the remote file.
pub proof fn law_conflict_blocks_autosave(state: State, details_id: u32)
    requires
        spec_location(state, details_id) matches Some(l) && l.is_dirty && l.content.data is Some,
        spec_is_conflict(
            true,
            spec_location(state, details_id).unwrap().content.data,
            spec_remote_file(state, details_id),
            spec_location(state, details_id).unwrap().save_status,
        ),
    ensures
        spec_saving_error(state, details_id, SaveInitiator::Autosave) == Some(SaveError::AutosaveNotPossible),
        spec_saving_error(state, details_id, SaveInitiator::User) is None,
{
}

/// What the repository's cipher made of the name of a details view's file,
/// when its repository has a cipher: `names` holds, for each repository with
/// a cipher, the decryptions of encrypted names.
pub open spec fn spec_location_decryption(
    names: Map<Seq<char>, KeyMap<String, Result<String, DecryptFilenameError>>>,
    d: RepoFilesDetails,
) -> Option<Result<String, DecryptFilenameError>> {
    match d.location {
        Some(l) => if names.contains_key(l.repo_id@) && names[l.repo_id@]@.contains_key(l.name@) {
            Some(names[l.repo_id@]@[l.name@])
        } else {
            None
        },
        None => None,
    }
}

/// The status of the repository of a details view's file, from `statuses`
/// by repository id (`Initial` when it has none).
pub open spec fn spec_location_status(statuses: Map<Seq<char>, Status<RepoInfoError>>, d: RepoFilesDetails) -> Status<
    RepoInfoError,
> {
    match d.location {
        Some(l) => if statuses.contains_key(l.repo_id@) {
            statuses[l.repo_id@]
        } else {
            Status::Initial
        },
        None => Status::Initial,
    }
}

fn copy_name(r: &Result<String, DecryptFilenameError>) -> (c: Result<String, DecryptFilenameError>)
    ensures
        c == *r,
{
    match r {
        Ok(n) => Ok(n.clone()),
        Err(e) => Err(e.clone()),
    }
}

/// Follows a mutation: the details views of moved files follow them to their
/// new paths, then every details view is brought up to date with its
/// repository (see `update_details`), from the repositories' `statuses` and
/// what their ciphers made of the names (`names`).
pub fn handle_mutation(
    state: &mut State,
    notify: &mut Notify,
    mutation_state: &MutationState,
    names: &KeyMap<String, KeyMap<String, Result<String, DecryptFilenameError>>>,
    statuses: &KeyMap<String, Status<RepoInfoError>>,
)
    ensures
        final(state).remote_files == old(state).remote_files,
        final(state).repos == old(state).repos,
        final(state).repo_files == old(state).repo_files,
        final(state).repo_files_details.next_id == old(state).repo_files_details.next_id,
        final(state).repo_files_details.details@.dom() == old(state).repo_files_details.details@.dom(),
        forall|k: u32| #[trigger] old(state).repo_files_details.details@.contains_key(k) ==> exists|md: RepoFilesDetails|
            spec_follows_move(mutation_state.repo_files.moved_files@, old(state).repo_files_details.details@[k], md)
                && final(state).repo_files_details.details@[k] == #[trigger] spec_updated(
                *old(state),
                md,
                spec_location_decryption(names@, md),
                spec_location_status(statuses@, md),
            ),
        announced_only(old(notify).events@, final(notify).events@, Event::RepoFilesDetails),
{
    follow_moves(state, notify, mutation_state);
    let ghost mid = *state;
    let keys = state.repo_files_details.details.keys();
    let ghost mid_details = state.repo_files_details.details@;
    let n = keys.len();
    let mut i: usize = 0;
    proof {
        assert forall|k: u32| mid_details.contains_key(k) implies exists|a: int| 0 <= a < n && keys@[a] == k by {
            let a = choose|a: int| 0 <= a < keys.len() && keys@[a]@ == k;
            assert(keys@[a] == k);
        }
        assert forall|a: int, b: int| 0 <= a < n && 0 <= b < n && a != b implies keys@[a] != keys@[b] by {
            assert(keys@[a]@ != keys@[b]@);
        }
    }
    while i < n
        invariant
            n == keys@.len(),
            i <= n,
            forall|k: u32| mid_details.contains_key(k) ==> exists|a: int| 0 <= a < n && keys@[a] == k,
            forall|a: int, b: int| 0 <= a < n && 0 <= b < n && a != b ==> keys@[a] != keys@[b],
            mid_details == mid.repo_files_details.details@,
            state.repo_files_details.details@.dom() == mid_details.dom(),
            state.remote_files == mid.remote_files,
            state.repos == mid.repos,
            state.repo_files == mid.repo_files,
            state.repo_files_details.next_id == mid.repo_files_details.next_id,
            forall|a: int| 0 <= a < i && mid_details.contains_key(#[trigger] keys@[a]) ==> state.repo_files_details.details@[keys@[a]] == spec_updated(
                mid,
                mid_details[keys@[a]],
                spec_location_decryption(names@, mid_details[keys@[a]]),
                spec_location_status(statuses@, mid_details[keys@[a]]),
            ),
            forall|a: int| i <= a < n && mid_details.contains_key(#[trigger] keys@[a]) ==> state.repo_files_details.details@[keys@[a]] == mid_details[keys@[a]],
            announced_only(old(notify).events@, notify.events@, Event::RepoFilesDetails),
        decreases n - i,
    {
        let k = keys[i];
        let ghost before = *state;
        let (decrypted, rs) = match state.repo_files_details.details.get(&k) {
            Some(d) => match &d.location {
                Some(l) => {
                    let dec = match names.get(&l.repo_id) {
                        Some(m) => match m.get(&l.name) {
                            Some(r) => Some(copy_name(r)),
                            None => None,
                        },
                        None => None,
                    };
                    let st = match statuses.get(&l.repo_id) {
                        Some(st) => clone_repo_status(st),
                        None => Status::Initial,
                    };
                    (dec, st)
                },
                None => (None, Status::Initial),
            },
            None => (None, Status::Initial),
        };
        proof {
            if mid_details.contains_key(k) {
                assert(before.repo_files_details.details@[k] == mid_details[keys@[i as int]]);
            }
        }
        update_details(state, notify, k, decrypted, rs);
        proof {
            assert(state.repo_files_details.details@.dom() =~= mid_details.dom());
            assert forall|a: int| i + 1 <= a < n && mid_details.contains_key(#[trigger] keys@[a]) implies state.repo_files_details.details@[keys@[a]]
                == mid_details[keys@[a]] by {
                assert(keys@[a] != keys@[i as int]);
            }
            assert forall|a: int| 0 <= a < i + 1 && mid_details.contains_key(#[trigger] keys@[a]) implies state.repo_files_details.details@[keys@[a]]
                == spec_updated(
                mid,
                mid_details[keys@[a]],
                spec_location_decryption(names@, mid_details[keys@[a]]),
                spec_location_status(statuses@, mid_details[keys@[a]]),
            ) by {
                if a < i {
                    assert(keys@[a] != keys@[i as int]);
                }
            }
        }
        i = i + 1;
    }
    proof {
        assert forall|k: u32| #[trigger] old(state).repo_files_details.details@.contains_key(k) implies exists|
            md: RepoFilesDetails,
        |
            spec_follows_move(mutation_state.repo_files.moved_files@, old(state).repo_files_details.details@[k], md)
                && state.repo_files_details.details@[k] == #[trigger] spec_updated(
                *old(state),
                md,
                spec_location_decryption(names@, md),
                spec_location_status(statuses@, md),
            ) by {
            let a = choose|a: int| 0 <= a < n && keys@[a] == k;
            let md = mid_details[k];
            assert(state.repo_files_details.details@[keys@[a]] == spec_updated(
                mid,
                mid_details[keys@[a]],
                spec_location_decryption(names@, mid_details[keys@[a]]),
                spec_location_status(statuses@, mid_details[keys@[a]]),
            ));
            assert(spec_updated(mid, md, spec_location_decryption(names@, md), spec_location_status(statuses@, md))
                == spec_updated(*old(state), md, spec_location_decryption(names@, md), spec_location_status(statuses@, md)));
        }
    }
}

} // verus!
