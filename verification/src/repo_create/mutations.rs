//! Changing the forms for new repositories.
use vstd::prelude::*;
use vstd::string::*;

use crate::common::{Event, Notify, Status};
use crate::rclone::{Config, ParseConfigError};
use crate::remote::{ApiErrorCode, RemoteError};
use crate::remote_files::state::RemoteFilesLocation;
use crate::repos::{CreateRepoError, RepoCreated};
use crate::store::State;
use crate::strings::{concat, copy_str};

use super::errors::CreateLoadError;
use super::selectors::{select_can_create, spec_form, spec_password_valid};
use super::state::{RepoCreate, RepoCreateForm};

verus! {

/// The path of a new repository that the form proposes: "/My safe box".
pub open spec fn default_repo_path() -> Seq<char> {
    "/My safe box"@
}

/// A form that was just opened with the given salt: loading, empty, no picker.
pub open spec fn is_new_form(f: RepoCreateForm, salt: String) -> bool {
    &&& f.create_load_status == Status::<CreateLoadError>::Loading { loaded: false }
    &&& f.primary_mount_id is None
    &&& f.location is None
    &&& f.location_dir_picker_id is None
    &&& f.password@ == Seq::<char>::empty()
    &&& f.salt == Some(salt)
    &&& f.fill_from_rclone_config_error is None
    &&& f.create_repo_status is Initial
}

/// Opens a form for a new repository with the given salt and returns its id.
pub fn create(state: &mut State, notify: &mut Notify, salt: String) -> (create_id: u32)
    requires
        old(state).repo_creates.next_id.value < u32::MAX,
    ensures
        create_id == old(state).repo_creates.next_id.value,
        final(state).repo_creates.next_id.value == create_id + 1,
        final(state).repo_creates.creates@.dom() == old(state).repo_creates.creates@.dom().insert(
            create_id,
        ),
        forall|id: u32|
            id != create_id && #[trigger] old(state).repo_creates.creates@.contains_key(id) ==> final(state).repo_creates.creates@[id] == old(state).repo_creates.creates@[id],
        (spec_form(*final(state), create_id) matches Some(f) && is_new_form(f, salt)),
        final(notify).events@ == old(notify).events@.push(Event::RepoCreate),
{
    notify.notify(Event::RepoCreate);
    let create_id = state.repo_creates.next_id.next();
    let form = RepoCreateForm {
        create_load_status: Status::Loading { loaded: false },
        primary_mount_id: None,
        location: None,
        location_dir_picker_id: None,
        password: String::new(),
        salt: Some(salt),
        fill_from_rclone_config_error: None,
        create_repo_status: Status::Initial,
    };
    state.repo_creates.creates.insert(create_id, RepoCreate::Form(form));
    create_id
}

/// Takes the form out of the state, if `create_id` is a form.
fn take_form(state: &mut State, create_id: u32) -> (r: Option<RepoCreateForm>)
    ensures
        r == spec_form(*old(state), create_id),
        (r is Some) ==> final(state).repo_creates.creates@ == old(state).repo_creates.creates@.remove(create_id),
        (r is None) ==> (*final(state) == *old(state)),
        final(state).repo_creates.next_id == old(state).repo_creates.next_id,
        final(state).repos == old(state).repos,
        final(state).remote_files == old(state).remote_files,
{
    let is_form = match state.repo_creates.creates.get(&create_id) {
        Some(RepoCreate::Form(_)) => true,
        _ => false,
    };
    if !is_form {
        return None;
    }
    match state.repo_creates.creates.remove(&create_id) {
        Some(RepoCreate::Form(f)) => Some(f),
        _ => None,
    }
}

/// The forms after `create_id` became the form `f`.
pub open spec fn form_set(old_state: State, new_state: State, create_id: u32, f: RepoCreateForm) -> bool {
    &&& new_state.repo_creates.creates@ =~= old_state.repo_creates.creates@.insert(
        create_id,
        RepoCreate::Form(f),
    )
    &&& new_state.repo_creates.next_id == old_state.repo_creates.next_id
}

/// Records how loading the primary mount ended: its id, or that there is
/// none yet (the load goes on), or the error. When there are no repositories
/// yet, the location is proposed as "/My safe box" in the primary mount.
pub fn create_loaded(
    state: &mut State,
    notify: &mut Notify,
    create_id: u32,
    load_mount_res: Result<String, RemoteError>,
)
    ensures
        spec_form(*old(state), create_id) is None ==> *final(state) == *old(state) && final(notify).events@ == old(notify).events@,
        spec_form(*old(state), create_id) matches Some(of) ==> exists|nf: RepoCreateForm|
            {
                &&& #[trigger] form_set(*old(state), *final(state), create_id, nf)
                &&& match load_mount_res {
                    Ok(mid) => nf.create_load_status is Loaded && nf.primary_mount_id == Some(mid),
                    Err(e) => nf.primary_mount_id is None && if e.spec_is_api_error_code(
                        ApiErrorCode::NotFound,
                    ) {
                        nf.create_load_status == Status::<CreateLoadError>::Loading {
                            loaded: of.create_load_status.spec_loaded(),
                        }
                    } else {
                        nf.create_load_status == Status::<CreateLoadError>::Error {
                            error: CreateLoadError::LoadPrimaryMountError(e),
                            loaded: of.create_load_status.spec_loaded(),
                        }
                    },
                }
                &&& if old(state).repos.repos_by_id@ == Map::<Seq<char>, crate::repos::Repo>::empty()
                    && nf.primary_mount_id is Some {
                    nf.location matches Some(l) && l.mount_id@ == nf.primary_mount_id->0@
                        && l.path@ == default_repo_path()
                } else {
                    nf.location == of.location
                }
                &&& nf.password == of.password
                &&& nf.salt == of.salt
                &&& nf.location_dir_picker_id == of.location_dir_picker_id
                &&& nf.create_repo_status == of.create_repo_status
                &&& final(notify).events@ == old(notify).events@.push(Event::RepoCreate)
            },
        final(state).remote_files == old(state).remote_files,
{
    let no_existing_repos = state.repos.repos_by_id.is_empty();
    let mut form = match take_form(state, create_id) {
        Some(f) => f,
        None => {
            return;
        },
    };
    notify.notify(Event::RepoCreate);
    let loaded = form.create_load_status.loaded();
    match load_mount_res {
        Ok(mount_id) => {
            form.create_load_status = Status::Loaded;
            form.primary_mount_id = Some(mount_id);
        },
        Err(err) => {
            if err.is_api_error_code(ApiErrorCode::NotFound) {
                form.create_load_status = Status::Loading { loaded };
            } else {
                form.create_load_status = Status::Error {
                    error: CreateLoadError::LoadPrimaryMountError(err),
                    loaded,
                };
            }
            form.primary_mount_id = None;
        },
    }
    if no_existing_repos {
        match &form.primary_mount_id {
            Some(mount_id) => {
                let path = copy_str("/My safe box");
                form.location = Some(
                    RemoteFilesLocation { mount_id: copy_str(mount_id.as_str()), path },
                );
            },
            None => {},
        }
    }
    let ghost nf = form;
    state.repo_creates.creates.insert(create_id, RepoCreate::Form(form));
    assert(form_set(*old(state), *state, create_id, nf));
}

/// Closes a form.
pub fn destroy(state: &mut State, notify: &mut Notify, create_id: u32)
    ensures
        final(state).repo_creates.creates@ == old(state).repo_creates.creates@.remove(create_id),
        final(state).repo_creates.next_id == old(state).repo_creates.next_id,
        final(notify).events@ == old(notify).events@.push(Event::RepoCreate),
{
    notify.notify(Event::RepoCreate);
    state.repo_creates.creates.remove(&create_id);
}

/// Sets the location of the new repository; a shown create error goes away.
pub fn set_location(
    state: &mut State,
    notify: &mut Notify,
    create_id: u32,
    location: RemoteFilesLocation,
)
    ensures
        spec_form(*old(state), create_id) is None ==> *final(state) == *old(state) && final(notify).events@ == old(notify).events@,
        spec_form(*old(state), create_id) matches Some(of) ==> form_set(
            *old(state),
            *final(state),
            create_id,
            RepoCreateForm {
                location: Some(location),
                create_repo_status: Status::Initial,
                ..of
            },
        ) && final(notify).events@ == old(notify).events@.push(Event::RepoCreate),
{
    let mut form = match take_form(state, create_id) {
        Some(f) => f,
        None => {
            return;
        },
    };
    notify.notify(Event::RepoCreate);
    form.location = Some(location);
    form.create_repo_status = Status::Initial;
    state.repo_creates.creates.insert(create_id, RepoCreate::Form(form));
}

/// Shows the folder picker of the location.
pub fn location_dir_picker_show(
    state: &mut State,
    notify: &mut Notify,
    create_id: u32,
    location_dir_picker_id: u32,
)
    ensures
        spec_form(*old(state), create_id) is None ==> *final(state) == *old(state) && final(notify).events@ == old(notify).events@,
        spec_form(*old(state), create_id) matches Some(of) ==> form_set(
            *old(state),
            *final(state),
            create_id,
            RepoCreateForm { location_dir_picker_id: Some(location_dir_picker_id), ..of },
        ) && final(notify).events@ == old(notify).events@.push(Event::RepoCreate),
{
    let mut form = match take_form(state, create_id) {
        Some(f) => f,
        None => {
            return;
        },
    };
    notify.notify(Event::RepoCreate);
    form.location_dir_picker_id = Some(location_dir_picker_id);
    state.repo_creates.creates.insert(create_id, RepoCreate::Form(form));
}

/// Hides the folder picker of the location and returns its id, if it was shown.
pub fn location_dir_picker_cancel(state: &mut State, notify: &mut Notify, create_id: u32) -> (r:
    Option<u32>)
    ensures
        match spec_form(*old(state), create_id) {
            Some(of) => match of.location_dir_picker_id {
                Some(pid) => r == Some(pid) && form_set(
                    *old(state),
                    *final(state),
                    create_id,
                    RepoCreateForm { location_dir_picker_id: None, ..of },
                ) && final(notify).events@ == old(notify).events@.push(Event::RepoCreate),
                None => r is None && final(state).repo_creates.creates@ == old(state).repo_creates.creates@ && final(notify).events@ == old(notify).events@,
            },
            None => r is None && *final(state) == *old(state) && final(notify).events@ == old(notify).events@,
        },
{
    let mut form = match take_form(state, create_id) {
        Some(f) => f,
        None => {
            return None;
        },
    };
    let r = match form.location_dir_picker_id {
        Some(pid) => {
            notify.notify(Event::RepoCreate);
            form.location_dir_picker_id = None;
            Some(pid)
        },
        None => None,
    };
    state.repo_creates.creates.insert(create_id, RepoCreate::Form(form));
    proof {
        if r is None {
            assert(state.repo_creates.creates@ =~= old(state).repo_creates.creates@);
        }
    }
    r
}

/// Sets the password of the new repository.
pub fn set_password(state: &mut State, notify: &mut Notify, create_id: u32, password: String)
    ensures
        spec_form(*old(state), create_id) is None ==> *final(state) == *old(state) && final(notify).events@ == old(notify).events@,
        spec_form(*old(state), create_id) matches Some(of) ==> form_set(
            *old(state),
            *final(state),
            create_id,
            RepoCreateForm { password, ..of },
        ) && final(notify).events@ == old(notify).events@.push(Event::RepoCreate),
{
    let mut form = match take_form(state, create_id) {
        Some(f) => f,
        None => {
            return;
        },
    };
    notify.notify(Event::RepoCreate);
    form.password = password;
    state.repo_creates.creates.insert(create_id, RepoCreate::Form(form));
}

/// Once a form has a location, setting its password allows creating the
/// repository exactly when the password's UTF-8 encoding has at least 8 bytes.
pub proof fn law_password_decides_creation(
    s0: State,
    s1: State,
    create_id: u32,
    of: RepoCreateForm,
    password: String,
)
    requires
        spec_form(s0, create_id) == Some(of),
        of.location is Some,
        form_set(s0, s1, create_id, RepoCreateForm { password, ..of }),
        vstd::utf8::encode_utf8(password@).len() <= usize::MAX,
    ensures
        (spec_form(s1, create_id) matches Some(f) && f.location is Some && spec_password_valid(f.password@))
            <==> vstd::utf8::encode_utf8(password@).len() >= 8,
{
    assert(s1.repo_creates.creates@.contains_key(create_id));
}

/// Sets the salt of the new repository.
pub fn set_salt(state: &mut State, notify: &mut Notify, create_id: u32, salt: Option<String>)
    ensures
        spec_form(*old(state), create_id) is None ==> *final(state) == *old(state) && final(notify).events@ == old(notify).events@,
        spec_form(*old(state), create_id) matches Some(of) ==> form_set(
            *old(state),
            *final(state),
            create_id,
            RepoCreateForm { salt, ..of },
        ) && final(notify).events@ == old(notify).events@.push(Event::RepoCreate),
{
    let mut form = match take_form(state, create_id) {
        Some(f) => f,
        None => {
            return;
        },
    };
    notify.notify(Event::RepoCreate);
    form.salt = salt;
    state.repo_creates.creates.insert(create_id, RepoCreate::Form(form));
}

/// Fills the form from an rclone config: the path (in the primary mount,
/// once it is known), the password and the salt; or records why the config
/// could not be read.
pub fn fill_from_rclone_config(
    state: &mut State,
    notify: &mut Notify,
    create_id: u32,
    config: Result<Config, ParseConfigError>,
)
    ensures
        spec_form(*old(state), create_id) is None ==> *final(state) == *old(state) && final(notify).events@ == old(notify).events@,
        spec_form(*old(state), create_id) matches Some(of) ==> exists|nf: RepoCreateForm|
            {
                &&& #[trigger] form_set(*old(state), *final(state), create_id, nf)
                &&& match config {
                    Ok(c) => {
                        &&& match of.primary_mount_id {
                            Some(m) => nf.location matches Some(l) && l.mount_id@ == m@ && l.path
                                == c.path,
                            None => nf.location == of.location,
                        }
                        &&& nf.password == c.password
                        &&& nf.salt == c.salt
                        &&& nf.fill_from_rclone_config_error is None
                    },
                    Err(e) => nf == RepoCreateForm {
                        fill_from_rclone_config_error: Some(e),
                        ..of
                    },
                }
                &&& nf.primary_mount_id == of.primary_mount_id
                &&& nf.create_repo_status == of.create_repo_status
                &&& final(notify).events@ == old(notify).events@.push(Event::RepoCreate)
            },
{
    let mut form = match take_form(state, create_id) {
        Some(f) => f,
        None => {
            return;
        },
    };
    notify.notify(Event::RepoCreate);
    match config {
        Ok(config) => {
            let Config { name: _, path, password, salt } = config;
            match &form.primary_mount_id {
                Some(mount_id) => {
                    form.location = Some(
                        RemoteFilesLocation { mount_id: copy_str(mount_id.as_str()), path },
                    );
                },
                None => {},
            }
            form.password = password;
            form.salt = salt;
            form.fill_from_rclone_config_error = None;
        },
        Err(err) => {
            form.fill_from_rclone_config_error = Some(err);
        },
    }
    let ghost nf = form;
    state.repo_creates.creates.insert(create_id, RepoCreate::Form(form));
    assert(form_set(*old(state), *state, create_id, nf));
}

fn clone_load_status(s: &Status<CreateLoadError>) -> (r: Status<CreateLoadError>)
    ensures
        r == *s,
{
    match s {
        Status::Initial => Status::Initial,
        Status::Loading { loaded } => Status::Loading { loaded: *loaded },
        Status::Loaded => Status::Loaded,
        Status::Error { error, loaded } => Status::Error { error: error.clone(), loaded: *loaded },
    }
}

fn clone_create_status(s: &Status<CreateRepoError>) -> (r: Status<CreateRepoError>)
    ensures
        r == *s,
{
    match s {
        Status::Initial => Status::Initial,
        Status::Loading { loaded } => Status::Loading { loaded: *loaded },
        Status::Loaded => Status::Loaded,
        Status::Error { error, loaded } => Status::Error { error: error.clone(), loaded: *loaded },
    }
}

fn clone_form(f: &RepoCreateForm) -> (r: RepoCreateForm)
    ensures
        r == *f,
{
    RepoCreateForm {
        create_load_status: clone_load_status(&f.create_load_status),
        primary_mount_id: match &f.primary_mount_id {
            Some(m) => Some(m.clone()),
            None => None,
        },
        location: match &f.location {
            Some(l) => Some(l.clone()),
            None => None,
        },
        location_dir_picker_id: f.location_dir_picker_id,
        password: f.password.clone(),
        salt: match &f.salt {
            Some(s) => Some(s.clone()),
            None => None,
        },
        fill_from_rclone_config_error: match &f.fill_from_rclone_config_error {
            Some(e) => Some(e.clone()),
            None => None,
        },
        create_repo_status: clone_create_status(&f.create_repo_status),
    }
}

/// Starts creating the repository when the form allows it (a location and
/// a valid password) and hands back the form as it is then.
pub fn repo_creating(state: &mut State, notify: &mut Notify, create_id: u32) -> (r: Option<
    RepoCreateForm,
>)
    ensures
        match spec_form(*old(state), create_id) {
            Some(of) => if of.location is Some && spec_password_valid(of.password@) {
                let nf = RepoCreateForm {
                    create_repo_status: Status::Loading {
                        loaded: of.create_repo_status.spec_loaded(),
                    },
                    ..of
                };
                &&& r == Some(nf)
                &&& form_set(*old(state), *final(state), create_id, nf)
                &&& final(notify).events@ == old(notify).events@.push(Event::RepoCreate)
            } else {
                r is None && *final(state) == *old(state) && final(notify).events@ == old(notify).events@
            },
            None => r is None && *final(state) == *old(state) && final(notify).events@ == old(notify).events@,
        },
{
    if !select_can_create(state, create_id) {
        return None;
    }
    let mut form = match take_form(state, create_id) {
        Some(f) => f,
        None => {
            return None;
        },
    };
    notify.notify(Event::RepoCreate);
    let loaded = form.create_repo_status.loaded();
    form.create_repo_status = Status::Loading { loaded };
    let r = clone_form(&form);
    state.repo_creates.creates.insert(create_id, RepoCreate::Form(form));
    Some(r)
}

/// Records how creating the repository ended: the form becomes the created
/// repository, or shows the error.
pub fn repo_created(
    state: &mut State,
    notify: &mut Notify,
    create_id: u32,
    res: Result<RepoCreated, CreateRepoError>,
)
    ensures
        final(notify).events@ == old(notify).events@.push(Event::RepoCreate),
        final(state).repo_creates.next_id == old(state).repo_creates.next_id,
        match res {
            Ok(created) => final(state).repo_creates.creates@ == old(state).repo_creates.creates@.insert(create_id, RepoCreate::Created(created)),
            Err(e) => match spec_form(*old(state), create_id) {
                Some(of) => form_set(
                    *old(state),
                    *final(state),
                    create_id,
                    RepoCreateForm {
                        create_repo_status: Status::Error {
                            error: e,
                            loaded: of.create_repo_status.spec_loaded(),
                        },
                        ..of
                    },
                ),
                None => final(state).repo_creates.creates@ == old(state).repo_creates.creates@,
            },
        },
{
    notify.notify(Event::RepoCreate);
    match res {
        Ok(created) => {
            state.repo_creates.creates.insert(create_id, RepoCreate::Created(created));
        },
        Err(err) => {
            match take_form(state, create_id) {
                Some(mut form) => {
                    let loaded = form.create_repo_status.loaded();
                    form.create_repo_status = Status::Error { error: err, loaded };
                    state.repo_creates.creates.insert(create_id, RepoCreate::Form(form));
                },
                None => {},
            }
        },
    }
}

} // verus!
