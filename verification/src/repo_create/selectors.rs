//! Reading the forms for new repositories.
use vstd::prelude::*;
use vstd::string::*;

use crate::dir_pickers::spec_selected_file_id;
use crate::paths::root_path;
use crate::remote_files::state::{RemoteFile, RemoteFilesLocation};
use crate::remote_files_dir_pickers::selectors::{select_create_dir_enabled, select_selected_file};
use crate::store::State;

use super::state::{RepoCreate, RepoCreateForm};

verus! {

pub fn select_repo_create<'a>(state: &'a State, create_id: u32) -> (r: Option<&'a RepoCreate>)
    ensures
        match r {
            Some(c) => state.repo_creates.creates@.contains_key(create_id)
                && state.repo_creates.creates@[create_id] == *c,
            None => !state.repo_creates.creates@.contains_key(create_id),
        },
{
    state.repo_creates.creates.get(&create_id)
}

/// The form with id `create_id`, while it has not created its repository.
pub open spec fn spec_form(state: State, create_id: u32) -> Option<RepoCreateForm> {
    if state.repo_creates.creates@.contains_key(create_id) {
        match state.repo_creates.creates@[create_id] {
            RepoCreate::Form(f) => Some(f),
            RepoCreate::Created(_) => None,
        }
    } else {
        None
    }
}

pub fn select_form<'a>(state: &'a State, create_id: u32) -> (r: Option<&'a RepoCreateForm>)
    ensures
        match r {
            Some(f) => spec_form(*state, create_id) == Some(*f),
            None => spec_form(*state, create_id) is None,
        },
{
    match select_repo_create(state, create_id) {
        Some(RepoCreate::Form(form)) => Some(form),
        _ => None,
    }
}

pub fn select_location<'a>(state: &'a State, create_id: u32) -> (r: Option<&'a RemoteFilesLocation>)
    ensures
        match spec_form(*state, create_id) {
            Some(f) => match r {
                Some(l) => f.location == Some(*l),
                None => f.location is None,
            },
            None => r is None,
        },
{
    match select_form(state, create_id) {
        Some(form) => match &form.location {
            Some(l) => Some(l),
            None => None,
        },
        None => None,
    }
}

/// The root of the primary mount, once it is known.
pub fn select_primary_mount_location(state: &State, create_id: u32) -> (r: Option<RemoteFilesLocation>)
    ensures
        match spec_form(*state, create_id) {
            Some(f) => match f.primary_mount_id {
                Some(m) => r matches Some(l) && l.mount_id@ == m@ && l.path@ == root_path(),
                None => r is None,
            },
            None => r is None,
        },
{
    match select_form(state, create_id) {
        Some(form) => match &form.primary_mount_id {
            Some(mount_id) => Some(
                RemoteFilesLocation {
                    mount_id: crate::strings::copy_str(mount_id.as_str()),
                    path: crate::paths::root(),
                },
            ),
            None => None,
        },
        None => None,
    }
}

/// The id of the folder picker of the location, while it is shown.
pub open spec fn spec_picker_id(state: State, create_id: u32) -> Option<u32> {
    match spec_form(state, create_id) {
        Some(f) => f.location_dir_picker_id,
        None => None,
    }
}

pub fn select_location_dir_picker_id(state: &State, create_id: u32) -> (r: Option<u32>)
    ensures
        r == spec_picker_id(*state, create_id),
{
    match select_form(state, create_id) {
        Some(form) => form.location_dir_picker_id,
        None => None,
    }
}

/// The file selected in the location's picker, when it is known.
pub open spec fn spec_picker_file(state: State, create_id: u32) -> Option<RemoteFile> {
    match spec_picker_id(state, create_id) {
        Some(pid) => match spec_selected_file_id(state, pid) {
            Some(id) => if state.remote_files.files@.contains_key(id) {
                Some(state.remote_files.files@[id])
            } else {
                None
            },
            None => None,
        },
        None => None,
    }
}

pub fn select_location_dir_picker_selected_file<'a>(state: &'a State, create_id: u32) -> (r: Option<
    &'a RemoteFile,
>)
    ensures
        match r {
            Some(f) => spec_picker_file(*state, create_id) == Some(*f),
            None => spec_picker_file(*state, create_id) is None,
        },
{
    match select_location_dir_picker_id(state, create_id) {
        Some(picker_id) => select_selected_file(state, picker_id),
        None => None,
    }
}

/// A location can be picked when a folder other than a mount's root is selected.
pub fn select_location_dir_picker_can_select(state: &State, create_id: u32) -> (r: bool)
    ensures
        r == (spec_picker_file(*state, create_id) matches Some(f) && f.path@ != root_path()),
{
    match select_location_dir_picker_selected_file(state, create_id) {
        Some(file) => !crate::paths::is_root(file.path.as_str()),
        None => false,
    }
}

pub fn select_location_dir_picker_create_dir_enabled(state: &State, create_id: u32) -> (r: bool)
    ensures
        r == (spec_picker_file(*state, create_id) is Some),
{
    match select_location_dir_picker_id(state, create_id) {
        Some(picker_id) => select_create_dir_enabled(state, picker_id),
        None => false,
    }
}

/// A password is valid when its UTF-8 encoding has at least 8 bytes.
pub open spec fn spec_password_valid(password: Seq<char>) -> bool {
    (vstd::utf8::encode_utf8(password).len() as usize) >= 8
}

pub fn is_password_valid(password: &str) -> (r: bool)
    ensures
        r == spec_password_valid(password@),
{
    password.len() >= 8
}

/// A password is valid exactly when its UTF-8 encoding has at least 8 bytes:
/// a shorter one is refused, and with one at least that long (and a location)
/// the repository can be created.
pub proof fn law_password_needs_eight_bytes(password: Seq<char>)
    requires
        vstd::utf8::encode_utf8(password).len() <= usize::MAX,
    ensures
        vstd::utf8::encode_utf8(password).len() < 8 ==> !spec_password_valid(password),
        vstd::utf8::encode_utf8(password).len() >= 8 ==> spec_password_valid(password),
{
}

/// A repository can be created once a location is set and the password is valid.
pub fn select_can_create(state: &State, create_id: u32) -> (r: bool)
    ensures
        r == (spec_form(*state, create_id) matches Some(f) && f.location is Some
            && spec_password_valid(f.password@)),
{
    match select_form(state, create_id) {
        Some(form) => form.location.is_some() && is_password_valid(form.password.as_str()),
        None => false,
    }
}

} // verus!
