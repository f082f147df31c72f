//! Forms for creating repositories.
use vstd::prelude::*;

use crate::common::{NextId, Status};
use crate::keymap::KeyMap;
use crate::rclone::ParseConfigError;
use crate::remote_files::state::RemoteFilesLocation;
use crate::repos::{CreateRepoError, RepoCreated};

use super::errors::CreateLoadError;

verus! {

#[derive(Debug)]
pub struct RepoCreateForm {
    pub create_load_status: Status<CreateLoadError>,
    pub primary_mount_id: Option<String>,
    pub location: Option<RemoteFilesLocation>,
    pub location_dir_picker_id: Option<u32>,
    pub password: String,
    pub salt: Option<String>,
    pub fill_from_rclone_config_error: Option<ParseConfigError>,
    pub create_repo_status: Status<CreateRepoError>,
}

/// A form, or the repository it created.
#[derive(Debug)]
pub enum RepoCreate {
    Form(RepoCreateForm),
    Created(RepoCreated),
}

impl RepoCreate {
    pub fn form(&self) -> (r: Option<&RepoCreateForm>)
        ensures
            match self {
                RepoCreate::Form(f) => r == Some(f),
                RepoCreate::Created(_) => r is None,
            },
    {
        match self {
            RepoCreate::Form(form) => Some(form),
            RepoCreate::Created(_) => None,
        }
    }

    pub fn created(&self) -> (r: Option<&RepoCreated>)
        ensures
            match self {
                RepoCreate::Created(c) => r == Some(c),
                RepoCreate::Form(_) => r is None,
            },
    {
        match self {
            RepoCreate::Created(created) => Some(created),
            RepoCreate::Form(_) => None,
        }
    }
}

#[derive(Debug)]
pub struct RepoCreatesState {
    pub creates: KeyMap<u32, RepoCreate>,
    pub next_id: NextId,
}

impl RepoCreatesState {
    pub fn new() -> (r: Self)
        ensures
            r.creates@ == Map::<u32, RepoCreate>::empty(),
            r.next_id.value == 0,
    {
        RepoCreatesState { creates: KeyMap::new(), next_id: NextId::new() }
    }

    /// Forgets all forms; ids keep counting from where they were.
    pub fn reset(&mut self)
        ensures
            final(self).creates@ == Map::<u32, RepoCreate>::empty(),
            final(self).next_id.value == old(self).next_id.value,
    {
        self.creates = KeyMap::new();
    }
}

} // verus!
