//! Changing the configuration backups.
use vstd::prelude::*;

use crate::common::{Event, Notify, Status};
use crate::repos::{RepoConfig, RepoNotFoundError, UnlockRepoError};
use crate::store::State;
use crate::strings::copy_str;

use super::state::RepoConfigBackup;

verus! {

/// Opens a backup form for a repository and returns its id.
pub fn create(state: &mut State, notify: &mut Notify, repo_id: String) -> (backup_id: u32)
    requires
        old(state).repo_config_backups.next_id.value < u32::MAX,
    ensures
        backup_id == old(state).repo_config_backups.next_id.value,
        final(state).repo_config_backups.next_id.value == backup_id + 1,
        final(state).repo_config_backups.backups@ == old(state).repo_config_backups.backups@.insert(
            backup_id,
            final(state).repo_config_backups.backups@[backup_id],
        ),
        final(state).repo_config_backups.backups@[backup_id].repo_id == repo_id,
        final(state).repo_config_backups.backups@[backup_id].status is Initial,
        final(state).repo_config_backups.backups@[backup_id].config is None,
        final(notify).events@ == old(notify).events@.push(Event::RepoConfigBackup),
{
    notify.notify(Event::RepoConfigBackup);
    let backup_id = state.repo_config_backups.next_id.next();
    let backup = RepoConfigBackup { repo_id, status: Status::Initial, config: None };
    state.repo_config_backups.backups.insert(backup_id, backup);
    backup_id
}

/// Marks a backup as generating and returns its repository; fails when the
/// backup is not there.
pub fn generating(state: &mut State, notify: &mut Notify, backup_id: u32) -> (r: Result<
    String,
    UnlockRepoError,
>)
    ensures
        !old(state).repo_config_backups.backups@.contains_key(backup_id) ==> (r matches Err(
            UnlockRepoError::RepoNotFound(_),
        )) && final(state).repo_config_backups.backups@ == old(state).repo_config_backups.backups@
            && final(notify).events@ == old(notify).events@,
        old(state).repo_config_backups.backups@.contains_key(backup_id) ==> {
            let ob = old(state).repo_config_backups.backups@[backup_id];
            let nb = final(state).repo_config_backups.backups@[backup_id];
            &&& r matches Ok(id) && id@ == ob.repo_id@
            &&& final(state).repo_config_backups.backups@ == old(state).repo_config_backups.backups@.insert(backup_id, nb)
            &&& nb.status == Status::<UnlockRepoError>::Loading { loaded: ob.status.spec_loaded() }
            &&& nb.repo_id == ob.repo_id
            &&& nb.config == ob.config
            &&& final(notify).events@ == old(notify).events@.push(Event::RepoConfigBackup)
        },
        final(state).repo_config_backups.next_id == old(state).repo_config_backups.next_id,
{
    let mut backup = match state.repo_config_backups.backups.remove(&backup_id) {
        Some(b) => b,
        None => {
            return Err(UnlockRepoError::RepoNotFound(RepoNotFoundError));
        },
    };
    notify.notify(Event::RepoConfigBackup);
    let loaded = backup.status.loaded();
    backup.status = Status::Loading { loaded };
    let repo_id = copy_str(backup.repo_id.as_str());
    state.repo_config_backups.backups.insert(backup_id, backup);
    proof {
        assert(state.repo_config_backups.backups@ =~= old(state).repo_config_backups.backups@.insert(
            backup_id,
            state.repo_config_backups.backups@[backup_id],
        ));
    }
    Ok(repo_id)
}

/// Records the outcome of generating a backup's config; fails when the
/// backup is not there.
pub fn generated(
    state: &mut State,
    notify: &mut Notify,
    backup_id: u32,
    res: Result<RepoConfig, UnlockRepoError>,
) -> (r: Result<(), UnlockRepoError>)
    ensures
        !old(state).repo_config_backups.backups@.contains_key(backup_id) ==> (r matches Err(
            UnlockRepoError::RepoNotFound(_),
        )) && final(state).repo_config_backups.backups@ == old(state).repo_config_backups.backups@
            && final(notify).events@ == old(notify).events@,
        old(state).repo_config_backups.backups@.contains_key(backup_id) ==> {
            let ob = old(state).repo_config_backups.backups@[backup_id];
            let nb = final(state).repo_config_backups.backups@[backup_id];
            &&& r is Ok
            &&& final(state).repo_config_backups.backups@ == old(state).repo_config_backups.backups@.insert(backup_id, nb)
            &&& nb.repo_id == ob.repo_id
            &&& match res {
                Ok(config) => nb.status is Loaded && nb.config == Some(config),
                Err(e) => nb.status == Status::<UnlockRepoError>::Error {
                    error: e,
                    loaded: ob.status.spec_loaded(),
                } && nb.config == ob.config,
            }
            &&& final(notify).events@ == old(notify).events@.push(Event::RepoConfigBackup)
        },
        final(state).repo_config_backups.next_id == old(state).repo_config_backups.next_id,
{
    let mut backup = match state.repo_config_backups.backups.remove(&backup_id) {
        Some(b) => b,
        None => {
            return Err(UnlockRepoError::RepoNotFound(RepoNotFoundError));
        },
    };
    notify.notify(Event::RepoConfigBackup);
    match res {
        Ok(config) => {
            backup.status = Status::Loaded;
            backup.config = Some(config);
        },
        Err(err) => {
            let loaded = backup.status.loaded();
            backup.status = Status::Error { error: err, loaded };
        },
    }
    state.repo_config_backups.backups.insert(backup_id, backup);
    proof {
        assert(state.repo_config_backups.backups@ =~= old(state).repo_config_backups.backups@.insert(
            backup_id,
            state.repo_config_backups.backups@[backup_id],
        ));
    }
    Ok(())
}

/// Closes a backup form.
pub fn destroy(state: &mut State, notify: &mut Notify, backup_id: u32)
    ensures
        final(state).repo_config_backups.backups@ == old(state).repo_config_backups.backups@.remove(
            backup_id,
        ),
        final(state).repo_config_backups.next_id == old(state).repo_config_backups.next_id,
        final(notify).events@ == old(notify).events@.push(Event::RepoConfigBackup),
{
    notify.notify(Event::RepoConfigBackup);
    state.repo_config_backups.backups.remove(&backup_id);
}

} // verus!
