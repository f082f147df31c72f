//! Reading the configuration backups.
use vstd::prelude::*;

use crate::repos::{select_repo_name, RepoUnlockInfo};
use crate::store::State;

use super::state::RepoConfigBackupInfo;

verus! {

/// The form of a backup: its repository, status and the repository's name,
/// and the config once generated.
pub fn select_info<'a>(state: &'a State, backup_id: u32) -> (r: Option<RepoConfigBackupInfo<'a>>)
    ensures
        r is Some <==> state.repo_config_backups.backups@.contains_key(backup_id),
        r matches Some(info) ==> {
            let b = state.repo_config_backups.backups@[backup_id];
            &&& *info.unlock_info.repo_id == b.repo_id
            &&& *info.unlock_info.status == b.status
            &&& match info.unlock_info.repo_name {
                Some(n) => state.repos.repos_by_id@.contains_key(b.repo_id@)
                    && state.repos.repos_by_id@[b.repo_id@].name == *n,
                None => !state.repos.repos_by_id@.contains_key(b.repo_id@),
            }
            &&& match info.config {
                Some(c) => b.config == Some(*c),
                None => b.config is None,
            }
        },
{
    match state.repo_config_backups.backups.get(&backup_id) {
        Some(backup) => Some(
            RepoConfigBackupInfo {
                unlock_info: RepoUnlockInfo {
                    repo_id: &backup.repo_id,
                    status: &backup.status,
                    repo_name: select_repo_name(state, &backup.repo_id),
                },
                config: match &backup.config {
                    Some(c) => Some(c),
                    None => None,
                },
            },
        ),
        None => None,
    }
}

} // verus!
