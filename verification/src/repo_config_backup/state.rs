//! Backups of repository configurations, each behind a password check.
use vstd::prelude::*;

use crate::common::{NextId, Status};
use crate::keymap::KeyMap;
use crate::repos::{RepoConfig, RepoUnlockInfo, UnlockRepoError};

verus! {

/// What a backup form shows: its unlock form and, once generated, the config.
#[derive(Debug)]
pub struct RepoConfigBackupInfo<'a> {
    pub unlock_info: RepoUnlockInfo<'a>,
    pub config: Option<&'a RepoConfig>,
}

#[derive(Debug)]
pub struct RepoConfigBackup {
    pub repo_id: String,
    pub status: Status<UnlockRepoError>,
    pub config: Option<RepoConfig>,
}

#[derive(Debug)]
pub struct RepoConfigBackupsState {
    pub backups: KeyMap<u32, RepoConfigBackup>,
    pub next_id: NextId,
}

impl RepoConfigBackupsState {
    pub fn new() -> (r: Self)
        ensures
            r.backups@ == Map::<u32, RepoConfigBackup>::empty(),
            r.next_id.value == 0,
    {
        RepoConfigBackupsState { backups: KeyMap::new(), next_id: NextId::new() }
    }

    /// Forgets all backups; ids keep counting from where they were.
    pub fn reset(&mut self)
        ensures
            final(self).backups@ == Map::<u32, RepoConfigBackup>::empty(),
            final(self).next_id.value == old(self).next_id.value,
    {
        self.backups = KeyMap::new();
    }
}

} // verus!
