//! The entries of a ZIP archive of repository files, read from the storage.
use vstd::prelude::*;

use crate::repo_files::state::RepoFileType;

verus! {

/// A date and time as a ZIP archive stores it, in UTC.
#[derive(Clone, Copy, Debug, PartialEq, Eq, Structural)]
pub struct ZipDateTime {
    pub year: i32,
    pub month: u32,
    pub day: u32,
    pub hour: u32,
    pub minute: u32,
    pub second: u32,
}

/// The earliest time that the format holds, used for earlier or unknown times.
pub open spec fn spec_default_zip_date_time() -> ZipDateTime {
    ZipDateTime { year: 1980, month: 0, day: 0, hour: 0, minute: 0, second: 0 }
}

impl ZipDateTime {
    pub fn default_time() -> (r: ZipDateTime)
        ensures
            r == spec_default_zip_date_time(),
    {
        ZipDateTime { year: 1980, month: 0, day: 0, hour: 0, minute: 0, second: 0 }
    }
}

/// A file or folder to put into an archive, and where to read it.
#[derive(Debug)]
pub struct RemoteZipEntry {
    pub mount_id: String,
    pub remote_path: String,
    pub repo_id: String,
    /// The path relative to the archive's root, without a leading '/';
    /// folders end with '/'.
    pub filename: String,
    pub modified: ZipDateTime,
    pub typ: RepoFileType,
    pub size: i64,
}

} // verus!
