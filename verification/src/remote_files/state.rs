//! The files and mounts of the storage service that the client has seen.
use vstd::prelude::*;

use crate::common::SortDirection;
use crate::keymap::KeyMap;
use crate::remote::{MountOrigin, MountType};

verus! {

/// Folder or file. Folders sort before files.
#[derive(Clone, Copy, Debug, PartialEq, Eq, Structural)]
pub enum RemoteFileType {
    Dir,
    File,
}

/// A mount (a storage place) with its lower-cased name for sorting.
#[derive(Debug)]
pub struct Mount {
    pub id: String,
    pub name: String,
    pub name_lower: String,
    pub typ: MountType,
    pub origin: MountOrigin,
    pub online: bool,
    pub is_primary: bool,
}

/// A file or folder of a mount, stored under its id "mount_id:path".
#[derive(Debug)]
pub struct RemoteFile {
    pub id: String,
    pub mount_id: String,
    pub path: String,
    pub name: String,
    pub name_lower: String,
    pub typ: RemoteFileType,
    pub size: Option<i64>,
    pub modified: Option<i64>,
    pub hash: Option<String>,
    pub tags: KeyMap<String, Vec<String>>,
}

/// One step of the path from a mount's root to a folder.
#[derive(Debug)]
pub struct RemoteFilesBreadcrumb {
    pub id: String,
    pub mount_id: String,
    pub path: String,
    pub name: String,
    pub last: bool,
}

/// A folder of a mount.
#[derive(Debug)]
pub struct RemoteFilesLocation {
    pub mount_id: String,
    pub path: String,
}

impl Clone for RemoteFilesLocation {
    fn clone(&self) -> (r: Self)
        ensures
            r == *self,
    {
        RemoteFilesLocation { mount_id: self.mount_id.clone(), path: self.path.clone() }
    }
}

#[derive(Clone, Copy, Debug, PartialEq, Eq, Structural)]
pub enum RemoteFilesSortField {
    Name,
    Size,
    Modified,
}

#[derive(Clone, Copy, Debug, PartialEq, Eq, Structural)]
pub struct RemoteFilesSort {
    pub field: RemoteFilesSortField,
    pub direction: SortDirection,
}

impl RemoteFilesSort {
    /// Sorting by name, ascending.
    pub fn default_sort() -> (r: Self)
        ensures
            r.field == RemoteFilesSortField::Name,
            r.direction == SortDirection::Asc,
    {
        RemoteFilesSort { field: RemoteFilesSortField::Name, direction: SortDirection::Asc }
    }
}

/// Everything known about the remote storage.
#[derive(Debug)]
pub struct RemoteFilesState {
    pub mounts: KeyMap<String, Mount>,
    pub files: KeyMap<String, RemoteFile>,
    /// Child ids of the folders whose listing was loaded, in display order.
    pub children: KeyMap<String, Vec<String>>,
    /// Ids of the folders whose listing was loaded.
    pub loaded_roots: KeyMap<String, ()>,
    /// The recently changed files under a folder, by the folder's id.
    pub recent: KeyMap<String, Vec<String>>,
    pub bookmark_file_ids: Vec<String>,
    pub shared_file_ids: Vec<String>,
    pub place_mount_ids: Vec<String>,
    pub online_place_mount_ids: Vec<String>,
    pub places_loaded: bool,
    pub bookmarks_loaded: bool,
    pub shared_files_loaded: bool,
}

impl RemoteFilesState {
    /// A state that knows nothing yet.
    pub fn new() -> (r: Self)
        ensures
            r.mounts@ == Map::<Seq<char>, Mount>::empty(),
            r.files@ == Map::<Seq<char>, RemoteFile>::empty(),
            r.children@ == Map::<Seq<char>, Vec<String>>::empty(),
            r.loaded_roots@ == Map::<Seq<char>, ()>::empty(),
            r.recent@ == Map::<Seq<char>, Vec<String>>::empty(),
            r.bookmark_file_ids@ == Seq::<String>::empty(),
            r.shared_file_ids@ == Seq::<String>::empty(),
            r.place_mount_ids@ == Seq::<String>::empty(),
            r.online_place_mount_ids@ == Seq::<String>::empty(),
            !r.places_loaded,
            !r.bookmarks_loaded,
            !r.shared_files_loaded,
    {
        RemoteFilesState {
            mounts: KeyMap::new(),
            files: KeyMap::new(),
            children: KeyMap::new(),
            loaded_roots: KeyMap::new(),
            recent: KeyMap::new(),
            bookmark_file_ids: Vec::new(),
            shared_file_ids: Vec::new(),
            place_mount_ids: Vec::new(),
            online_place_mount_ids: Vec::new(),
            places_loaded: false,
            bookmarks_loaded: false,
            shared_files_loaded: false,
        }
    }
}

/// What one mutation changed of the remote files, by mount id and path.
#[derive(Debug)]
pub struct RemoteFilesMutationState {
    pub loaded_roots: Vec<(String, String)>,
    pub created_files: Vec<(String, String)>,
    pub removed_files: Vec<(String, String)>,
    /// Each moved file: its mount id, its old path and its new path.
    pub moved_files: Vec<(String, String, String)>,
    pub tags_updated: Vec<(String, String)>,
    pub loaded_recent: Vec<(String, String)>,
}

impl RemoteFilesMutationState {
    /// A mutation that changed nothing.
    pub fn new() -> (r: Self)
        ensures
            r.loaded_roots@.len() == 0,
            r.created_files@.len() == 0,
            r.removed_files@.len() == 0,
            r.moved_files@.len() == 0,
            r.tags_updated@.len() == 0,
            r.loaded_recent@.len() == 0,
    {
        RemoteFilesMutationState {
            loaded_roots: Vec::new(),
            created_files: Vec::new(),
            removed_files: Vec::new(),
            moved_files: Vec::new(),
            tags_updated: Vec::new(),
            loaded_recent: Vec::new(),
        }
    }
}

/// The views of a list of ids.
pub open spec fn id_views(ids: Seq<String>) -> Seq<Seq<char>> {
    ids.map_values(|s: String| s@)
}

/// A copy of a list of ids.
pub fn copy_ids(ids: &Vec<String>) -> (r: Vec<String>)
    ensures
        id_views(r@) == id_views(ids@),
{
    let mut r: Vec<String> = Vec::new();
    let n = ids.len();
    let mut i: usize = 0;
    while i < n
        invariant
            n == ids.len(),
            i <= n,
            id_views(r@) == id_views(ids@).take(i as int),
        decreases n - i,
    {
        let ghost before = r@;
        r.push(crate::strings::copy_str(ids[i].as_str()));
        proof {
            assert(id_views(r@) =~= id_views(before).push(ids@[i as int]@));
            assert(id_views(ids@).take(i + 1) =~= id_views(ids@).take(i as int).push(
                ids@[i as int]@,
            ));
        }
        i = i + 1;
    }
    proof {
        assert(id_views(ids@).take(n as int) =~= id_views(ids@));
    }
    r
}

} // verus!
