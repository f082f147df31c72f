//! Browsers of the remote storage: where each one is and what it lists.
use vstd::prelude::*;

use crate::common::{NextId, Status};
use crate::keymap::KeyMap;
use crate::remote::{MountOrigin, RemoteError};
use crate::remote_files::state::{RemoteFileType, RemoteFilesSort};
use crate::selection::{Selection, SelectionSummary};

verus! {

/// The id of an item of a browser.
#[derive(Debug)]
pub struct RemoteFilesBrowserItemId(pub String);

/// What an item of a browser stands for.
#[derive(Debug)]
pub enum RemoteFilesBrowserItemType {
    Bookmarks,
    Place { origin: MountOrigin },
    File { item_id_prefix: String, typ: RemoteFileType },
    Shared,
}

/// An item of a browser's list.
#[derive(Debug)]
pub struct RemoteFilesBrowserItem {
    pub id: String,
    pub mount_id: Option<String>,
    pub path: Option<String>,
    pub name: String,
    pub name_lower: String,
    pub typ: RemoteFilesBrowserItemType,
    pub size: Option<i64>,
    pub modified: Option<i64>,
}

/// An item and whether it is selected.
#[derive(Debug)]
pub struct RemoteFilesBrowserItemInfo<'a> {
    pub item: &'a RemoteFilesBrowserItem,
    pub is_selected: bool,
}

/// What a browser shows above its list.
#[derive(Debug)]
pub struct RemoteFilesBrowserInfo<'a> {
    pub mount_id: Option<String>,
    pub path: Option<String>,
    pub selection_summary: SelectionSummary,
    pub sort: RemoteFilesSort,
    pub status: &'a Status<RemoteError>,
    pub title: Option<String>,
    pub total_count: usize,
    pub total_size: i64,
    pub selected_count: usize,
    pub selected_size: i64,
    pub selected_item: Option<&'a RemoteFilesBrowserItem>,
    pub can_create_dir: bool,
}

/// A folder of a mount, reached through a list whose item ids start with `item_id_prefix`.
#[derive(Debug)]
pub struct RemoteFilesBrowserLocationFiles {
    pub item_id_prefix: String,
    pub mount_id: String,
    pub path: String,
}

/// Where a browser is.
#[derive(Debug)]
pub enum RemoteFilesBrowserLocation {
    Home,
    Bookmarks,
    Files(RemoteFilesBrowserLocationFiles),
    Shared,
}

/// Two locations are the same place: the same variant and, for folders,
/// the same mount and path.
pub open spec fn same_location(a: RemoteFilesBrowserLocation, b: RemoteFilesBrowserLocation) -> bool {
    match (a, b) {
        (RemoteFilesBrowserLocation::Home, RemoteFilesBrowserLocation::Home) => true,
        (RemoteFilesBrowserLocation::Bookmarks, RemoteFilesBrowserLocation::Bookmarks) => true,
        (RemoteFilesBrowserLocation::Shared, RemoteFilesBrowserLocation::Shared) => true,
        (RemoteFilesBrowserLocation::Files(x), RemoteFilesBrowserLocation::Files(y)) => x.mount_id@
            == y.mount_id@ && x.path@ == y.path@,
        _ => false,
    }
}

/// Whether two locations are the same place.
pub fn location_eq(a: &RemoteFilesBrowserLocation, b: &RemoteFilesBrowserLocation) -> (r: bool)
    ensures
        r == same_location(*a, *b),
{
    match (a, b) {
        (RemoteFilesBrowserLocation::Home, RemoteFilesBrowserLocation::Home) => true,
        (RemoteFilesBrowserLocation::Bookmarks, RemoteFilesBrowserLocation::Bookmarks) => true,
        (RemoteFilesBrowserLocation::Shared, RemoteFilesBrowserLocation::Shared) => true,
        (RemoteFilesBrowserLocation::Files(x), RemoteFilesBrowserLocation::Files(y)) => {
            crate::strings::str_eq(x.mount_id.as_str(), y.mount_id.as_str())
                && crate::strings::str_eq(x.path.as_str(), y.path.as_str())
        },
        _ => false,
    }
}

/// How a browser was opened: a name to select once it is listed, and
/// whether only hosted devices are listed at home.
#[derive(Debug)]
pub struct RemoteFilesBrowserOptions {
    pub select_name: Option<String>,
    pub only_hosted_devices: bool,
}

#[derive(Debug)]
pub struct RemoteFilesBrowser {
    pub options: RemoteFilesBrowserOptions,
    pub location: Option<RemoteFilesBrowserLocation>,
    pub status: Status<RemoteError>,
    pub items: Vec<RemoteFilesBrowserItem>,
    pub selection: Selection,
    pub sort: RemoteFilesSort,
}

/// One step of the path shown above a browser.
#[derive(Debug)]
pub struct RemoteFilesBrowserBreadcrumb {
    pub id: String,
    pub mount_id: Option<String>,
    pub path: Option<String>,
    pub name: String,
    pub last: bool,
}

#[derive(Debug)]
pub struct RemoteFilesBrowsersState {
    pub browsers: KeyMap<u32, RemoteFilesBrowser>,
    pub next_id: NextId,
}

impl RemoteFilesBrowsersState {
    pub fn new() -> (r: Self)
        ensures
            r.browsers@ == Map::<u32, RemoteFilesBrowser>::empty(),
            r.next_id.value == 0,
    {
        RemoteFilesBrowsersState { browsers: KeyMap::new(), next_id: NextId::new() }
    }

    /// Forgets all browsers; ids keep counting from where they were.
    pub fn reset(&mut self)
        ensures
            final(self).browsers@ == Map::<u32, RemoteFilesBrowser>::empty(),
            final(self).next_id.value == old(self).next_id.value,
    {
        self.browsers = KeyMap::new();
    }
}

} // verus!
