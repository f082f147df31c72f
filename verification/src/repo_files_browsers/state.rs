//! Browsers of the folders of repositories: their location, the sorted ids
//! of the files they list, and the selection.
use vstd::prelude::*;

use crate::common::{NextId, SortDirection, SortGrouping, Status};
use crate::keymap::KeyMap;
use crate::repo_files::errors::LoadFilesError;
use crate::repo_files::state::{RepoFile, RepoFilesBreadcrumb, RepoFilesSort, RepoFilesSortField};
use crate::repos::RepoInfoError;
use crate::selection::{Selection, SelectionSummary};

verus! {

/// A listed file and whether it is selected.
#[derive(Debug)]
pub struct RepoFilesBrowserItem<'a> {
    pub file: &'a RepoFile,
    pub is_selected: bool,
}

/// What a browser shows.
#[derive(Debug)]
pub struct RepoFilesBrowserInfo<'a> {
    pub repo_id: Option<&'a String>,
    pub path: Option<&'a String>,
    pub selection_summary: SelectionSummary,
    pub sort: RepoFilesSort,
    pub status: Status<LoadFilesError>,
    pub title: Option<String>,
    pub total_count: usize,
    pub total_size: i64,
    pub selected_count: usize,
    pub selected_size: i64,
    pub selected_file: Option<&'a RepoFile>,
    pub can_download_selected: bool,
    pub can_copy_selected: bool,
    pub can_move_selected: bool,
    pub can_delete_selected: bool,
    pub items: Vec<RepoFilesBrowserItem<'a>>,
    pub breadcrumbs: Option<&'a [RepoFilesBreadcrumb]>,
    pub repo_status: Status<RepoInfoError>,
    pub is_locked: bool,
}

/// The folder that a browser shows: a repository and an encrypted path.
#[derive(Debug)]
pub struct RepoFilesBrowserLocation {
    pub repo_id: String,
    pub path: String,
}

#[derive(Debug)]
pub struct RepoFilesBrowserOptions {
    /// A name to select once the folder lists it.
    pub select_name: Option<String>,
}

#[derive(Debug)]
pub struct RepoFilesBrowser {
    pub id: u32,
    pub options: RepoFilesBrowserOptions,
    pub location: Option<RepoFilesBrowserLocation>,
    pub status: Status<LoadFilesError>,
    pub breadcrumbs: Option<Vec<RepoFilesBreadcrumb>>,
    pub file_ids: Vec<String>,
    pub selection: Selection,
    pub sort: RepoFilesSort,
    pub repo_status: Status<RepoInfoError>,
    pub is_locked: bool,
}

#[derive(Debug)]
pub struct RepoFilesBrowsersState {
    pub browsers: KeyMap<u32, RepoFilesBrowser>,
    pub next_id: NextId,
    /// The sort that new browsers start with: the last one chosen.
    pub last_sort: RepoFilesSort,
}

/// Names ascending, folders first.
pub open spec fn spec_default_sort() -> RepoFilesSort {
    RepoFilesSort { field: RepoFilesSortField::Name, direction: SortDirection::Asc, grouping: SortGrouping::DirsFirst }
}

pub fn default_sort() -> (r: RepoFilesSort)
    ensures
        r == spec_default_sort(),
{
    RepoFilesSort { field: RepoFilesSortField::Name, direction: SortDirection::Asc, grouping: SortGrouping::DirsFirst }
}

impl RepoFilesBrowsersState {
    pub fn new() -> (r: Self)
        ensures
            r.browsers@ == Map::<u32, RepoFilesBrowser>::empty(),
            r.next_id.value == 0,
            r.last_sort == spec_default_sort(),
    {
        RepoFilesBrowsersState { browsers: KeyMap::new(), next_id: NextId::new(), last_sort: default_sort() }
    }

    /// Forgets all browsers and the last sort; ids keep counting.
    pub fn reset(&mut self)
        ensures
            final(self).browsers@ == Map::<u32, RepoFilesBrowser>::empty(),
            final(self).next_id.value == old(self).next_id.value,
            final(self).last_sort == spec_default_sort(),
    {
        self.browsers = KeyMap::new();
        self.last_sort = default_sort();
    }
}

} // verus!
