//! Reading the browsers of repository folders.
use vstd::prelude::*;

use crate::keymap::KeyMap;
use crate::remote_files::state::{copy_ids, id_views};
use crate::repo_files::selectors::{get_file_id, spec_repo_file_id};
use crate::store::State;

use super::state::RepoFilesBrowser;

verus! {

/// The ids of the children of the folder at `path` of a repository, in the
/// order the tree keeps them; none when the folder is not listed.
pub open spec fn spec_folder_file_ids(state: State, repo_id: Seq<char>, path: Seq<char>) -> Seq<Seq<char>> {
    let id = spec_repo_file_id(repo_id, path);
    if state.repo_files.children@.contains_key(id) {
        id_views(state.repo_files.children@[id]@)
    } else {
        Seq::empty()
    }
}

pub fn select_file_ids(state: &State, repo_id: &str, path: &str) -> (r: Vec<String>)
    ensures
        id_views(r@) == spec_folder_file_ids(*state, repo_id@, path@),
{
    let id = get_file_id(repo_id, path);
    match state.repo_files.children.get(&id) {
        Some(children) => copy_ids(children),
        None => {
            let r: Vec<String> = Vec::new();
            assert(id_views(r@) =~= Seq::<Seq<char>>::empty());
            r
        },
    }
}

pub open spec fn spec_browser(state: State, browser_id: u32) -> Option<RepoFilesBrowser> {
    if state.repo_files_browsers.browsers@.contains_key(browser_id) {
        Some(state.repo_files_browsers.browsers@[browser_id])
    } else {
        None
    }
}

pub fn select_browser<'a>(state: &'a State, browser_id: u32) -> (r: Option<&'a RepoFilesBrowser>)
    ensures
        match r {
            Some(b) => spec_browser(*state, browser_id) == Some(*b),
            None => spec_browser(*state, browser_id) is None,
        },
{
    state.repo_files_browsers.browsers.get(&browser_id)
}

} // verus!
