//! Naming the archive in which several repository files are downloaded.
use vstd::prelude::*;
use vstd::string::*;

use crate::keymap::KeyMap;
use crate::paths::{parent_path, root_path, spec_parent_path};
use crate::remote_files::state::id_views;
use crate::repo_files::selectors::{get_file_id, select_file, spec_repo_file_id};
use crate::repo_files::state::{RepoFile, RepoFileName, RepoFilePath};
use crate::selection::id_set;
use crate::store::State;
use crate::strings::{concat, concat3, copy_str, spec_nat_decimal, usize_to_string};

verus! {

/// The ids of the parents of the files whose paths were decrypted, in order.
pub open spec fn spec_parent_ids(files: Seq<RepoFile>) -> Seq<Seq<char>>
    decreases files.len(),
{
    if files.len() == 0 {
        Seq::empty()
    } else {
        let rest = spec_parent_ids(files.drop_last());
        let f = files.last();
        match f.path {
            RepoFilePath::Decrypted { path } => match spec_parent_path(path@) {
                Some(pp) => rest.push(spec_repo_file_id(f.repo_id@, pp)),
                None => rest,
            },
            RepoFilePath::DecryptError { .. } => rest,
        }
    }
}

/// The one parent of all the files, when they share one.
pub open spec fn spec_single_parent(files: Seq<RepoFile>) -> Option<Seq<char>> {
    let ids = spec_parent_ids(files);
    if ids.len() > 0 && forall|i: int| 0 <= i < ids.len() ==> #[trigger] ids[i] == ids[0] {
        Some(ids[0])
    } else {
        None
    }
}

/// The name of a listed folder: the repository's name at the root, else its
/// decrypted name.
pub open spec fn spec_parent_name(state: State, parent_id: Seq<char>) -> Option<Seq<char>> {
    if state.repo_files.files@.contains_key(parent_id) {
        let parent = state.repo_files.files@[parent_id];
        if parent.path matches RepoFilePath::Decrypted { path } && path@ == root_path() {
            if state.repos.repos_by_id@.contains_key(parent.repo_id@) {
                Some(state.repos.repos_by_id@[parent.repo_id@].name@)
            } else {
                None
            }
        } else {
            match parent.name {
                RepoFileName::Decrypted { name, .. } => Some(name@),
                RepoFileName::DecryptError { .. } => None,
            }
        }
    } else {
        None
    }
}

/// Whether the files are exactly the listed children of the folder.
pub open spec fn spec_is_all_children(state: State, parent_id: Seq<char>, files: Seq<RepoFile>) -> bool {
    state.repo_files.children@.contains_key(parent_id) && id_views(state.repo_files.children@[parent_id]@).to_set()
        == files.map_values(|f: RepoFile| f.id@).to_set()
}

/// The name of the archive of `files`: the name of their common folder when
/// they are all of its children, with the count of files when they are some
/// of them, and only the count otherwise.
pub open spec fn spec_zip_name(state: State, files: Seq<RepoFile>) -> Seq<char> {
    let count = spec_nat_decimal(files.len());
    match spec_single_parent(files) {
        Some(p) => match spec_parent_name(state, p) {
            Some(name) => if spec_is_all_children(state, p, files) {
                name + ".zip"@
            } else {
                name + "-"@ + count + "-selected-items.zip"@
            },
            None => count + "-selected-items.zip"@,
        },
        None => count + "-selected-items.zip"@,
    }
}

fn parent_ids(files: &Vec<RepoFile>) -> (r: Vec<String>)
    ensures
        id_views(r@) == spec_parent_ids(files@),
{
    let mut r: Vec<String> = Vec::new();
    let n = files.len();
    let mut i: usize = 0;
    while i < n
        invariant
            n == files@.len(),
            i <= n,
            id_views(r@) == spec_parent_ids(files@.take(i as int)),
        decreases n - i,
    {
        let ghost before = r@;
        proof {
            assert(files@.take(i + 1).drop_last() =~= files@.take(i as int));
        }
        match &files[i].path {
            RepoFilePath::Decrypted { path } => match parent_path(path.as_str()) {
                Some(pp) => {
                    r.push(get_file_id(files[i].repo_id.as_str(), pp.as_str()));
                    assert(id_views(r@) =~= id_views(before).push(r@.last()@));
                },
                None => {},
            },
            RepoFilePath::DecryptError { .. } => {},
        }
        i = i + 1;
    }
    assert(files@.take(n as int) =~= files@);
    r
}

fn file_ids(files: &Vec<RepoFile>) -> (r: Vec<String>)
    ensures
        id_views(r@) == files@.map_values(|f: RepoFile| f.id@),
{
    let mut r: Vec<String> = Vec::new();
    let n = files.len();
    let mut i: usize = 0;
    while i < n
        invariant
            n == files@.len(),
            i <= n,
            id_views(r@) == files@.take(i as int).map_values(|f: RepoFile| f.id@),
        decreases n - i,
    {
        let ghost before = r@;
        r.push(copy_str(files[i].id.as_str()));
        proof {
            assert(id_views(r@) =~= id_views(before).push(files@[i as int].id@));
            assert(files@.take(i + 1).map_values(|f: RepoFile| f.id@) =~= files@.take(i as int).map_values(
                |f: RepoFile| f.id@,
            ).push(files@[i as int].id@));
        }
        i = i + 1;
    }
    assert(files@.take(n as int) =~= files@);
    r
}

fn all_same(ids: &Vec<String>) -> (r: bool)
    ensures
        r == (ids@.len() > 0 && forall|i: int| 0 <= i < ids@.len() ==> #[trigger] id_views(ids@)[i] == id_views(ids@)[0]),
{
    let n = ids.len();
    if n == 0 {
        return false;
    }
    let mut i: usize = 1;
    while i < n
        invariant
            n == ids@.len(),
            1 <= i <= n,
            forall|j: int| 0 <= j < i ==> #[trigger] ids@[j]@ == ids@[0]@,
        decreases n - i,
    {
        if !crate::strings::str_eq(ids[i].as_str(), ids[0].as_str()) {
            assert(id_views(ids@)[i as int] != id_views(ids@)[0]);
            return false;
        }
        i = i + 1;
    }
    true
}

fn subset(a: &KeyMap<String, ()>, b: &KeyMap<String, ()>) -> (r: bool)
    ensures
        r == a@.dom().subset_of(b@.dom()),
{
    let keys = a.keys();
    let n = keys.len();
    let mut i: usize = 0;
    while i < n
        invariant
            n == keys@.len(),
            i <= n,
            forall|j: int| 0 <= j < n ==> a@.contains_key(#[trigger] keys@[j]@),
            forall|k: Seq<char>| a@.contains_key(k) ==> exists|j: int| 0 <= j < n && keys@[j]@ == k,
            forall|j: int| 0 <= j < i ==> b@.contains_key(#[trigger] keys@[j]@),
        decreases n - i,
    {
        if !b.contains_key(&keys[i]) {
            return false;
        }
        i = i + 1;
    }
    proof {
        assert forall|k: Seq<char>| a@.dom().contains(k) implies b@.dom().contains(k) by {
            let j = choose|j: int| 0 <= j < n && keys@[j]@ == k;
            assert(b@.contains_key(keys@[j]@));
        }
    }
    true
}

/// The name of the archive in which `files` are downloaded (see `spec_zip_name`).
pub fn select_files_zip_name(state: &State, files: &Vec<RepoFile>) -> (r: String)
    ensures
        r@ == spec_zip_name(*state, files@),
{
    let count = usize_to_string(files.len());
    proof {
        reveal_strlit(".zip");
        reveal_strlit("-");
        reveal_strlit("-selected-items.zip");
    }
    let only_count = concat(count.as_str(), "-selected-items.zip");
    let parents = parent_ids(files);
    if !all_same(&parents) {
        return only_count;
    }
    let parent_id = &parents[0];
    let parent_name = match select_file(state, parent_id) {
        Some(parent) => {
            let is_root = match &parent.path {
                RepoFilePath::Decrypted { path } => crate::paths::is_root(path.as_str()),
                RepoFilePath::DecryptError { .. } => false,
            };
            if is_root {
                match crate::repos::select_repo(state, &parent.repo_id) {
                    Ok(repo) => Some(copy_str(repo.name.as_str())),
                    Err(_) => None,
                }
            } else {
                match &parent.name {
                    RepoFileName::Decrypted { name, .. } => Some(copy_str(name.as_str())),
                    RepoFileName::DecryptError { .. } => None,
                }
            }
        },
        None => None,
    };
    let name = match parent_name {
        Some(n) => n,
        None => {
            return only_count;
        },
    };
    let is_all = match state.repo_files.children.get(parent_id) {
        Some(children) => {
            let a = id_set(children);
            let ids = file_ids(files);
            let b = id_set(&ids);
            let same = subset(&a, &b) && subset(&b, &a);
            proof {
                if same {
                    assert(a@.dom() =~= b@.dom());
                }
            }
            same
        },
        None => false,
    };
    if is_all {
        concat(name.as_str(), ".zip")
    } else {
        let s = concat3(name.as_str(), "-", count.as_str());
        concat(s.as_str(), "-selected-items.zip")
    }
}

/// Downloading all the children of a folder names the archive after the folder.
pub proof fn law_zip_name_all_children(state: State, files: Seq<RepoFile>, parent_id: Seq<char>, name: Seq<char>)
    requires
        spec_single_parent(files) == Some(parent_id),
        spec_parent_name(state, parent_id) == Some(name),
        spec_is_all_children(state, parent_id, files),
    ensures
        spec_zip_name(state, files) == name + ".zip"@,
{
}

} // verus!
