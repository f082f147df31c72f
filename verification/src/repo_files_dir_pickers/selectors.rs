//! The rows of a folder picker inside a repository: the repository's root,
//! opening into its decrypted folders.
use vstd::prelude::*;

use crate::dir_pickers::{item_views, select_picker, DirPicker, DirPickerItem, DirPickerItemType, DirPickerItemV, DirPickerOptions};
use crate::keymap::{spec_values_of_ids, values_of_ids};
use crate::paths::root_path;
use crate::remote_files::state::id_views;
use crate::repo_files::selectors::{get_file_id, select_file, select_file_name, spec_repo_file_id};
use crate::repo_files::state::{RepoFile, RepoFilePath, RepoFileType};
use crate::store::State;
use crate::strings::{copy_str, str_eq};
use crate::repo_files_details::selectors::spec_repo_file_name;

use super::state::Options;

verus! {

/// The repository of a picker opened inside one.
pub open spec fn spec_options(state: State, picker_id: u32) -> Option<Seq<char>> {
    if state.dir_pickers.pickers@.contains_key(picker_id) {
        match state.dir_pickers.pickers@[picker_id].options {
            DirPickerOptions::Repo { repo_id } => Some(repo_id@),
            _ => None,
        }
    } else {
        None
    }
}

pub fn select_options(state: &State, picker_id: u32) -> (r: Option<Options>)
    ensures
        match r {
            Some(o) => spec_options(*state, picker_id) == Some(o.repo_id@),
            None => spec_options(*state, picker_id) is None,
        },
{
    match select_picker(state, picker_id) {
        Some(p) => match &p.options {
            DirPickerOptions::Repo { repo_id } => Some(Options { repo_id: copy_str(repo_id.as_str()) }),
            _ => None,
        },
        None => None,
    }
}

pub fn select_repo_id(state: &State, picker_id: u32) -> (r: Option<String>)
    ensures
        match r {
            Some(id) => spec_options(*state, picker_id) == Some(id@),
            None => spec_options(*state, picker_id) is None,
        },
{
    match select_options(state, picker_id) {
        Some(o) => Some(o.repo_id),
        None => None,
    }
}

/// The listed sub-folders of a folder, when its listing was loaded.
pub open spec fn dir_children(state: State, file_id: Seq<char>) -> Option<Seq<RepoFile>> {
    if state.repo_files.children@.contains_key(file_id) {
        Some(
            spec_values_of_ids(state.repo_files.files@, id_views(state.repo_files.children@[file_id]@)).filter(
                |f: RepoFile| f.typ == RepoFileType::Dir,
            ),
        )
    } else {
        None
    }
}

/// The deepest level that rows can be on.
pub open spec fn max_depth() -> int {
    65535
}

/// The row of `file` at `depth`.
pub open spec fn visit_row(state: State, picker: DirPicker, file: RepoFile, depth: int) -> DirPickerItemV {
    let id = file.id@;
    let children = dir_children(state, file.id@);
    let has_arrow = depth > 0 && match children {
        Some(c) => c.len() > 0,
        None => true,
    };
    DirPickerItemV {
        id,
        file_id: Some(file.id@),
        typ: if file.path matches RepoFilePath::Decrypted { path } && path@ == root_path() {
            DirPickerItemType::Repo
        } else {
            DirPickerItemType::Folder
        },
        is_open: picker.open_ids@.contains_key(id),
        is_selected: match picker.selected_id {
            Some(s) => s@ == id,
            None => false,
        },
        is_selectable: true,
        is_loading: picker.loading_ids@.contains_key(id),
        spaces: (depth - if has_arrow {
            1int
        } else {
            0int
        }) as u16,
        has_arrow,
        text: spec_repo_file_name(state, file)->0,
    }
}

/// The rows of `file` at `depth` and, when its row is open, of its
/// sub-folders one level deeper, depth first; nothing for a file whose name
/// is not known.
pub open spec fn visit_items(state: State, picker: DirPicker, file: RepoFile, depth: int) -> Seq<DirPickerItemV>
    decreases max_depth() - depth, 1int, 0int,
{
    if spec_repo_file_name(state, file) is None {
        Seq::empty()
    } else {
        let row = visit_row(state, picker, file, depth);
        match dir_children(state, file.id@) {
            Some(children) => if row.is_open && depth < max_depth() {
                seq![row] + visit_list(state, picker, children, depth)
            } else {
                seq![row]
            },
            None => seq![row],
        }
    }
}

/// The rows of the sub-folders `children` of a row at `depth`.
pub open spec fn visit_list(state: State, picker: DirPicker, children: Seq<RepoFile>, depth: int) -> Seq<
    DirPickerItemV,
>
    decreases max_depth() - depth, 0int, children.len(),
{
    if children.len() == 0 || depth >= max_depth() {
        Seq::empty()
    } else {
        visit_list(state, picker, children.drop_last(), depth) + visit_items(
            state,
            picker,
            children.last(),
            depth + 1,
        )
    }
}

/// The listed sub-folders of the folder `file_id`.
fn select_items_children<'a>(state: &'a State, file_id: &String) -> (r: Option<Vec<&'a RepoFile>>)
    ensures
        match r {
            Some(c) => dir_children(*state, file_id@) == Some(c@.map_values(|f: &RepoFile| *f)),
            None => dir_children(*state, file_id@) is None,
        },
{
    let ids = match crate::repo_files::selectors::select_children(state, file_id) {
        Some(ids) => ids,
        None => {
            return None;
        },
    };
    let all = values_of_ids(&state.repo_files.files, ids);
    let ghost av = all@.map_values(|f: &RepoFile| *f);
    let mut r: Vec<&'a RepoFile> = Vec::new();
    let n = all.len();
    let mut i: usize = 0;
    while i < n
        invariant
            n == all@.len(),
            av == all@.map_values(|f: &RepoFile| *f),
            i <= n,
            r@.map_values(|f: &RepoFile| *f) == av.take(i as int).filter(|f: RepoFile| f.typ == RepoFileType::Dir),
        decreases n - i,
    {
        let ghost before = r@;
        proof {
            assert(av.take(i + 1).drop_last() =~= av.take(i as int));
            assert(av.take(i + 1).last() == *all@[i as int]);
            reveal(Seq::filter);
        }
        if all[i].typ == RepoFileType::Dir {
            r.push(all[i]);
            proof {
                assert(r@.map_values(|f: &RepoFile| *f) =~= before.map_values(|f: &RepoFile| *f).push(
                    *all@[i as int],
                ));
            }
        }
        i = i + 1;
    }
    proof {
        assert(av.take(n as int) =~= av);
    }
    Some(r)
}

fn select_items_visit_file(
    state: &State,
    picker: &DirPicker,
    items: &mut Vec<DirPickerItem>,
    file: &RepoFile,
    depth: u16,
)
    ensures
        item_views(final(items)@) == item_views(old(items)@) + visit_items(*state, *picker, *file, depth as int),
    decreases max_depth() - depth,
{
    let ghost start = item_views(items@);
    let children = select_items_children(state, &file.id);
    let id = copy_str(file.id.as_str());
    let is_root = match file.decrypted_path() {
        Ok(path) => crate::paths::is_root(path.as_str()),
        Err(_) => false,
    };
    let name = match select_file_name(state, file) {
        Ok(name) => name,
        Err(_) => {
            assert(item_views(items@) =~= start + Seq::<DirPickerItemV>::empty());
            return;
        },
    };
    let typ = if is_root {
        DirPickerItemType::Repo
    } else {
        DirPickerItemType::Folder
    };
    let is_open = picker.open_ids.contains_key(&id);
    let is_selected = match &picker.selected_id {
        Some(s) => str_eq(s.as_str(), id.as_str()),
        None => false,
    };
    let is_loading = picker.loading_ids.contains_key(&id);
    let has_arrow = depth > 0 && match &children {
        Some(c) => c.len() > 0,
        None => true,
    };
    let spaces: u16 = if has_arrow {
        depth - 1
    } else {
        depth
    };
    items.push(
        DirPickerItem {
            id,
            file_id: Some(copy_str(file.id.as_str())),
            typ,
            is_open,
            is_selected,
            is_selectable: true,
            is_loading,
            spaces,
            has_arrow,
            text: copy_str(name.as_str()),
        },
    );
    let ghost row = visit_row(*state, *picker, *file, depth as int);
    proof {
        assert(items@.last()@ == row);
        assert(item_views(items@) =~= start + seq![row]);
    }
    if is_open && depth < 65535 {
        match children {
            Some(c) => {
                let ghost cv = c@.map_values(|f: &RepoFile| *f);
                let n = c.len();
                let mut i: usize = 0;
                while i < n
                    invariant
                        n == c@.len(),
                        cv == c@.map_values(|f: &RepoFile| *f),
                        i <= n,
                        depth < 65535,
                        item_views(items@) == start + seq![row] + visit_list(*state, *picker, cv.take(i as int), depth as int),
                    decreases n - i,
                {
                    let child: &RepoFile = c[i];
                    select_items_visit_file(state, picker, items, child, depth + 1);
                    proof {
                        assert(cv.take(i + 1).drop_last() =~= cv.take(i as int));
                        assert(cv.take(i + 1).last() == *c@[i as int]);
                        assert(item_views(items@) =~= start + seq![row] + visit_list(
                            *state,
                            *picker,
                            cv.take(i + 1),
                            depth as int,
                        ));
                    }
                    i = i + 1;
                }
                proof {
                    assert(cv.take(n as int) =~= cv);
                }
            },
            None => {},
        }
    }
}

/// The rows of a picker inside a repository: its root and, as far as rows
/// are open, its folders; nothing before the root is listed.
pub fn select_items(state: &State, picker: &DirPicker) -> (r: Vec<DirPickerItem>)
    ensures
        item_views(r@) == match spec_options(*state, picker.id) {
            Some(repo_id) => {
                let root_id = spec_repo_file_id(repo_id, root_path());
                if state.repo_files.files@.contains_key(root_id) {
                    visit_items(*state, *picker, state.repo_files.files@[root_id], 0)
                } else {
                    Seq::empty()
                }
            },
            None => Seq::empty(),
        },
{
    let mut items: Vec<DirPickerItem> = Vec::new();
    assert(item_views(items@) =~= Seq::<DirPickerItemV>::empty());
    match select_repo_id(state, picker.id) {
        Some(repo_id) => {
            let root = crate::paths::root();
            let root_file_id = get_file_id(repo_id.as_str(), root.as_str());
            match select_file(state, &root_file_id) {
                Some(root_file) => {
                    select_items_visit_file(state, picker, &mut items, root_file, 0);
                    assert(item_views(items@) =~= visit_items(*state, *picker, *root_file, 0));
                },
                None => {},
            }
        },
        None => {},
    }
    items
}

} // verus!
