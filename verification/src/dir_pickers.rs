//! Folder pickers: a tree of folders that opens level by level, shown as a
//! flat list of items with their indentation.
use vstd::prelude::*;

use crate::common::NextId;
use crate::keymap::KeyMap;
use crate::remote::{MountOrigin, MountType};
use crate::store::State;

verus! {

/// What an item of a picker stands for.
#[derive(Clone, Copy, Debug, PartialEq, Eq, Structural)]
pub enum DirPickerItemType {
    Bookmarks,
    Bookmark,
    Shared,
    Folder,
    Repo,
    /// The root of a mount, shown by the mount's kind and origin.
    Mount { typ: MountType, origin: MountOrigin },
}

/// A row of a picker.
#[derive(Debug)]
pub struct DirPickerItem {
    pub id: String,
    pub file_id: Option<String>,
    pub typ: DirPickerItemType,
    pub is_open: bool,
    pub is_selected: bool,
    pub is_selectable: bool,
    pub is_loading: bool,
    pub spaces: u16,
    pub has_arrow: bool,
    pub text: String,
}

/// A row of a picker, as values.
pub struct DirPickerItemV {
    pub id: Seq<char>,
    pub file_id: Option<Seq<char>>,
    pub typ: DirPickerItemType,
    pub is_open: bool,
    pub is_selected: bool,
    pub is_selectable: bool,
    pub is_loading: bool,
    pub spaces: u16,
    pub has_arrow: bool,
    pub text: Seq<char>,
}

impl View for DirPickerItem {
    type V = DirPickerItemV;

    open spec fn view(&self) -> DirPickerItemV {
        DirPickerItemV {
            id: self.id@,
            file_id: match self.file_id {
                Some(f) => Some(f@),
                None => None,
            },
            typ: self.typ,
            is_open: self.is_open,
            is_selected: self.is_selected,
            is_selectable: self.is_selectable,
            is_loading: self.is_loading,
            spaces: self.spaces,
            has_arrow: self.has_arrow,
            text: self.text@,
        }
    }
}

/// The views of some rows.
pub open spec fn item_views(items: Seq<DirPickerItem>) -> Seq<DirPickerItemV> {
    items.map_values(|it: DirPickerItem| it@)
}

/// How a picker was opened: over the remote storage, or inside a repository.
#[derive(Debug)]
pub enum DirPickerOptions {
    Remote { only_hosted_devices: bool },
    Repo { repo_id: String },
}

#[derive(Debug)]
pub struct DirPicker {
    pub id: u32,
    pub options: DirPickerOptions,
    /// The ids of the open rows.
    pub open_ids: KeyMap<String, ()>,
    /// The ids of the rows whose children are being loaded.
    pub loading_ids: KeyMap<String, ()>,
    pub selected_id: Option<String>,
    pub items: Vec<DirPickerItem>,
}

#[derive(Debug)]
pub struct DirPickersState {
    pub pickers: KeyMap<u32, DirPicker>,
    pub next_id: NextId,
}

impl DirPickersState {
    pub fn new() -> (r: Self)
        ensures
            r.pickers@ == Map::<u32, DirPicker>::empty(),
            r.next_id.value == 0,
    {
        DirPickersState { pickers: KeyMap::new(), next_id: NextId::new() }
    }
}

pub fn select_picker<'a>(state: &'a State, picker_id: u32) -> (r: Option<&'a DirPicker>)
    ensures
        match r {
            Some(p) => state.dir_pickers.pickers@.contains_key(picker_id)
                && state.dir_pickers.pickers@[picker_id] == *p,
            None => !state.dir_pickers.pickers@.contains_key(picker_id),
        },
{
    state.dir_pickers.pickers.get(&picker_id)
}

/// The file id of the selected row of a picker, if a row with a file is selected.
pub open spec fn spec_selected_file_id(state: State, picker_id: u32) -> Option<Seq<char>> {
    if state.dir_pickers.pickers@.contains_key(picker_id) {
        let p = state.dir_pickers.pickers@[picker_id];
        match p.selected_id {
            Some(sel) => if exists|i: int|
                0 <= i < p.items@.len() && (#[trigger] p.items@[i]).id@ == sel@ {
                let i = choose|i: int| 0 <= i < p.items@.len() && (#[trigger] p.items@[i]).id@ == sel@ && forall|j: int| 0 <= j < i ==> p.items@[j].id@ != sel@;
                match p.items@[i].file_id {
                    Some(f) => Some(f@),
                    None => None,
                }
            } else {
                None
            },
            None => None,
        }
    } else {
        None
    }
}

/// The first row of `items` with id `id`.
fn find_item<'a>(items: &'a Vec<DirPickerItem>, id: &String) -> (r: Option<&'a DirPickerItem>)
    ensures
        match r {
            Some(it) => exists|i: int|
                0 <= i < items@.len() && items@[i] == *it && it.id@ == id@ && forall|j: int|
                    0 <= j < i ==> items@[j].id@ != id@,
            None => forall|i: int| 0 <= i < items@.len() ==> (#[trigger] items@[i]).id@ != id@,
        },
{
    let n = items.len();
    let mut i: usize = 0;
    while i < n
        invariant
            n == items@.len(),
            i <= n,
            forall|j: int| 0 <= j < i ==> items@[j].id@ != id@,
        decreases n - i,
    {
        if crate::strings::str_eq(items[i].id.as_str(), id.as_str()) {
            return Some(&items[i]);
        }
        i = i + 1;
    }
    None
}

pub fn select_selected_file_id(state: &State, picker_id: u32) -> (r: Option<String>)
    ensures
        match r {
            Some(f) => spec_selected_file_id(*state, picker_id) == Some(f@),
            None => spec_selected_file_id(*state, picker_id) is None,
        },
{
    let picker = match select_picker(state, picker_id) {
        Some(p) => p,
        None => {
            return None;
        },
    };
    let sel = match &picker.selected_id {
        Some(sel) => sel,
        None => {
            return None;
        },
    };
    match find_item(&picker.items, sel) {
        Some(item) => {
            proof {
                let p = state.dir_pickers.pickers@[picker_id];
                let w = choose|i: int|
                    0 <= i < p.items@.len() && p.items@[i] == *item && item.id@ == sel@ && forall|
                        j: int,
                    | 0 <= j < i ==> p.items@[j].id@ != sel@;
                assert((#[trigger] p.items@[w]).id@ == sel@);
                let c = choose|i: int| 0 <= i < p.items@.len() && (#[trigger] p.items@[i]).id@ == sel@ && forall|j: int| 0 <= j < i ==> p.items@[j].id@ != sel@;
                if c < w {
                    assert(p.items@[c].id@ != sel@);
                }
                if w < c {
                    assert(p.items@[w].id@ != sel@);
                }
            }
            match &item.file_id {
                Some(f) => Some(crate::strings::copy_str(f.as_str())),
                None => None,
            }
        },
        None => None,
    }
}

} // verus!
