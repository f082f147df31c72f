//! Reading the browsers: their items, in the order the user sorted them,
//! their breadcrumbs and what they show about the selection.
use vstd::prelude::*;
use vstd::string::*;

use crate::remote::{MountOrigin, MountType};
use crate::remote_files::state::{Mount, RemoteFile, RemoteFileType, RemoteFilesSort, RemoteFilesSortField};
use crate::common::SortDirection;
use crate::sorting::{sort_by_order, stable_rearrangement, SortOrder};
use crate::keymap::spec_values_of_ids;
use crate::remote_files::selectors::{
    spec_breadcrumb_ok, select_bookmarks_files, select_files, select_places_mount_files, select_shared_mount_files,
    spec_children_files, spec_file_id, spec_places_mount_files, spec_shared_mount_files,
};
use crate::remote_files::state::{id_views, RemoteFilesState};
use crate::paths::{spec_path_to_name, spec_paths_chain};
use crate::selection::{select_selection_summary as summary_of, spec_selection_summary, SelectionSummary};
use crate::store::State;
use crate::strings::{lowercase, str_eq};
use crate::strings::{compare_strs, concat, concat3, copy_str, lemma_seq_order_antisym, lemma_seq_order_trans, seq_order, starts_with};

use super::state::{
    RemoteFilesBrowser, RemoteFilesBrowserBreadcrumb, RemoteFilesBrowserInfo, RemoteFilesBrowserItem, RemoteFilesBrowserItemInfo,
    RemoteFilesBrowserItemType, RemoteFilesBrowserLocation,
};

verus! {

/// The id of the item of a file reached through a list with ids prefixed `prefix`.
pub open spec fn spec_item_id(prefix: Seq<char>, mount_id: Seq<char>, path: Seq<char>) -> Seq<char> {
    prefix + mount_id + seq![':'] + path
}

pub fn get_file_item_id(item_id_prefix: &str, mount_id: &str, path: &str) -> (r: String)
    ensures
        r@ == spec_item_id(item_id_prefix@, mount_id@, path@),
{
    let a = concat3(item_id_prefix, mount_id, ":");
    let r = concat(a.as_str(), path);
    proof {
        reveal_strlit(":");
        assert(r@ =~= spec_item_id(item_id_prefix@, mount_id@, path@));
    }
    r
}

/// The prefix of the item ids of a folder location, from the location's text.
pub open spec fn spec_location_prefix(location: Seq<char>) -> Option<Seq<char>> {
    if "bookmarks:"@.is_prefix_of(location) {
        Some("bookmarks:"@)
    } else if "places:"@.is_prefix_of(location) {
        Some("places:"@)
    } else if "shared:"@.is_prefix_of(location) {
        Some("shared:"@)
    } else {
        None
    }
}

pub fn parse_location_files_item_id_prefix(location: &str) -> (r: Option<String>)
    ensures
        match r {
            Some(p) => spec_location_prefix(location@) == Some(p@),
            None => spec_location_prefix(location@) is None,
        },
{
    if starts_with(location, "bookmarks:") {
        Some(copy_str("bookmarks:"))
    } else if starts_with(location, "places:") {
        Some(copy_str("places:"))
    } else if starts_with(location, "shared:") {
        Some(copy_str("shared:"))
    } else {
        None
    }
}

/// `it` is a fixed entry of the home list: its id, name and kind.
pub open spec fn spec_fixed_item(
    it: RemoteFilesBrowserItem,
    id: Seq<char>,
    name: Seq<char>,
    name_lower: Seq<char>,
) -> bool {
    &&& it.id@ == id
    &&& it.mount_id is None
    &&& it.path is None
    &&& it.name@ == name
    &&& it.name_lower@ == name_lower
    &&& it.size is None
    &&& it.modified is None
}

pub open spec fn spec_bookmarks_item(it: RemoteFilesBrowserItem) -> bool {
    spec_fixed_item(it, "bookmarks"@, "Bookmarks"@, "bookmarks"@) && it.typ
        is Bookmarks
}

pub open spec fn spec_shared_item(it: RemoteFilesBrowserItem) -> bool {
    spec_fixed_item(it, "shared"@, "Shared"@, "shared"@) && it.typ is Shared
}

/// The home entry that leads to the bookmarks.
pub fn get_bookmarks_item() -> (r: RemoteFilesBrowserItem)
    ensures
        spec_bookmarks_item(r),
{
    RemoteFilesBrowserItem {
        id: copy_str("bookmarks"),
        mount_id: None,
        path: None,
        name: copy_str("Bookmarks"),
        name_lower: copy_str("bookmarks"),
        typ: RemoteFilesBrowserItemType::Bookmarks,
        size: None,
        modified: None,
    }
}

/// The home entry that leads to the shared files.
pub fn get_shared_item() -> (r: RemoteFilesBrowserItem)
    ensures
        spec_shared_item(r),
{
    RemoteFilesBrowserItem {
        id: copy_str("shared"),
        mount_id: None,
        path: None,
        name: copy_str("Shared"),
        name_lower: copy_str("shared"),
        typ: RemoteFilesBrowserItemType::Shared,
        size: None,
        modified: None,
    }
}

/// `it` is the home entry of the place `mount`, whose root is `file`.
pub open spec fn spec_place_item(it: RemoteFilesBrowserItem, mount: Mount, file: RemoteFile) -> bool {
    &&& it.id@ == spec_item_id("places:"@, file.mount_id@, file.path@)
    &&& it.mount_id matches Some(m) && m@ == file.mount_id@
    &&& it.path matches Some(p) && p@ == file.path@
    &&& it.name@ == mount.name@
    &&& it.name_lower@ == mount.name_lower@
    &&& it.typ matches RemoteFilesBrowserItemType::Place { origin } && origin == mount.origin
    &&& it.size is None
    &&& it.modified is None
}

pub fn get_place_item(mount: &Mount, file: &RemoteFile) -> (r: RemoteFilesBrowserItem)
    ensures
        spec_place_item(r, *mount, *file),
{
    RemoteFilesBrowserItem {
        id: get_file_item_id("places:", file.mount_id.as_str(), file.path.as_str()),
        mount_id: Some(copy_str(file.mount_id.as_str())),
        path: Some(copy_str(file.path.as_str())),
        name: copy_str(mount.name.as_str()),
        name_lower: copy_str(mount.name_lower.as_str()),
        typ: RemoteFilesBrowserItemType::Place { origin: mount.origin },
        size: None,
        modified: None,
    }
}

/// `it` is the item of `file` in a list whose item ids start with `prefix`.
pub open spec fn spec_file_item(it: RemoteFilesBrowserItem, prefix: Seq<char>, file: RemoteFile) -> bool {
    &&& it.id@ == spec_item_id(prefix, file.mount_id@, file.path@)
    &&& it.mount_id matches Some(m) && m@ == file.mount_id@
    &&& it.path matches Some(p) && p@ == file.path@
    &&& it.name@ == file.name@
    &&& it.name_lower@ == file.name_lower@
    &&& it.typ matches RemoteFilesBrowserItemType::File { item_id_prefix, typ } && item_id_prefix@
        == prefix && typ == file.typ
    &&& it.size == file.size
    &&& it.modified == file.modified
}

/// The item of `file`; `mount` is the mount of a shared root, if any.
pub fn get_file_item(item_id_prefix: &str, file: &RemoteFile, mount: Option<&Mount>) -> (r:
    RemoteFilesBrowserItem)
    ensures
        spec_file_item(r, item_id_prefix@, *file),
{
    RemoteFilesBrowserItem {
        id: get_file_item_id(item_id_prefix, file.mount_id.as_str(), file.path.as_str()),
        mount_id: Some(copy_str(file.mount_id.as_str())),
        path: Some(copy_str(file.path.as_str())),
        name: copy_str(file.name.as_str()),
        name_lower: copy_str(file.name_lower.as_str()),
        typ: RemoteFilesBrowserItemType::File {
            item_id_prefix: copy_str(item_id_prefix),
            typ: file.typ,
        },
        size: file.size,
        modified: file.modified,
    }
}

/// Bookmarks, places, shared roots and folders list before files.
pub open spec fn item_is_dir(it: RemoteFilesBrowserItem) -> bool {
    match it.typ {
        RemoteFilesBrowserItemType::File { typ, .. } => typ == RemoteFileType::Dir,
        _ => true,
    }
}

pub open spec fn dir_items(s: Seq<RemoteFilesBrowserItem>) -> Seq<RemoteFilesBrowserItem> {
    s.filter(|it: RemoteFilesBrowserItem| item_is_dir(it))
}

pub open spec fn file_items(s: Seq<RemoteFilesBrowserItem>) -> Seq<RemoteFilesBrowserItem> {
    s.filter(|it: RemoteFilesBrowserItem| !item_is_dir(it))
}

/// The order of optional numbers: none first, then by value.
pub open spec fn opt_order(a: Option<i64>, b: Option<i64>) -> int {
    match (a, b) {
        (None, None) => 0,
        (None, Some(_)) => -1,
        (Some(_), None) => 1,
        (Some(x), Some(y)) => if x < y {
            -1
        } else if x == y {
            0
        } else {
            1
        },
    }
}

/// How two items compare on a sort field.
pub open spec fn item_order(
    field: RemoteFilesSortField,
    a: RemoteFilesBrowserItem,
    b: RemoteFilesBrowserItem,
) -> int {
    match field {
        RemoteFilesSortField::Name => seq_order(a.name_lower@, b.name_lower@),
        RemoteFilesSortField::Size => opt_order(a.size, b.size),
        RemoteFilesSortField::Modified => opt_order(a.modified, b.modified),
    }
}

/// The order of the folder-like items: by name, in the sort's direction
/// when the sort is by name and ascending otherwise.
pub open spec fn dir_item_leq(
    sort: RemoteFilesSort,
    a: RemoteFilesBrowserItem,
    b: RemoteFilesBrowserItem,
) -> bool {
    if sort.field == RemoteFilesSortField::Name {
        sort.direction.spec_ordering(seq_order(a.name_lower@, b.name_lower@)) <= 0
    } else {
        seq_order(a.name_lower@, b.name_lower@) <= 0
    }
}

/// The order of the files: by the sort's field, in its direction.
pub open spec fn file_item_leq(
    sort: RemoteFilesSort,
    a: RemoteFilesBrowserItem,
    b: RemoteFilesBrowserItem,
) -> bool {
    sort.direction.spec_ordering(item_order(sort.field, a, b)) <= 0
}

fn opt_order_exec(a: Option<i64>, b: Option<i64>) -> (r: i8)
    ensures
        r as int == opt_order(a, b),
{
    match (a, b) {
        (None, None) => 0,
        (None, Some(_)) => -1,
        (Some(_), None) => 1,
        (Some(x), Some(y)) => if x < y {
            -1
        } else if x == y {
            0
        } else {
            1
        },
    }
}

proof fn lemma_item_order(field: RemoteFilesSortField, a: RemoteFilesBrowserItem, b: RemoteFilesBrowserItem)
    ensures
        item_order(field, a, b) == -item_order(field, b, a),
        -1 <= item_order(field, a, b) <= 1,
{
    lemma_seq_order_antisym(a.name_lower@, b.name_lower@);
}

proof fn lemma_item_order_trans(
    field: RemoteFilesSortField,
    a: RemoteFilesBrowserItem,
    b: RemoteFilesBrowserItem,
    c: RemoteFilesBrowserItem,
)
    requires
        item_order(field, a, b) <= 0,
        item_order(field, b, c) <= 0,
    ensures
        item_order(field, a, c) <= 0,
{
    if field == RemoteFilesSortField::Name {
        lemma_seq_order_trans(a.name_lower@, b.name_lower@, c.name_lower@);
    }
}

/// Orders items on one field, in one direction.
#[derive(Debug)]
pub struct ItemOrder {
    pub field: RemoteFilesSortField,
    pub direction: SortDirection,
}

impl SortOrder<RemoteFilesBrowserItem> for ItemOrder {
    open spec fn leq(&self, a: RemoteFilesBrowserItem, b: RemoteFilesBrowserItem) -> bool {
        self.direction.spec_ordering(item_order(self.field, a, b)) <= 0
    }

    fn leq_exec(&self, a: &RemoteFilesBrowserItem, b: &RemoteFilesBrowserItem) -> (r: bool) {
        let c = match self.field {
            RemoteFilesSortField::Name => compare_strs(a.name_lower.as_str(), b.name_lower.as_str()),
            RemoteFilesSortField::Size => opt_order_exec(a.size, b.size),
            RemoteFilesSortField::Modified => opt_order_exec(a.modified, b.modified),
        };
        proof {
            lemma_item_order(self.field, *a, *b);
        }
        self.direction.ordering(c) <= 0
    }

    proof fn lemma_total(&self, a: RemoteFilesBrowserItem, b: RemoteFilesBrowserItem) {
        lemma_item_order(self.field, a, b);
    }

    proof fn lemma_trans(
        &self,
        a: RemoteFilesBrowserItem,
        b: RemoteFilesBrowserItem,
        c: RemoteFilesBrowserItem,
    ) {
        lemma_item_order(self.field, a, b);
        lemma_item_order(self.field, b, c);
        lemma_item_order(self.field, a, c);
        match self.direction {
            SortDirection::Asc => lemma_item_order_trans(self.field, a, b, c),
            SortDirection::Desc => lemma_item_order_trans(self.field, c, b, a),
        }
    }
}

/// `r` is `items` sorted by `sort`: folder-like items first, then files,
/// each part a reordering of the items of its kind, in the part's order.
pub open spec fn sort_items_ok(
    items: Seq<RemoteFilesBrowserItem>,
    sort: RemoteFilesSort,
    r: Seq<RemoteFilesBrowserItem>,
) -> bool {
    &&& r.len() == items.len()
    &&& r.subrange(0, dir_items(items).len() as int).to_multiset() == dir_items(items).to_multiset()
    &&& r.subrange(dir_items(items).len() as int, r.len() as int).to_multiset() == file_items(
        items,
    ).to_multiset()
    &&& forall|i: int, j: int|
        0 <= i < j < dir_items(items).len() ==> dir_item_leq(sort, #[trigger] r[i], #[trigger] r[j])
    &&& forall|i: int, j: int|
        dir_items(items).len() <= i < j < r.len() ==> file_item_leq(
            sort,
            #[trigger] r[i],
            #[trigger] r[j],
        )
}

/// `r` takes the items from the positions `p` of `items`, each position once,
/// and items that tie in their part's order keep the order they had in `items`.
pub open spec fn items_stably_placed(
    items: Seq<RemoteFilesBrowserItem>,
    sort: RemoteFilesSort,
    r: Seq<RemoteFilesBrowserItem>,
    p: Seq<int>,
) -> bool {
    let d = dir_items(items).len() as int;
    &&& p.len() == items.len()
    &&& r.len() == items.len()
    &&& forall|k: int| 0 <= k < p.len() ==> 0 <= #[trigger] p[k] < items.len() && r[k] == items[p[k]]
    &&& forall|a: int, b: int| 0 <= a < b < p.len() ==> #[trigger] p[a] != #[trigger] p[b]
    &&& forall|a: int, b: int|
        0 <= a < b < d && dir_item_leq(sort, #[trigger] r[b], #[trigger] r[a]) ==> p[a] < p[b]
    &&& forall|a: int, b: int|
        d <= a < b < r.len() && file_item_leq(sort, #[trigger] r[b], #[trigger] r[a]) ==> p[a]
            < p[b]
}

/// Positions of `all` in increasing order, holding the items of `part`.
pub open spec fn increasing_positions(
    all: Seq<RemoteFilesBrowserItem>,
    part: Seq<RemoteFilesBrowserItem>,
    idx: Seq<int>,
    bound: int,
) -> bool {
    &&& idx.len() == part.len()
    &&& forall|k: int| 0 <= k < idx.len() ==> 0 <= #[trigger] idx[k] < bound && part[k] == all[idx[k]]
    &&& forall|a: int, b: int| 0 <= a < b < idx.len() ==> #[trigger] idx[a] < #[trigger] idx[b]
}

/// Sorts a list: folder-like items first, then files, each part in the
/// order that `sort` gives it; items that tie keep their order.
pub fn sort_items(items: Vec<RemoteFilesBrowserItem>, sort: &RemoteFilesSort) -> (r: Vec<
    RemoteFilesBrowserItem,
>)
    ensures
        sort_items_ok(items@, *sort, r@),
        exists|p: Seq<int>| #[trigger] items_stably_placed(items@, *sort, r@, p),
{
    let ghost all = items@;
    let mut dirs: Vec<RemoteFilesBrowserItem> = Vec::new();
    let mut files: Vec<RemoteFilesBrowserItem> = Vec::new();
    let ghost mut di: Seq<int> = Seq::empty();
    let ghost mut fi: Seq<int> = Seq::empty();
    let mut rest = crate::seq_facts::reversed(items);
    let n = rest.len();
    let mut i: usize = 0;
    while rest.len() > 0
        invariant
            n == all.len(),
            i <= n,
            rest.len() == n - i,
            forall|j: int| 0 <= j < rest.len() ==> rest@[j] == all[n - 1 - j],
            dirs@ == dir_items(all.take(i as int)),
            files@ == file_items(all.take(i as int)),
            increasing_positions(all, dirs@, di, i as int),
            increasing_positions(all, files@, fi, i as int),
            forall|a: int, b: int|
                0 <= a < di.len() && 0 <= b < fi.len() ==> #[trigger] di[a] != #[trigger] fi[b],
        decreases rest.len(),
    {
        let it = rest.pop().unwrap();
        proof {
            assert(it == all[i as int]);
            assert(all.take(i + 1).drop_last() =~= all.take(i as int));
            reveal(Seq::filter);
        }
        let is_dir = match &it.typ {
            RemoteFilesBrowserItemType::File { typ, .. } => match typ {
                RemoteFileType::Dir => true,
                RemoteFileType::File => false,
            },
            _ => true,
        };
        if is_dir {
            dirs.push(it);
            proof {
                di = di.push(i as int);
            }
        } else {
            files.push(it);
            proof {
                fi = fi.push(i as int);
            }
        }
        i = i + 1;
    }
    proof {
        assert(all.take(n as int) =~= all);
    }
    let dir_order = if sort.field == RemoteFilesSortField::Name {
        ItemOrder { field: RemoteFilesSortField::Name, direction: sort.direction }
    } else {
        ItemOrder { field: RemoteFilesSortField::Name, direction: SortDirection::Asc }
    };
    let file_order = ItemOrder { field: sort.field, direction: sort.direction };
    let mut sorted_dirs = sort_by_order(dirs, &dir_order);
    let mut sorted_files = sort_by_order(files, &file_order);
    let ghost sd = sorted_dirs@;
    let ghost sf = sorted_files@;
    proof {
        broadcast use vstd::seq_lib::group_to_multiset_ensures;

        vstd::seq_lib::to_multiset_len(sd);
        vstd::seq_lib::to_multiset_len(sf);
        vstd::seq_lib::to_multiset_len(dir_items(all));
        vstd::seq_lib::to_multiset_len(file_items(all));
        assert(sd.len() == dir_items(all).len());
        assert(sf.len() == file_items(all).len());
    }
    sorted_dirs.append(&mut sorted_files);
    proof {
        let r = sorted_dirs@;
        assert(r =~= sd + sf);
        assert(r.subrange(0, sd.len() as int) =~= sd);
        assert(r.subrange(sd.len() as int, r.len() as int) =~= sf);
        assert forall|a: int, b: int| 0 <= a < b < sd.len() implies dir_item_leq(
            *sort,
            #[trigger] r[a],
            #[trigger] r[b],
        ) by {
            assert(dir_order.leq(sd[a], sd[b]));
        }
        assert forall|a: int, b: int| sd.len() <= a < b < r.len() implies file_item_leq(
            *sort,
            #[trigger] r[a],
            #[trigger] r[b],
        ) by {
            assert(file_order.leq(sf[a - sd.len()], sf[b - sd.len()]));
        }
        lemma_partition_len(all);
        let pd = choose|p: Seq<int>| #[trigger] stable_rearrangement(&dir_order, dirs@, sd, p);
        let pf = choose|p: Seq<int>| #[trigger] stable_rearrangement(&file_order, files@, sf, p);
        let dl = sd.len() as int;
        let p = Seq::new(
            r.len(),
            |k: int|
                if k < dl {
                    di[pd[k]]
                } else {
                    fi[pf[k - dl]]
                },
        );
        assert forall|k: int| 0 <= k < p.len() implies 0 <= #[trigger] p[k] < all.len() && r[k]
            == all[p[k]] by {
            if k < dl {
                assert(r[k] == sd[k]);
                assert(0 <= pd[k] < di.len());
            } else {
                assert(r[k] == sf[k - dl]);
                assert(0 <= pf[k - dl] < fi.len());
            }
        }
        assert forall|a: int, b: int| 0 <= a < b < p.len() implies #[trigger] p[a]
            != #[trigger] p[b] by {
            if a < dl && b < dl {
                assert(pd[a] != pd[b]);
                if pd[a] < pd[b] {
                    assert(di[pd[a]] < di[pd[b]]);
                } else {
                    assert(di[pd[b]] < di[pd[a]]);
                }
            } else if a < dl {
                assert(0 <= pd[a] < di.len());
                assert(0 <= pf[b - dl] < fi.len());
                assert(di[pd[a]] != fi[pf[b - dl]]);
            } else {
                assert(pf[a - dl] != pf[b - dl]);
                if pf[a - dl] < pf[b - dl] {
                    assert(fi[pf[a - dl]] < fi[pf[b - dl]]);
                } else {
                    assert(fi[pf[b - dl]] < fi[pf[a - dl]]);
                }
            }
        }
        assert forall|a: int, b: int|
            0 <= a < b < dl && dir_item_leq(*sort, #[trigger] r[b], #[trigger] r[a]) implies p[a]
            < p[b] by {
            assert(r[a] == sd[a] && r[b] == sd[b]);
            assert(dir_order.leq(sd[b], sd[a]));
            assert(pd[a] < pd[b]);
            assert(di[pd[a]] < di[pd[b]]);
        }
        assert forall|a: int, b: int|
            dl <= a < b < r.len() && file_item_leq(*sort, #[trigger] r[b], #[trigger] r[a])
                implies p[a] < p[b] by {
            assert(r[a] == sf[a - dl] && r[b] == sf[b - dl]);
            assert(file_order.leq(sf[b - dl], sf[a - dl]));
            assert(pf[a - dl] < pf[b - dl]);
            assert(fi[pf[a - dl]] < fi[pf[b - dl]]);
        }
        assert(items_stably_placed(all, *sort, r, p));
    }
    sorted_dirs
}

/// Sorted by modification time, the files come after the folder-like items
/// with their times in the sort's direction: a file without a time before one
/// with a time, earlier times before later ones when ascending, and the
/// reverse when descending; their sizes play no part.
pub proof fn law_sort_items_by_modified(
    items: Seq<RemoteFilesBrowserItem>,
    sort: RemoteFilesSort,
    r: Seq<RemoteFilesBrowserItem>,
)
    requires
        sort_items_ok(items, sort, r),
        sort.field == RemoteFilesSortField::Modified,
    ensures
        forall|i: int, j: int| #![trigger r[i], r[j]]
            dir_items(items).len() <= i < j < r.len() ==> {
                let (x, y) = match sort.direction {
                    SortDirection::Asc => (r[i].modified, r[j].modified),
                    SortDirection::Desc => (r[j].modified, r[i].modified),
                };
                x is None || (x matches Some(a) && y matches Some(b) && a <= b)
            },
{
    assert forall|i: int, j: int| #![trigger r[i], r[j]] dir_items(items).len() <= i < j < r.len() implies {
        let (x, y) = match sort.direction {
            SortDirection::Asc => (r[i].modified, r[j].modified),
            SortDirection::Desc => (r[j].modified, r[i].modified),
        };
        x is None || (x matches Some(a) && y matches Some(b) && a <= b)
    } by {
        assert(file_item_leq(sort, r[i], r[j]));
    }
}

/// Sorted by size, the files come after the folder-like items with their sizes
/// in the sort's direction: a file without a size before one with a size,
/// smaller before larger when ascending, and the reverse when descending.
pub proof fn law_sort_items_by_size(
    items: Seq<RemoteFilesBrowserItem>,
    sort: RemoteFilesSort,
    r: Seq<RemoteFilesBrowserItem>,
)
    requires
        sort_items_ok(items, sort, r),
        sort.field == RemoteFilesSortField::Size,
    ensures
        forall|i: int, j: int| #![trigger r[i], r[j]]
            dir_items(items).len() <= i < j < r.len() ==> {
                let (x, y) = match sort.direction {
                    SortDirection::Asc => (r[i].size, r[j].size),
                    SortDirection::Desc => (r[j].size, r[i].size),
                };
                x is None || (x matches Some(a) && y matches Some(b) && a <= b)
            },
{
    assert forall|i: int, j: int| #![trigger r[i], r[j]] dir_items(items).len() <= i < j < r.len() implies {
        let (x, y) = match sort.direction {
            SortDirection::Asc => (r[i].size, r[j].size),
            SortDirection::Desc => (r[j].size, r[i].size),
        };
        x is None || (x matches Some(a) && y matches Some(b) && a <= b)
    } by {
        assert(file_item_leq(sort, r[i], r[j]));
    }
}

/// Sorted by name, the files come after the folder-like items with their
/// lower-cased names in the sort's direction, and so do the folder-like
/// items among themselves; sorted by another field, the folder-like items go
/// by name ascending.
pub proof fn law_sort_items_by_name(
    items: Seq<RemoteFilesBrowserItem>,
    sort: RemoteFilesSort,
    r: Seq<RemoteFilesBrowserItem>,
)
    requires
        sort_items_ok(items, sort, r),
    ensures
        sort.field == RemoteFilesSortField::Name ==> forall|i: int, j: int| #![trigger r[i], r[j]]
            dir_items(items).len() <= i < j < r.len() ==> match sort.direction {
                SortDirection::Asc => seq_order(r[i].name_lower@, r[j].name_lower@) <= 0,
                SortDirection::Desc => seq_order(r[j].name_lower@, r[i].name_lower@) <= 0,
            },
        forall|i: int, j: int| #![trigger r[i], r[j]]
            0 <= i < j < dir_items(items).len() ==> if sort.field == RemoteFilesSortField::Name {
                match sort.direction {
                    SortDirection::Asc => seq_order(r[i].name_lower@, r[j].name_lower@) <= 0,
                    SortDirection::Desc => seq_order(r[j].name_lower@, r[i].name_lower@) <= 0,
                }
            } else {
                seq_order(r[i].name_lower@, r[j].name_lower@) <= 0
            },
{
    assert forall|i: int, j: int| #![trigger r[i], r[j]] 0 <= i < j < dir_items(items).len() implies if sort.field
        == RemoteFilesSortField::Name {
        match sort.direction {
            SortDirection::Asc => seq_order(r[i].name_lower@, r[j].name_lower@) <= 0,
            SortDirection::Desc => seq_order(r[j].name_lower@, r[i].name_lower@) <= 0,
        }
    } else {
        seq_order(r[i].name_lower@, r[j].name_lower@) <= 0
    } by {
        assert(dir_item_leq(sort, r[i], r[j]));
        lemma_seq_order_antisym(r[i].name_lower@, r[j].name_lower@);
    }
    if sort.field == RemoteFilesSortField::Name {
        assert forall|i: int, j: int| #![trigger r[i], r[j]] dir_items(items).len() <= i < j < r.len() implies match sort.direction {
            SortDirection::Asc => seq_order(r[i].name_lower@, r[j].name_lower@) <= 0,
            SortDirection::Desc => seq_order(r[j].name_lower@, r[i].name_lower@) <= 0,
        } by {
            assert(file_item_leq(sort, r[i], r[j]));
            lemma_seq_order_antisym(r[i].name_lower@, r[j].name_lower@);
        }
    }
}

/// A sorted list holds the items of the list, and starts with all the
/// folder-like items (bookmarks, places, shared roots and folders), followed
/// by the files.
pub proof fn law_sort_items_groups(
    items: Seq<RemoteFilesBrowserItem>,
    sort: RemoteFilesSort,
    r: Seq<RemoteFilesBrowserItem>,
)
    requires
        sort_items_ok(items, sort, r),
    ensures
        r.to_multiset() == items.to_multiset(),
        forall|i: int, j: int|
            #![trigger r[i], r[j]]
            0 <= i < j < r.len() && (r[i].typ matches RemoteFilesBrowserItemType::File { typ, .. }
                && typ == RemoteFileType::File) ==> (r[j].typ matches RemoteFilesBrowserItemType::File {
                typ,
                ..
            } && typ == RemoteFileType::File),
{
    broadcast use vstd::seq_lib::group_to_multiset_ensures;

    let d = dir_items(items).len() as int;
    let pd = |it: RemoteFilesBrowserItem| item_is_dir(it);
    let pf = |it: RemoteFilesBrowserItem| !item_is_dir(it);
    lemma_partition_len(items);
    assert forall|i: int| #![trigger r[i]] 0 <= i < r.len() implies ((i < d) <==> !(r[i].typ matches RemoteFilesBrowserItemType::File {
        typ,
        ..
    } && typ == RemoteFileType::File)) by {
        if i < d {
            let sub = r.subrange(0, d);
            assert(sub[i] == r[i]);
            assert(sub.contains(r[i]));
            assert(sub.to_multiset().contains(r[i]));
            assert(dir_items(items).contains(r[i]));
            let k = choose|k: int| 0 <= k < dir_items(items).len() && dir_items(items)[k] == r[i];
            items.lemma_filter_pred(pd, k);
        } else {
            let sub = r.subrange(d, r.len() as int);
            assert(sub[i - d] == r[i]);
            assert(sub.contains(r[i]));
            assert(sub.to_multiset().contains(r[i]));
            assert(file_items(items).contains(r[i]));
            let k = choose|k: int| 0 <= k < file_items(items).len() && file_items(items)[k] == r[i];
            items.lemma_filter_pred(pf, k);
        }
    }
    assert forall|i: int, j: int|
        #![trigger r[i], r[j]]
        0 <= i < j < r.len() && (r[i].typ matches RemoteFilesBrowserItemType::File { typ, .. }
            && typ == RemoteFileType::File) implies (r[j].typ matches RemoteFilesBrowserItemType::File {
            typ,
            ..
        } && typ == RemoteFileType::File) by {
        assert(!(i < d));
    }
    assert(r =~= r.subrange(0, d) + r.subrange(d, r.len() as int));
    vstd::seq_lib::lemma_multiset_commutative(r.subrange(0, d), r.subrange(d, r.len() as int));
    lemma_partition_multiset(items);
}

/// Splitting a list into folder-like items and files keeps every item, as
/// counted.
proof fn lemma_partition_multiset(s: Seq<RemoteFilesBrowserItem>)
    ensures
        dir_items(s).to_multiset().add(file_items(s).to_multiset()) == s.to_multiset(),
    decreases s.len(),
{
    broadcast use vstd::seq_lib::group_to_multiset_ensures;

    reveal(Seq::filter);
    if s.len() > 0 {
        lemma_partition_multiset(s.drop_last());
        assert(s =~= s.drop_last().push(s.last()));
        assert(dir_items(s.drop_last()).to_multiset().add(file_items(s.drop_last()).to_multiset())
            == s.drop_last().to_multiset());
        if item_is_dir(s.last()) {
            assert(dir_items(s) =~= dir_items(s.drop_last()).push(s.last()));
            assert(file_items(s) =~= file_items(s.drop_last()));
        } else {
            assert(dir_items(s) =~= dir_items(s.drop_last()));
            assert(file_items(s) =~= file_items(s.drop_last()).push(s.last()));
        }
        assert(dir_items(s).to_multiset().add(file_items(s).to_multiset()) =~= s.to_multiset());
    } else {
        assert(dir_items(s).to_multiset().add(file_items(s).to_multiset()) =~= s.to_multiset());
    }
}

/// Splitting a list into folder-like items and files keeps every item.
proof fn lemma_partition_len(s: Seq<RemoteFilesBrowserItem>)
    ensures
        dir_items(s).len() + file_items(s).len() == s.len(),
    decreases s.len(),
{
    reveal(Seq::filter);
    if s.len() > 0 {
        lemma_partition_len(s.drop_last());
    }
}

/// `b` is a fixed breadcrumb: its id and name, with no mount or path.
pub open spec fn spec_fixed_breadcrumb(b: RemoteFilesBrowserBreadcrumb, id: Seq<char>, name: Seq<char>) -> bool {
    &&& b.id@ == id
    &&& b.mount_id is None
    &&& b.path is None
    &&& b.name@ == name
    &&& !b.last
}

pub fn get_home_breadcrumb() -> (r: RemoteFilesBrowserBreadcrumb)
    ensures
        spec_fixed_breadcrumb(r, ""@, "Koofr"@),
{
    RemoteFilesBrowserBreadcrumb {
        id: copy_str(""),
        mount_id: None,
        path: None,
        name: copy_str("Koofr"),
        last: false,
    }
}

pub fn get_bookmarks_breadcrumb() -> (r: RemoteFilesBrowserBreadcrumb)
    ensures
        spec_fixed_breadcrumb(r, "bookmarks"@, "Bookmarks"@),
{
    RemoteFilesBrowserBreadcrumb {
        id: copy_str("bookmarks"),
        mount_id: None,
        path: None,
        name: copy_str("Bookmarks"),
        last: false,
    }
}

pub fn get_shared_breadcrumb() -> (r: RemoteFilesBrowserBreadcrumb)
    ensures
        spec_fixed_breadcrumb(r, "shared"@, "Shared"@),
{
    RemoteFilesBrowserBreadcrumb {
        id: copy_str("shared"),
        mount_id: None,
        path: None,
        name: copy_str("Shared"),
        last: false,
    }
}

pub fn select_browser<'a>(state: &'a State, browser_id: u32) -> (r: Option<&'a RemoteFilesBrowser>)
    ensures
        match r {
            Some(b) => state.remote_files_browsers.browsers@.contains_key(browser_id)
                && state.remote_files_browsers.browsers@[browser_id] == *b,
            None => !state.remote_files_browsers.browsers@.contains_key(browser_id),
        },
{
    state.remote_files_browsers.browsers.get(&browser_id)
}

/// The location of a browser, if the browser exists and has one.
pub open spec fn spec_browser_location(state: State, browser_id: u32) -> Option<
    RemoteFilesBrowserLocation,
> {
    if state.remote_files_browsers.browsers@.contains_key(browser_id) {
        state.remote_files_browsers.browsers@[browser_id].location
    } else {
        None
    }
}

pub fn select_browser_location<'a>(state: &'a State, browser_id: u32) -> (r: Option<
    &'a RemoteFilesBrowserLocation,
>)
    ensures
        match r {
            Some(l) => spec_browser_location(*state, browser_id) == Some(*l),
            None => spec_browser_location(*state, browser_id) is None,
        },
{
    match select_browser(state, browser_id) {
        Some(browser) => match &browser.location {
            Some(l) => Some(l),
            None => None,
        },
        None => None,
    }
}

/// The items of `files` in a list whose item ids start with `prefix`.
fn files_to_items(files: Vec<&RemoteFile>, prefix: &str) -> (r: Vec<RemoteFilesBrowserItem>)
    ensures
        r@.len() == files@.len(),
        forall|k: int| 0 <= k < r@.len() ==> spec_file_item(#[trigger] r@[k], prefix@, *files@[k]),
{
    let mut r: Vec<RemoteFilesBrowserItem> = Vec::new();
    let n = files.len();
    let mut i: usize = 0;
    while i < n
        invariant
            n == files@.len(),
            i <= n,
            r@.len() == i,
            forall|k: int| 0 <= k < i ==> spec_file_item(#[trigger] r@[k], prefix@, *files@[k]),
        decreases n - i,
    {
        r.push(get_file_item(prefix, files[i], None));
        i = i + 1;
    }
    r
}

/// Whether the home list shows the place `mount`.
pub open spec fn place_shown(only_hosted_devices: bool, mount: Mount) -> bool {
    !only_hosted_devices || (mount.typ == MountType::Device && mount.origin == MountOrigin::Hosted)
}

/// The places that the home list shows.
pub open spec fn home_places(rf: RemoteFilesState, only_hosted_devices: bool) -> Seq<(Mount, RemoteFile)> {
    spec_places_mount_files(rf, id_views(rf.online_place_mount_ids@)).filter(
        |p: (Mount, RemoteFile)| place_shown(only_hosted_devices, p.0),
    )
}

/// Whether the home list starts with the bookmarks entry.
pub open spec fn home_has_bookmarks(rf: RemoteFilesState) -> bool {
    spec_values_of_ids(rf.files@, id_views(rf.bookmark_file_ids@)).len() > 0
}

/// Whether the home list ends with the shared entry.
pub open spec fn home_has_shared(rf: RemoteFilesState, only_hosted_devices: bool) -> bool {
    !only_hosted_devices && spec_shared_mount_files(rf, id_views(rf.shared_file_ids@)).len() > 0
}

/// `r` is the home list.
pub open spec fn home_items_ok(rf: RemoteFilesState, only_hosted_devices: bool, r: Seq<RemoteFilesBrowserItem>) -> bool {
    ({
                        let off: int = if home_has_bookmarks(rf) {
                1
            } else {
                0
            };
            let ps = home_places(rf, only_hosted_devices);
            &&& r.len() == off + ps.len() + (if home_has_shared(rf, only_hosted_devices) {
                1int
            } else {
                0int
            })
            &&& home_has_bookmarks(rf) ==> spec_bookmarks_item(r[0])
            &&& forall|k: int|
                0 <= k < ps.len() ==> spec_place_item(#[trigger] r[off + k], ps[k].0, ps[k].1)
            &&& home_has_shared(rf, only_hosted_devices) ==> spec_shared_item(
                r[r.len() - 1],
            )
        })
}

/// The home list: the bookmarks entry when there are bookmarks, the shown
/// places, and the shared entry when there are shared roots (not when only
/// hosted devices are listed).
pub fn select_home_items(state: &State, options: &super::state::RemoteFilesBrowserOptions) -> (r: Vec<
    RemoteFilesBrowserItem,
>)
    ensures
        home_items_ok(state.remote_files, options.only_hosted_devices, r@),
{
    let ghost rf = state.remote_files;
    let mut items: Vec<RemoteFilesBrowserItem> = Vec::new();
    let bookmarks_files = select_bookmarks_files(state);
    proof {
        assert(bookmarks_files@.len() == spec_values_of_ids(
            rf.files@,
            id_views(rf.bookmark_file_ids@),
        ).len());
    }
    if bookmarks_files.len() > 0 {
        items.push(get_bookmarks_item());
    }
    let ghost off = items@.len() as int;
    let places = select_places_mount_files(state);
    let ghost pv = places@.map_values(|p: (&Mount, &RemoteFile)| (*p.0, *p.1));
    let only = options.only_hosted_devices;
    let n = places.len();
    let mut i: usize = 0;
    while i < n
        invariant
            n == places@.len(),
            pv == places@.map_values(|p: (&Mount, &RemoteFile)| (*p.0, *p.1)),
            i <= n,
            off == (if home_has_bookmarks(rf) {
                1int
            } else {
                0int
            }),
            home_has_bookmarks(rf) ==> spec_bookmarks_item(items@[0]),
            items@.len() == off + pv.take(i as int).filter(
                |p: (Mount, RemoteFile)| place_shown(only, p.0),
            ).len(),
            forall|k: int|
                0 <= k < pv.take(i as int).filter(|p: (Mount, RemoteFile)| place_shown(only, p.0)).len()
                    ==> spec_place_item(
                    #[trigger] items@[off + k],
                    pv.take(i as int).filter(|p: (Mount, RemoteFile)| place_shown(only, p.0))[k].0,
                    pv.take(i as int).filter(|p: (Mount, RemoteFile)| place_shown(only, p.0))[k].1,
                ),
        decreases n - i,
    {
        let (mount, file) = places[i];
        proof {
            assert(pv.take(i + 1).drop_last() =~= pv.take(i as int));
            assert(pv.take(i + 1).last() == (*mount, *file));
            reveal(Seq::filter);
        }
        let shown = !only || (mount.typ == MountType::Device && mount.origin
            == MountOrigin::Hosted);
        if shown {
            items.push(get_place_item(mount, file));
        }
        i = i + 1;
    }
    proof {
        assert(pv.take(n as int) =~= pv);
    }
    if !only {
        let shared = select_shared_mount_files(state);
        proof {
            assert(shared@.len() == spec_shared_mount_files(rf, id_views(rf.shared_file_ids@)).len());
        }
        if shared.len() > 0 {
            items.push(get_shared_item());
        }
    }
    items
}

/// The items of the bookmarked folders, in bookmark order.
/// `r` holds the items of the list.
pub open spec fn bookmarks_items_ok(rf: RemoteFilesState, r: Seq<RemoteFilesBrowserItem>) -> bool {
    ({
            let fs = spec_values_of_ids(
                rf.files@,
                id_views(rf.bookmark_file_ids@),
            );
            &&& r.len() == fs.len()
            &&& forall|k: int|
                0 <= k < r.len() ==> spec_file_item(#[trigger] r[k], "bookmarks:"@, fs[k])
        })
}

pub fn select_bookmarks_items(state: &State) -> (r: Vec<RemoteFilesBrowserItem>)
    ensures
        bookmarks_items_ok(state.remote_files, r@),
{
    let files = select_bookmarks_files(state);
    let ghost fv = files@;
    let r = files_to_items(files, "bookmarks:");
    proof {
        assert forall|k: int| 0 <= k < r@.len() implies spec_file_item(
            #[trigger] r@[k],
            "bookmarks:"@,
            spec_values_of_ids(
                state.remote_files.files@,
                id_views(state.remote_files.bookmark_file_ids@),
            )[k],
        ) by {
            assert(fv.map_values(|f: &RemoteFile| *f)[k] == *fv[k]);
        }
    }
    r
}

/// The items of the loaded children of the location's folder.
/// `r` holds the items of the list.
pub open spec fn files_items_ok(rf: RemoteFilesState, location: super::state::RemoteFilesBrowserLocationFiles, r: Seq<RemoteFilesBrowserItem>) -> bool {
    ({
            let fs = spec_children_files(
                rf,
                spec_file_id(location.mount_id@, location.path@),
            );
            &&& r.len() == fs.len()
            &&& forall|k: int|
                0 <= k < r.len() ==> spec_file_item(
                    #[trigger] r[k],
                    location.item_id_prefix@,
                    fs[k],
                )
        })
}

pub fn select_files_items(state: &State, location: &super::state::RemoteFilesBrowserLocationFiles) -> (r: Vec<
    RemoteFilesBrowserItem,
>)
    ensures
        files_items_ok(state.remote_files, *location, r@),
{
    let files = select_files(state, location.mount_id.as_str(), location.path.as_str());
    let ghost fv = files@;
    let r = files_to_items(files, location.item_id_prefix.as_str());
    proof {
        assert forall|k: int| 0 <= k < r@.len() implies spec_file_item(
            #[trigger] r@[k],
            location.item_id_prefix@,
            spec_children_files(
                state.remote_files,
                spec_file_id(location.mount_id@, location.path@),
            )[k],
        ) by {
            assert(fv.map_values(|f: &RemoteFile| *f)[k] == *fv[k]);
        }
    }
    r
}

/// The items of the shared roots.
/// `r` holds the items of the list.
pub open spec fn shared_items_ok(rf: RemoteFilesState, r: Seq<RemoteFilesBrowserItem>) -> bool {
    ({
            let ps = spec_shared_mount_files(
                rf,
                id_views(rf.shared_file_ids@),
            );
            &&& r.len() == ps.len()
            &&& forall|k: int|
                0 <= k < r.len() ==> spec_file_item(#[trigger] r[k], "shared:"@, ps[k].1)
        })
}

pub fn select_shared_items(state: &State) -> (r: Vec<RemoteFilesBrowserItem>)
    ensures
        shared_items_ok(state.remote_files, r@),
{
    let shared = select_shared_mount_files(state);
    let ghost pv = shared@.map_values(|p: (&Mount, &RemoteFile)| (*p.0, *p.1));
    let mut r: Vec<RemoteFilesBrowserItem> = Vec::new();
    let n = shared.len();
    let mut i: usize = 0;
    while i < n
        invariant
            n == shared@.len(),
            pv == shared@.map_values(|p: (&Mount, &RemoteFile)| (*p.0, *p.1)),
            i <= n,
            r@.len() == i,
            forall|k: int| 0 <= k < i ==> spec_file_item(#[trigger] r@[k], "shared:"@, pv[k].1),
        decreases n - i,
    {
        let (mount, file) = shared[i];
        r.push(get_file_item("shared:", file, Some(mount)));
        i = i + 1;
    }
    r
}

/// Whether what a location lists was loaded at least once.
pub open spec fn spec_location_loaded(state: State, location: RemoteFilesBrowserLocation) -> bool {
    match location {
        RemoteFilesBrowserLocation::Home => state.remote_files.places_loaded
            && state.remote_files.bookmarks_loaded && state.remote_files.shared_files_loaded,
        RemoteFilesBrowserLocation::Bookmarks => state.remote_files.bookmarks_loaded,
        RemoteFilesBrowserLocation::Files(l) => state.remote_files.loaded_roots@.contains_key(
            spec_file_id(l.mount_id@, l.path@),
        ),
        RemoteFilesBrowserLocation::Shared => state.remote_files.shared_files_loaded,
    }
}

pub fn select_is_root_loaded(state: &State, location: &RemoteFilesBrowserLocation) -> (r: bool)
    ensures
        r == spec_location_loaded(*state, *location),
{
    match location {
        RemoteFilesBrowserLocation::Home => state.remote_files.places_loaded
            && state.remote_files.bookmarks_loaded && state.remote_files.shared_files_loaded,
        RemoteFilesBrowserLocation::Bookmarks => state.remote_files.bookmarks_loaded,
        RemoteFilesBrowserLocation::Files(l) => crate::remote_files::selectors::select_is_root_loaded(
            state,
            l.mount_id.as_str(),
            l.path.as_str(),
        ),
        RemoteFilesBrowserLocation::Shared => state.remote_files.shared_files_loaded,
    }
}

/// The items of a browser that are selected, in list order.
pub open spec fn spec_selected_items(b: RemoteFilesBrowser) -> Seq<RemoteFilesBrowserItem> {
    b.items@.filter(|it: RemoteFilesBrowserItem| b.selection.ids().contains(it.id@))
}

/// The selected items are the items of the list whose ids are selected, no
/// other, in the order of the list.
pub proof fn law_selected_items(b: RemoteFilesBrowser, x: RemoteFilesBrowserItem)
    ensures
        spec_selected_items(b).contains(x) <==> (b.items@.contains(x) && b.selection.ids().contains(x.id@)),
        spec_selected_items(b).len() <= b.items@.len(),
{
    let pred = |it: RemoteFilesBrowserItem| b.selection.ids().contains(it.id@);
    b.items@.lemma_filter_len(pred);
    if spec_selected_items(b).contains(x) {
        b.items@.lemma_filter_contains_rev(pred, x);
        let i = choose|i: int| 0 <= i < spec_selected_items(b).len() && spec_selected_items(b)[i] == x;
        b.items@.lemma_filter_pred(pred, i);
    }
    if b.items@.contains(x) && b.selection.ids().contains(x.id@) {
        let i = choose|i: int| 0 <= i < b.items@.len() && b.items@[i] == x;
        b.items@.lemma_filter_contains(pred, i);
    }
}

pub fn select_is_selected(state: &State, browser_id: u32, id: &str) -> (r: bool)
    ensures
        r == (state.remote_files_browsers.browsers@.contains_key(browser_id)
            && state.remote_files_browsers.browsers@[browser_id].selection.ids().contains(id@)),
{
    match select_browser(state, browser_id) {
        Some(browser) => browser.selection.selection.contains_key(&copy_str(id)),
        None => false,
    }
}

pub fn select_selection_summary(state: &State, browser_id: u32) -> (r: SelectionSummary)
    ensures
        state.remote_files_browsers.browsers@.contains_key(browser_id) ==> r
            == spec_selection_summary(
            state.remote_files_browsers.browsers@[browser_id].selection.ids().len(),
            state.remote_files_browsers.browsers@[browser_id].items@.len(),
        ),
        !state.remote_files_browsers.browsers@.contains_key(browser_id) ==> r
            == SelectionSummary::Empty,
{
    match select_browser(state, browser_id) {
        Some(browser) => summary_of(&browser.selection, browser.items.len()),
        None => SelectionSummary::Empty,
    }
}

/// The selected items of `items`, in order.
fn selected_of<'a>(items: &'a Vec<RemoteFilesBrowserItem>, selection: &crate::selection::Selection) -> (r: Vec<
    &'a RemoteFilesBrowserItem,
>)
    ensures
        r@.map_values(|x: &RemoteFilesBrowserItem| *x) == items@.filter(
            |it: RemoteFilesBrowserItem| selection.ids().contains(it.id@),
        ),
{
    let mut r: Vec<&'a RemoteFilesBrowserItem> = Vec::new();
    let n = items.len();
    let mut i: usize = 0;
    while i < n
        invariant
            n == items@.len(),
            i <= n,
            r@.map_values(|x: &RemoteFilesBrowserItem| *x) == items@.take(i as int).filter(
                |it: RemoteFilesBrowserItem| selection.ids().contains(it.id@),
            ),
        decreases n - i,
    {
        let ghost before = r@;
        proof {
            assert(items@.take(i + 1).drop_last() =~= items@.take(i as int));
            reveal(Seq::filter);
        }
        if selection.selection.contains_key(&items[i].id) {
            r.push(&items[i]);
            proof {
                assert(r@.map_values(|x: &RemoteFilesBrowserItem| *x) =~= before.map_values(
                    |x: &RemoteFilesBrowserItem| *x,
                ).push(items@[i as int]));
            }
        }
        i = i + 1;
    }
    proof {
        assert(items@.take(n as int) =~= items@);
    }
    r
}

pub fn select_selected_items<'a>(state: &'a State, browser_id: u32) -> (r: Vec<
    &'a RemoteFilesBrowserItem,
>)
    ensures
        state.remote_files_browsers.browsers@.contains_key(browser_id) ==> r@.map_values(
            |x: &RemoteFilesBrowserItem| *x,
        ) == spec_selected_items(state.remote_files_browsers.browsers@[browser_id]),
        !state.remote_files_browsers.browsers@.contains_key(browser_id) ==> r@.len() == 0,
{
    match select_browser(state, browser_id) {
        Some(browser) => selected_of(&browser.items, &browser.selection),
        None => Vec::new(),
    }
}

/// Each item of a browser with whether it is selected.
pub fn select_items_infos<'a>(state: &'a State, browser_id: u32) -> (r: Vec<
    RemoteFilesBrowserItemInfo<'a>,
>)
    ensures
        state.remote_files_browsers.browsers@.contains_key(browser_id) ==> {
            let b = state.remote_files_browsers.browsers@[browser_id];
            &&& r@.len() == b.items@.len()
            &&& forall|k: int|
                0 <= k < r@.len() ==> *(#[trigger] r@[k]).item == b.items@[k] && r@[k].is_selected
                    == b.selection.ids().contains(b.items@[k].id@)
        },
        !state.remote_files_browsers.browsers@.contains_key(browser_id) ==> r@.len() == 0,
{
    let mut r: Vec<RemoteFilesBrowserItemInfo<'a>> = Vec::new();
    match select_browser(state, browser_id) {
        Some(browser) => {
            let n = browser.items.len();
            let mut i: usize = 0;
            while i < n
                invariant
                    n == browser.items@.len(),
                    i <= n,
                    r@.len() == i,
                    forall|k: int|
                        0 <= k < i ==> *(#[trigger] r@[k]).item == browser.items@[k]
                            && r@[k].is_selected == browser.selection.ids().contains(
                            browser.items@[k].id@,
                        ),
                decreases n - i,
            {
                let item = &browser.items[i];
                let is_selected = browser.selection.selection.contains_key(&item.id);
                r.push(RemoteFilesBrowserItemInfo { item, is_selected });
                i = i + 1;
            }
        },
        None => {},
    }
    r
}

/// `b` is the browser breadcrumb of the folder `chain[i]` of the mount `mount`.
pub open spec fn spec_folder_breadcrumb(
    b: RemoteFilesBrowserBreadcrumb,
    mount: Mount,
    mount_id: Seq<char>,
    chain: Seq<Seq<char>>,
    i: int,
) -> bool {
    &&& b.id@ == spec_file_id(mount_id, lowercase(chain[i]))
    &&& b.mount_id matches Some(m) && m@ == mount_id
    &&& b.path matches Some(p) && p@ == chain[i]
    &&& b.name@ == match spec_path_to_name(chain[i]) {
        Some(n) => n,
        None => mount.name@,
    }
}

/// Folder locations reached through bookmarks or places show the folder's
/// chain of ancestors; those reached through shared roots show "Shared".
pub open spec fn shows_folder_chain(prefix: Seq<char>) -> bool {
    prefix == "bookmarks:"@ || prefix == "places:"@
}

/// The breadcrumbs after the home one, as the location gives them.
pub open spec fn spec_breadcrumbs_rest(
    state: State,
    location: Option<RemoteFilesBrowserLocation>,
    r: Seq<RemoteFilesBrowserBreadcrumb>,
) -> bool {
    match location {
        Some(RemoteFilesBrowserLocation::Bookmarks) => r.len() == 2 && r[1].id@ == "bookmarks"@
            && r[1].mount_id is None && r[1].path is None && r[1].name@ == "Bookmarks"@,
        Some(RemoteFilesBrowserLocation::Shared) => r.len() == 2 && r[1].id@ == "shared"@
            && r[1].mount_id is None && r[1].path is None && r[1].name@ == "Shared"@,
        Some(RemoteFilesBrowserLocation::Files(l)) => if shows_folder_chain(l.item_id_prefix@) {
            if state.remote_files.mounts@.contains_key(l.mount_id@) {
                let chain = spec_paths_chain(l.path@);
                &&& r.len() == 1 + chain.len()
                &&& forall|i: int|
                    0 <= i < chain.len() ==> spec_folder_breadcrumb(
                        #[trigger] r[i + 1],
                        state.remote_files.mounts@[l.mount_id@],
                        l.mount_id@,
                        chain,
                        i,
                    )
            } else {
                r.len() == 1
            }
        } else if l.item_id_prefix@ == "shared:"@ {
            r.len() == 2 && r[1].id@ == "shared"@ && r[1].mount_id is None && r[1].path is None
                && r[1].name@ == "Shared"@
        } else {
            r.len() == 1
        },
        _ => r.len() == 1,
    }
}

/// The breadcrumbs of a browser: home, then what its location adds. Only
/// the last one is marked last.
pub fn select_breadcrumbs(state: &State, browser_id: u32) -> (r: Vec<RemoteFilesBrowserBreadcrumb>)
    ensures
        r@.len() >= 1,
        r@[0].id@ == ""@ && r@[0].mount_id is None && r@[0].path is None && r@[0].name@
            == "Koofr"@,
        spec_breadcrumbs_rest(*state, spec_browser_location(*state, browser_id), r@),
        r@[r@.len() - 1].last,
        forall|i: int| 0 <= i < r@.len() - 1 ==> !(#[trigger] r@[i]).last,
{
    let mut crumbs: Vec<RemoteFilesBrowserBreadcrumb> = Vec::new();
    crumbs.push(get_home_breadcrumb());
    match select_browser_location(state, browser_id) {
        Some(location) => match location {
            RemoteFilesBrowserLocation::Home => {},
            RemoteFilesBrowserLocation::Bookmarks => {
                crumbs.push(get_bookmarks_breadcrumb());
            },
            RemoteFilesBrowserLocation::Files(l) => {
                let p = l.item_id_prefix.as_str();
                if str_eq(p, "bookmarks:") || str_eq(p, "places:") {
                    let remote = crate::remote_files::selectors::select_breadcrumbs(
                        state,
                        &l.mount_id,
                        l.path.as_str(),
                    );
                    let n = remote.len();
                    let mut i: usize = 0;
                    while i < n
                        invariant
                            n == remote@.len(),
                            i <= n,
                            crumbs@.len() == 1 + i,
                            crumbs@[0].id@ == ""@ && crumbs@[0].mount_id is None
                                && crumbs@[0].path is None && crumbs@[0].name@ == "Koofr"@
                                && !crumbs@[0].last,
                            forall|k: int|
                                0 <= k < i ==> (#[trigger] crumbs@[k + 1]).id@ == remote@[k].id@
                                    && crumbs@[k + 1].mount_id == Some(remote@[k].mount_id)
                                    && crumbs@[k + 1].path == Some(remote@[k].path)
                                    && crumbs@[k + 1].name == remote@[k].name
                                    && crumbs@[k + 1].last == remote@[k].last,
                        decreases n - i,
                    {
                        let b = &remote[i];
                        crumbs.push(
                            RemoteFilesBrowserBreadcrumb {
                                id: copy_str(b.id.as_str()),
                                mount_id: Some(b.mount_id.clone()),
                                path: Some(b.path.clone()),
                                name: b.name.clone(),
                                last: b.last,
                            },
                        );
                        i = i + 1;
                    }
                    proof {
                        if state.remote_files.mounts@.contains_key(l.mount_id@) {
                            let chain = spec_paths_chain(l.path@);
                            assert forall|k: int| 0 <= k < crumbs@.len() - 1 implies !(
                            #[trigger] crumbs@[k]).last by {
                                if k > 0 {
                                    let j = k - 1;
                                    assert(crumbs@[j + 1].last == remote@[j].last);
                                    assert(spec_breadcrumb_ok(
                                        remote@[k - 1],
                                        state.remote_files.mounts@[l.mount_id@],
                                        l.mount_id@,
                                        chain,
                                        k - 1,
                                    ));
                                }
                            }
                            assert forall|k: int| 0 <= k < chain.len() implies spec_folder_breadcrumb(
                                #[trigger] crumbs@[k + 1],
                                state.remote_files.mounts@[l.mount_id@],
                                l.mount_id@,
                                chain,
                                k,
                            ) by {
                                assert(spec_breadcrumb_ok(
                                    remote@[k],
                                    state.remote_files.mounts@[l.mount_id@],
                                    l.mount_id@,
                                    chain,
                                    k,
                                ));
                            }
                        }
                    }
                } else if str_eq(p, "shared:") {
                    crumbs.push(get_shared_breadcrumb());
                }
            },
            RemoteFilesBrowserLocation::Shared => {
                crumbs.push(get_shared_breadcrumb());
            },
        },
        None => {},
    }
    let ghost before = crumbs@;
    assert(forall|k: int| 0 <= k < before.len() - 1 ==> !(#[trigger] before[k]).last);
    let mut last = crumbs.pop().unwrap();
    last.last = true;
    crumbs.push(last);
    proof {
        assert forall|i: int| 0 <= i < crumbs@.len() - 1 implies !(#[trigger] crumbs@[i]).last by {
            assert(crumbs@[i] == before[i]);
        }
    }
    crumbs
}

/// The view of an optional string.
pub open spec fn opt_view(o: Option<String>) -> Option<Seq<char>> {
    match o {
        Some(s) => Some(s@),
        None => None,
    }
}

/// The mount, path and name of the last breadcrumb of a browser.
pub open spec fn spec_last_crumb(state: State, browser_id: u32) -> (
    Option<Seq<char>>,
    Option<Seq<char>>,
    Seq<char>,
) {
    match spec_browser_location(state, browser_id) {
        Some(RemoteFilesBrowserLocation::Bookmarks) => (None, None, "Bookmarks"@),
        Some(RemoteFilesBrowserLocation::Shared) => (None, None, "Shared"@),
        Some(RemoteFilesBrowserLocation::Files(l)) => if shows_folder_chain(l.item_id_prefix@)
            && state.remote_files.mounts@.contains_key(l.mount_id@) {
            (
                Some(l.mount_id@),
                Some(l.path@),
                match spec_path_to_name(l.path@) {
                    Some(n) => n,
                    None => state.remote_files.mounts@[l.mount_id@].name@,
                },
            )
        } else if !shows_folder_chain(l.item_id_prefix@) && l.item_id_prefix@ == "shared:"@ {
            (None, None, "Shared"@)
        } else {
            (None, None, "Koofr"@)
        },
        _ => (None, None, "Koofr"@),
    }
}

/// The size of an item, or 0 when it has none.
pub open spec fn size_or_zero(it: RemoteFilesBrowserItem) -> int {
    match it.size {
        Some(s) => s as int,
        None => 0,
    }
}

/// The total size of some items.
pub open spec fn sum_sizes(s: Seq<RemoteFilesBrowserItem>) -> int
    decreases s.len(),
{
    if s.len() == 0 {
        0
    } else {
        sum_sizes(s.drop_last()) + size_or_zero(s.last())
    }
}

/// The total size of a list is the sum over every item of its size, an item
/// without a size counting 0: nothing for no items, an item's own size for a
/// single item, and the totals of two lists add up when they are joined.
pub proof fn law_sum_sizes(a: Seq<RemoteFilesBrowserItem>, b: Seq<RemoteFilesBrowserItem>, x: RemoteFilesBrowserItem)
    ensures
        sum_sizes(Seq::<RemoteFilesBrowserItem>::empty()) == 0,
        sum_sizes(seq![x]) == match x.size {
            Some(v) => v as int,
            None => 0int,
        },
        sum_sizes(a + b) == sum_sizes(a) + sum_sizes(b),
    decreases b.len(),
{
    assert(seq![x].drop_last() =~= Seq::<RemoteFilesBrowserItem>::empty());
    if b.len() > 0 {
        law_sum_sizes(a, b.drop_last(), x);
        assert((a + b).drop_last() =~= a + b.drop_last());
        assert((a + b).last() == b.last());
    } else {
        assert(a + b =~= a);
    }
}

/// Summing the sizes of `s` in order never leaves the range of `i64`.
pub open spec fn sizes_fit(s: Seq<RemoteFilesBrowserItem>) -> bool {
    forall|k: int| 0 <= k <= s.len() ==> i64::MIN <= #[trigger] sum_sizes(s.take(k)) <= i64::MAX
}

fn sum_item_sizes(items: &Vec<&RemoteFilesBrowserItem>) -> (r: i64)
    requires
        sizes_fit(items@.map_values(|x: &RemoteFilesBrowserItem| *x)),
    ensures
        r == sum_sizes(items@.map_values(|x: &RemoteFilesBrowserItem| *x)),
{
    let ghost s = items@.map_values(|x: &RemoteFilesBrowserItem| *x);
    let mut total: i64 = 0;
    let n = items.len();
    let mut i: usize = 0;
    proof {
        assert(s.take(0) =~= Seq::<RemoteFilesBrowserItem>::empty());
    }
    while i < n
        invariant
            n == items@.len(),
            s == items@.map_values(|x: &RemoteFilesBrowserItem| *x),
            sizes_fit(s),
            i <= n,
            total == sum_sizes(s.take(i as int)),
        decreases n - i,
    {
        proof {
            assert(s.take(i + 1).drop_last() =~= s.take(i as int));
            assert(s.take(i + 1).last() == *items@[i as int]);
            assert(i64::MIN <= sum_sizes(s.take(i + 1)) <= i64::MAX);
        }
        let add = match items[i].size {
            Some(x) => x,
            None => 0,
        };
        total = total + add;
        i = i + 1;
    }
    proof {
        assert(s.take(n as int) =~= s);
    }
    total
}

/// What a browser shows above its list: where it is (from its last
/// breadcrumb), its sort and status, and the counts and total sizes of all
/// and of the selected items. Sizes that are missing count as 0.
pub fn select_info<'a>(state: &'a State, browser_id: u32) -> (r: Option<RemoteFilesBrowserInfo<'a>>)
    requires
        state.remote_files_browsers.browsers@.contains_key(browser_id) ==> sizes_fit(
            state.remote_files_browsers.browsers@[browser_id].items@,
        ) && sizes_fit(spec_selected_items(state.remote_files_browsers.browsers@[browser_id])),
    ensures
        r is Some <==> state.remote_files_browsers.browsers@.contains_key(browser_id),
        r matches Some(info) ==> {
            let b = state.remote_files_browsers.browsers@[browser_id];
            let sel = spec_selected_items(b);
            let last = spec_last_crumb(*state, browser_id);
            &&& opt_view(info.mount_id) == last.0
            &&& opt_view(info.path) == last.1
            &&& opt_view(info.title) == Some(last.2)
            &&& info.can_create_dir == (last.0 is Some && last.1 is Some)
            &&& info.selection_summary == spec_selection_summary(
                b.selection.ids().len(),
                b.items@.len(),
            )
            &&& info.sort == b.sort
            &&& *info.status == b.status
            &&& info.total_count == b.items@.len()
            &&& info.total_size == sum_sizes(b.items@)
            &&& info.selected_count == sel.len()
            &&& info.selected_size == sum_sizes(sel)
            &&& (sel.len() == 1 ==> (info.selected_item matches Some(x) && *x == sel[0]))
            &&& (sel.len() != 1 ==> info.selected_item is None)
        },
{
    let browser = match select_browser(state, browser_id) {
        Some(browser) => browser,
        None => {
            return None;
        },
    };
    let breadcrumbs = select_breadcrumbs(state, browser_id);
    let last_i = breadcrumbs.len() - 1;
    let last = &breadcrumbs[last_i];
    proof {
        match spec_browser_location(*state, browser_id) {
            Some(RemoteFilesBrowserLocation::Files(l)) => {
                let chain = spec_paths_chain(l.path@);
                assert(chain.len() >= 1 && chain[chain.len() - 1] == l.path@);
                if shows_folder_chain(l.item_id_prefix@) && state.remote_files.mounts@.contains_key(
                    l.mount_id@,
                ) {
                    let j = chain.len() - 1;
                    assert(spec_folder_breadcrumb(
                        breadcrumbs@[j + 1],
                        state.remote_files.mounts@[l.mount_id@],
                        l.mount_id@,
                        chain,
                        j,
                    ));
                }
            },
            _ => {},
        }
    }
    let mount_id = match &last.mount_id {
        Some(m) => Some(copy_str(m.as_str())),
        None => None,
    };
    let path = match &last.path {
        Some(p) => Some(copy_str(p.as_str())),
        None => None,
    };
    let title = Some(copy_str(last.name.as_str()));
    let mut all: Vec<&RemoteFilesBrowserItem> = Vec::new();
    let n = browser.items.len();
    let mut i: usize = 0;
    while i < n
        invariant
            n == browser.items@.len(),
            i <= n,
            all@.map_values(|x: &RemoteFilesBrowserItem| *x) == browser.items@.take(i as int),
        decreases n - i,
    {
        let ghost before = all@;
        all.push(&browser.items[i]);
        proof {
            assert(all@.map_values(|x: &RemoteFilesBrowserItem| *x) =~= before.map_values(
                |x: &RemoteFilesBrowserItem| *x,
            ).push(browser.items@[i as int]));
            assert(browser.items@.take(i + 1) =~= browser.items@.take(i as int).push(
                browser.items@[i as int],
            ));
        }
        i = i + 1;
    }
    proof {
        assert(browser.items@.take(n as int) =~= browser.items@);
    }
    let total_size = sum_item_sizes(&all);
    let selected = selected_of(&browser.items, &browser.selection);
    let selected_count = selected.len();
    let selected_size = sum_item_sizes(&selected);
    let selected_item = if selected_count == 1 {
        Some(selected[0])
    } else {
        None
    };
    let can_create_dir = mount_id.is_some() && path.is_some();
    Some(
        RemoteFilesBrowserInfo {
            mount_id,
            path,
            selection_summary: summary_of(&browser.selection, browser.items.len()),
            sort: browser.sort,
            status: &browser.status,
            title,
            total_count: browser.items.len(),
            total_size,
            selected_count,
            selected_size,
            selected_item,
            can_create_dir,
        },
    )
}

/// The file id of the folder a browser is in, if it is in a folder.
pub fn select_root_file_id(state: &State, browser_id: u32) -> (r: Option<String>)
    ensures
        match spec_browser_location(*state, browser_id) {
            Some(RemoteFilesBrowserLocation::Files(l)) => r matches Some(id) && id@ == spec_file_id(
                l.mount_id@,
                l.path@,
            ),
            _ => r is None,
        },
{
    match select_browser_location(state, browser_id) {
        Some(RemoteFilesBrowserLocation::Files(l)) => Some(
            crate::remote_files::selectors::get_file_id(l.mount_id.as_str(), l.path.as_str()),
        ),
        _ => None,
    }
}

/// The record of the folder a browser is in, if it is in a known folder.
pub fn select_root_file<'a>(state: &'a State, browser_id: u32) -> (r: Option<&'a RemoteFile>)
    ensures
        match spec_browser_location(*state, browser_id) {
            Some(RemoteFilesBrowserLocation::Files(l)) => {
                let id = spec_file_id(l.mount_id@, l.path@);
                match r {
                    Some(f) => state.remote_files.files@.contains_key(id)
                        && state.remote_files.files@[id] == *f,
                    None => !state.remote_files.files@.contains_key(id),
                }
            },
            _ => r is None,
        },
{
    match select_root_file_id(state, browser_id) {
        Some(id) => crate::remote_files::selectors::select_file(state, &id),
        None => None,
    }
}

} // verus!
