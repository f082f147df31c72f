//! The rows of a folder picker over the remote storage: bookmarks, places
//! and shared roots, each opening into its folders.
use vstd::prelude::*;
use vstd::string::*;

use crate::dir_pickers::{
    item_views, select_selected_file_id, spec_selected_file_id, DirPicker, DirPickerItem,
    DirPickerItemType, DirPickerItemV, DirPickerOptions,
};
use crate::keymap::{spec_values_of_ids, values_of_ids};
use crate::paths::root_path;
use crate::remote::{ApiErrorCode, MountOrigin, MountType, RemoteError};
use crate::remote_files::errors::RemoteFilesErrors;
use crate::remote_files::selectors::{
    get_file_id, select_check_new_name_valid, select_file, select_file_name, select_mount,
    select_places_mount_files, spec_file_id, spec_name_valid, spec_new_name_taken,
    spec_places_mount_files,
};
use crate::remote_files::state::{id_views, Mount, RemoteFile, RemoteFileType, RemoteFilesState};
use crate::store::State;
use crate::strings::{concat, copy_str, lowercase, to_lowercase};

use super::state::Options;

verus! {

/// The id of the bookmark row of the file `file_id`.
pub fn get_bookmark_id(file_id: &str) -> (r: String)
    ensures
        r@ == "bookmarks:"@ + file_id@,
{
    concat("bookmarks:", file_id)
}

/// The id of the place row of the file `file_id`.
pub fn get_places_id(file_id: &str) -> (r: String)
    ensures
        r@ == "places:"@ + file_id@,
{
    concat("places:", file_id)
}

/// The id of the shared row of the file `file_id`.
pub fn get_shared_id(file_id: &str) -> (r: String)
    ensures
        r@ == "shared:"@ + file_id@,
{
    concat("shared:", file_id)
}

/// The options of a remote picker; a picker opened otherwise lists everything.
pub open spec fn spec_only_hosted(picker: DirPicker) -> bool {
    match picker.options {
        DirPickerOptions::Remote { only_hosted_devices } => only_hosted_devices,
        DirPickerOptions::Repo { .. } => false,
    }
}

pub fn get_options(picker: &DirPicker) -> (r: Options)
    ensures
        r.only_hosted_devices == spec_only_hosted(*picker),
{
    match &picker.options {
        DirPickerOptions::Remote { only_hosted_devices } => Options {
            only_hosted_devices: *only_hosted_devices,
        },
        DirPickerOptions::Repo { .. } => Options { only_hosted_devices: false },
    }
}

/// The name a picker shows for a file: the mount's name at a root.
pub open spec fn spec_file_name(rf: RemoteFilesState, file: RemoteFile) -> Option<Seq<char>> {
    if file.path@ == root_path() {
        if rf.mounts@.contains_key(file.mount_id@) {
            Some(rf.mounts@[file.mount_id@].name@)
        } else {
            None
        }
    } else {
        Some(file.name@)
    }
}

/// The loaded sub-folders of a folder, when its listing was loaded.
pub open spec fn dir_children(rf: RemoteFilesState, file_id: Seq<char>) -> Option<Seq<RemoteFile>> {
    if rf.children@.contains_key(file_id) {
        Some(
            spec_values_of_ids(rf.files@, id_views(rf.children@[file_id]@)).filter(
                |f: RemoteFile| f.typ == RemoteFileType::Dir,
            ),
        )
    } else {
        None
    }
}

/// The deepest level that rows can be on.
pub open spec fn max_depth() -> int {
    65535
}

/// Whether a picker that lists only hosted devices skips files of `mount`.
pub open spec fn mount_hidden(only_hosted: bool, mount: Mount) -> bool {
    only_hosted && (mount.typ != MountType::Device || mount.origin != MountOrigin::Hosted)
}

/// The row of `file` at `depth`, when it is shown.
pub open spec fn visit_row(
    rf: RemoteFilesState,
    picker: DirPicker,
    file: RemoteFile,
    prefix: Seq<char>,
    depth: int,
    override_type: Option<DirPickerItemType>,
) -> DirPickerItemV {
    let id = prefix + file.id@;
    let children = dir_children(rf, file.id@);
    let has_arrow = depth > 0 && match children {
        Some(c) => c.len() > 0,
        None => true,
    };
    let mount = rf.mounts@[file.mount_id@];
    DirPickerItemV {
        id,
        file_id: Some(file.id@),
        typ: match override_type {
            Some(t) => t,
            None => if file.path@ == root_path() {
                DirPickerItemType::Mount { typ: mount.typ, origin: mount.origin }
            } else {
                DirPickerItemType::Folder
            },
        },
        is_open: picker.open_ids@.contains_key(id),
        is_selected: match picker.selected_id {
            Some(s) => s@ == id,
            None => false,
        },
        is_selectable: true,
        is_loading: picker.loading_ids@.contains_key(id),
        spaces: (depth - if has_arrow {
            1int
        } else {
            0int
        }) as u16,
        has_arrow,
        text: spec_file_name(rf, file)->0,
    }
}

/// The rows of `file` at `depth` and, when its row is open, of its
/// sub-folders one level deeper, depth first.
pub open spec fn visit_items(
    rf: RemoteFilesState,
    picker: DirPicker,
    file: RemoteFile,
    prefix: Seq<char>,
    depth: int,
    override_type: Option<DirPickerItemType>,
    only_hosted: bool,
) -> Seq<DirPickerItemV>
    decreases max_depth() - depth, 1int, 0int,
{
    if spec_file_name(rf, file) is None || !rf.mounts@.contains_key(file.mount_id@) || mount_hidden(
        only_hosted,
        rf.mounts@[file.mount_id@],
    ) {
        Seq::empty()
    } else {
        let row = visit_row(rf, picker, file, prefix, depth, override_type);
        match dir_children(rf, file.id@) {
            Some(children) => if row.is_open && depth < max_depth() {
                seq![row] + visit_list(rf, picker, children, prefix, depth, only_hosted)
            } else {
                seq![row]
            },
            None => seq![row],
        }
    }
}

/// The rows of the sub-folders `children` of a row at `depth`.
pub open spec fn visit_list(
    rf: RemoteFilesState,
    picker: DirPicker,
    children: Seq<RemoteFile>,
    prefix: Seq<char>,
    depth: int,
    only_hosted: bool,
) -> Seq<DirPickerItemV>
    decreases max_depth() - depth, 0int, children.len(),
{
    if children.len() == 0 || depth >= max_depth() {
        Seq::empty()
    } else {
        visit_list(rf, picker, children.drop_last(), prefix, depth, only_hosted) + visit_items(
            rf,
            picker,
            children.last(),
            prefix,
            depth + 1,
            None,
            only_hosted,
        )
    }
}

/// The rows of each of `files` at `depth`, one after the other.
pub open spec fn visit_seq(
    rf: RemoteFilesState,
    picker: DirPicker,
    files: Seq<RemoteFile>,
    prefix: Seq<char>,
    depth: int,
    override_type: Option<DirPickerItemType>,
    only_hosted: bool,
) -> Seq<DirPickerItemV>
    decreases files.len(),
{
    if files.len() == 0 {
        Seq::empty()
    } else {
        visit_seq(rf, picker, files.drop_last(), prefix, depth, override_type, only_hosted)
            + visit_items(rf, picker, files.last(), prefix, depth, override_type, only_hosted)
    }
}

/// The rows under a row at `depth` are those of its sub-folders, one level
/// deeper, one sub-folder after the other.
proof fn lemma_visit_list_seq(
    rf: RemoteFilesState,
    picker: DirPicker,
    children: Seq<RemoteFile>,
    prefix: Seq<char>,
    depth: int,
    only_hosted: bool,
)
    requires
        depth < max_depth(),
    ensures
        visit_list(rf, picker, children, prefix, depth, only_hosted) == visit_seq(
            rf,
            picker,
            children,
            prefix,
            depth + 1,
            None,
            only_hosted,
        ),
    decreases children.len(),
{
    if children.len() > 0 {
        lemma_visit_list_seq(rf, picker, children.drop_last(), prefix, depth, only_hosted);
    }
}

/// A shown folder gives one row, for itself, open when the picker holds its
/// row id among the open ones. When it is open and its sub-folders are
/// loaded, that row is followed by the rows of each sub-folder one level
/// deeper, in order; when it is closed, by nothing.
pub proof fn law_visit_open_folder(
    rf: RemoteFilesState,
    picker: DirPicker,
    file: RemoteFile,
    prefix: Seq<char>,
    depth: int,
    override_type: Option<DirPickerItemType>,
    only_hosted: bool,
)
    requires
        spec_file_name(rf, file) is Some,
        rf.mounts@.contains_key(file.mount_id@),
        !mount_hidden(only_hosted, rf.mounts@[file.mount_id@]),
        0 <= depth < max_depth(),
    ensures
        ({
            let rows = visit_items(rf, picker, file, prefix, depth, override_type, only_hosted);
            &&& rows.len() >= 1
            &&& rows[0].id == prefix + file.id@
            &&& rows[0].file_id == Some(file.id@)
            &&& rows[0].is_open == picker.open_ids@.contains_key(prefix + file.id@)
            &&& rows[0].is_selected == (picker.selected_id matches Some(sid) && sid@ == prefix + file.id@)
            &&& rows[0].is_loading == picker.loading_ids@.contains_key(prefix + file.id@)
            &&& rows[0].is_selectable
            &&& rows[0].has_arrow == (depth > 0 && match dir_children(rf, file.id@) {
                Some(c) => c.len() > 0,
                None => true,
            })
            &&& rows[0].spaces as int == if rows[0].has_arrow {
                depth - 1
            } else {
                depth
            }
            &&& rows[0].text == spec_file_name(rf, file)->0
            &&& !picker.open_ids@.contains_key(prefix + file.id@) ==> rows.len() == 1
            &&& picker.open_ids@.contains_key(prefix + file.id@) ==> match dir_children(rf, file.id@) {
                Some(c) => rows == seq![rows[0]] + visit_seq(rf, picker, c, prefix, depth + 1, None, only_hosted),
                None => rows.len() == 1,
            }
        }),
{
    match dir_children(rf, file.id@) {
        Some(c) => {
            lemma_visit_list_seq(rf, picker, c, prefix, depth, only_hosted);
        },
        None => {},
    }
}

/// The rows of a list of files are the rows of each file, one file after the
/// other: none for no files, a file's own rows for one file, and the rows of
/// two lists joined for the two lists joined.
pub proof fn law_visit_seq(
    rf: RemoteFilesState,
    picker: DirPicker,
    a: Seq<RemoteFile>,
    b: Seq<RemoteFile>,
    f: RemoteFile,
    prefix: Seq<char>,
    depth: int,
    override_type: Option<DirPickerItemType>,
    only_hosted: bool,
)
    ensures
        visit_seq(rf, picker, Seq::empty(), prefix, depth, override_type, only_hosted) == Seq::<
            DirPickerItemV,
        >::empty(),
        visit_seq(rf, picker, seq![f], prefix, depth, override_type, only_hosted) == visit_items(
            rf,
            picker,
            f,
            prefix,
            depth,
            override_type,
            only_hosted,
        ),
        visit_seq(rf, picker, a + b, prefix, depth, override_type, only_hosted) == visit_seq(
            rf,
            picker,
            a,
            prefix,
            depth,
            override_type,
            only_hosted,
        ) + visit_seq(rf, picker, b, prefix, depth, override_type, only_hosted),
    decreases b.len(),
{
    assert(seq![f].drop_last() =~= Seq::<RemoteFile>::empty());
    let x = visit_items(rf, picker, f, prefix, depth, override_type, only_hosted);
    assert(Seq::<DirPickerItemV>::empty() + x =~= x);
    assert(seq![f].last() == f);
    assert(visit_seq(rf, picker, Seq::empty(), prefix, depth, override_type, only_hosted) == Seq::<DirPickerItemV>::empty());
    assert(visit_seq(rf, picker, seq![f].drop_last(), prefix, depth, override_type, only_hosted) == Seq::<DirPickerItemV>::empty());
    assert(visit_seq(rf, picker, seq![f], prefix, depth, override_type, only_hosted) == visit_seq(rf, picker, seq![f].drop_last(), prefix, depth, override_type, only_hosted) + x);
    assert(visit_seq(rf, picker, seq![f], prefix, depth, override_type, only_hosted) =~= visit_items(
        rf,
        picker,
        f,
        prefix,
        depth,
        override_type,
        only_hosted,
    ));
    if b.len() > 0 {
        law_visit_seq(rf, picker, a, b.drop_last(), f, prefix, depth, override_type, only_hosted);
        assert((a + b).drop_last() =~= a + b.drop_last());
        assert((a + b).last() == b.last());
    } else {
        assert(a + b =~= a);
    }
}

/// The loaded sub-folders of the folder `file_id`.
fn select_dir_children<'a>(state: &'a State, file_id: &String) -> (r: Option<Vec<&'a RemoteFile>>)
    ensures
        match r {
            Some(c) => dir_children(state.remote_files, file_id@) == Some(
                c@.map_values(|f: &RemoteFile| *f),
            ),
            None => dir_children(state.remote_files, file_id@) is None,
        },
{
    let ids = match crate::remote_files::selectors::select_children(state, file_id) {
        Some(ids) => ids,
        None => {
            return None;
        },
    };
    let all = values_of_ids(&state.remote_files.files, ids);
    let ghost av = all@.map_values(|f: &RemoteFile| *f);
    let mut r: Vec<&'a RemoteFile> = Vec::new();
    let n = all.len();
    let mut i: usize = 0;
    while i < n
        invariant
            n == all@.len(),
            av == all@.map_values(|f: &RemoteFile| *f),
            i <= n,
            r@.map_values(|f: &RemoteFile| *f) == av.take(i as int).filter(
                |f: RemoteFile| f.typ == RemoteFileType::Dir,
            ),
        decreases n - i,
    {
        let ghost before = r@;
        proof {
            assert(av.take(i + 1).drop_last() =~= av.take(i as int));
            assert(av.take(i + 1).last() == *all@[i as int]);
            reveal(Seq::filter);
        }
        if all[i].typ == RemoteFileType::Dir {
            r.push(all[i]);
            proof {
                assert(r@.map_values(|f: &RemoteFile| *f) =~= before.map_values(
                    |f: &RemoteFile| *f,
                ).push(*all@[i as int]));
            }
        }
        i = i + 1;
    }
    proof {
        assert(av.take(n as int) =~= av);
    }
    Some(r)
}

/// Appends the rows of `file` at `depth` and, when its row is open, of its
/// sub-folders below it. A file whose name or mount is not known, or whose
/// mount is not a hosted device when only those are listed, adds nothing.
fn select_items_visit_file(
    state: &State,
    picker: &DirPicker,
    items: &mut Vec<DirPickerItem>,
    file: &RemoteFile,
    id_prefix: &str,
    depth: u16,
    override_type: Option<DirPickerItemType>,
    options: &Options,
)
    ensures
        item_views(final(items)@) == item_views(old(items)@) + visit_items(
            state.remote_files,
            *picker,
            *file,
            id_prefix@,
            depth as int,
            override_type,
            options.only_hosted_devices,
        ),
    decreases max_depth() - depth,
{
    let ghost rf = state.remote_files;
    let ghost start = item_views(items@);
    let children = select_dir_children(state, &file.id);
    let id = concat(id_prefix, file.id.as_str());
    let name = match select_file_name(state, file) {
        Some(name) => name,
        None => {
            assert(item_views(items@) =~= start + Seq::<DirPickerItemV>::empty());
            return;
        },
    };
    let mount = match select_mount(state, &file.mount_id) {
        Some(mount) => mount,
        None => {
            assert(item_views(items@) =~= start + Seq::<DirPickerItemV>::empty());
            return;
        },
    };
    if options.only_hosted_devices {
        if mount.typ != MountType::Device || mount.origin != MountOrigin::Hosted {
            assert(item_views(items@) =~= start + Seq::<DirPickerItemV>::empty());
            return;
        }
    }
    let is_root = crate::paths::is_root(file.path.as_str());
    let typ = match override_type {
        Some(t) => t,
        None => if is_root {
            DirPickerItemType::Mount { typ: mount.typ, origin: mount.origin }
        } else {
            DirPickerItemType::Folder
        },
    };
    let is_open = picker.open_ids.contains_key(&id);
    let is_selected = match &picker.selected_id {
        Some(s) => crate::strings::str_eq(s.as_str(), id.as_str()),
        None => false,
    };
    let is_loading = picker.loading_ids.contains_key(&id);
    let has_arrow = depth > 0 && match &children {
        Some(c) => c.len() > 0,
        None => true,
    };
    let spaces: u16 = if has_arrow {
        depth - 1
    } else {
        depth
    };
    items.push(
        DirPickerItem {
            id,
            file_id: Some(copy_str(file.id.as_str())),
            typ,
            is_open,
            is_selected,
            is_selectable: true,
            is_loading,
            spaces,
            has_arrow,
            text: copy_str(name.as_str()),
        },
    );
    let ghost row = visit_row(rf, *picker, *file, id_prefix@, depth as int, override_type);
    proof {
        assert(items@.last()@ == row);
        assert(item_views(items@) =~= start + seq![row]);
    }
    if is_open && depth < 65535 {
        match children {
            Some(c) => {
                let ghost cv = c@.map_values(|f: &RemoteFile| *f);
                let n = c.len();
                let mut i: usize = 0;
                while i < n
                    invariant
                        n == c@.len(),
                        cv == c@.map_values(|f: &RemoteFile| *f),
                        rf == state.remote_files,
                        i <= n,
                        depth < 65535,
                        item_views(items@) == start + seq![row] + visit_list(
                            rf,
                            *picker,
                            cv.take(i as int),
                            id_prefix@,
                            depth as int,
                            options.only_hosted_devices,
                        ),
                    decreases n - i,
                {
                    let ghost before = item_views(items@);
                    let child: &RemoteFile = c[i];
                    select_items_visit_file(
                        state,
                        picker,
                        items,
                        child,
                        id_prefix,
                        depth + 1,
                        None,
                        options,
                    );
                    proof {
                        assert(cv.take(i + 1).drop_last() =~= cv.take(i as int));
                        assert(cv.take(i + 1).last() == *c@[i as int]);
                        assert(visit_list(
                            rf,
                            *picker,
                            cv.take(i + 1),
                            id_prefix@,
                            depth as int,
                            options.only_hosted_devices,
                        ) == visit_list(
                            rf,
                            *picker,
                            cv.take(i as int),
                            id_prefix@,
                            depth as int,
                            options.only_hosted_devices,
                        ) + visit_items(
                            rf,
                            *picker,
                            *c@[i as int],
                            id_prefix@,
                            depth + 1,
                            None,
                            options.only_hosted_devices,
                        ));
                        assert(item_views(items@) =~= start + seq![row] + visit_list(
                            rf,
                            *picker,
                            cv.take(i + 1),
                            id_prefix@,
                            depth as int,
                            options.only_hosted_devices,
                        ));
                    }
                    i = i + 1;
                }
                proof {
                    assert(cv.take(n as int) =~= cv);
                }
            },
            None => {},
        }
    }
}

/// Appends the rows of each of `files` at `depth`, one after the other.
fn visit_files(
    state: &State,
    picker: &DirPicker,
    items: &mut Vec<DirPickerItem>,
    files: &Vec<&RemoteFile>,
    id_prefix: &str,
    depth: u16,
    override_type: Option<DirPickerItemType>,
    options: &Options,
)
    ensures
        item_views(final(items)@) == item_views(old(items)@) + visit_seq(
            state.remote_files,
            *picker,
            files@.map_values(|f: &RemoteFile| *f),
            id_prefix@,
            depth as int,
            override_type,
            options.only_hosted_devices,
        ),
{
    let ghost fv = files@.map_values(|f: &RemoteFile| *f);
    let ghost start = item_views(items@);
    let n = files.len();
    let mut i: usize = 0;
    proof {
        assert(fv.take(0) =~= Seq::<RemoteFile>::empty());
        assert(item_views(items@) =~= start + Seq::<DirPickerItemV>::empty());
    }
    while i < n
        invariant
            n == files@.len(),
            fv == files@.map_values(|f: &RemoteFile| *f),
            i <= n,
            item_views(items@) == start + visit_seq(
                state.remote_files,
                *picker,
                fv.take(i as int),
                id_prefix@,
                depth as int,
                override_type,
                options.only_hosted_devices,
            ),
        decreases n - i,
    {
        select_items_visit_file(state, picker, items, files[i], id_prefix, depth, override_type, options);
        proof {
            assert(fv.take(i + 1).drop_last() =~= fv.take(i as int));
            assert(fv.take(i + 1).last() == *files@[i as int]);
            assert(item_views(items@) =~= start + visit_seq(
                state.remote_files,
                *picker,
                fv.take(i + 1),
                id_prefix@,
                depth as int,
                override_type,
                options.only_hosted_devices,
            ));
        }
        i = i + 1;
    }
    proof {
        assert(fv.take(n as int) =~= fv);
    }
}

/// The row that heads a group (bookmarks or shared roots).
pub open spec fn head_row(picker: DirPicker, id: Seq<char>, typ: DirPickerItemType, text: Seq<char>) -> DirPickerItemV {
    DirPickerItemV {
        id,
        file_id: None,
        typ,
        is_open: picker.open_ids@.contains_key(id),
        is_selected: false,
        is_selectable: false,
        is_loading: picker.loading_ids@.contains_key(id),
        spaces: 0,
        has_arrow: false,
        text,
    }
}

/// The bookmarks group: its head when there are bookmarks, then, when open,
/// the bookmarked folders one level down.
pub open spec fn bookmarks_rows(rf: RemoteFilesState, picker: DirPicker, only_hosted: bool) -> Seq<DirPickerItemV> {
    let bs = spec_values_of_ids(rf.files@, id_views(rf.bookmark_file_ids@));
    let h = head_row(picker, "bookmarks"@, DirPickerItemType::Bookmarks, "Bookmarks"@);
    if bs.len() == 0 {
        Seq::empty()
    } else if h.is_open {
        seq![h] + visit_seq(rf, picker, bs, "bookmarks:"@, 1, Some(DirPickerItemType::Bookmark), only_hosted)
    } else {
        seq![h]
    }
}

/// The places: the root of each online place, at the top level.
pub open spec fn places_rows(rf: RemoteFilesState, picker: DirPicker, only_hosted: bool) -> Seq<DirPickerItemV> {
    visit_seq(
        rf,
        picker,
        spec_places_mount_files(rf, id_views(rf.online_place_mount_ids@)).map_values(
            |p: (Mount, RemoteFile)| p.1,
        ),
        "places:"@,
        0,
        None,
        only_hosted,
    )
}

/// The shared group (not when only hosted devices are listed): its head when
/// there are shared roots, then, when open, the roots one level down.
pub open spec fn shared_rows(rf: RemoteFilesState, picker: DirPicker, only_hosted: bool) -> Seq<DirPickerItemV> {
    let ss = spec_values_of_ids(rf.files@, id_views(rf.shared_file_ids@));
    let h = head_row(picker, "shared"@, DirPickerItemType::Shared, "Shared"@);
    if only_hosted || ss.len() == 0 {
        Seq::empty()
    } else if h.is_open {
        seq![h] + visit_seq(rf, picker, ss, "shared:"@, 1, None, only_hosted)
    } else {
        seq![h]
    }
}

/// The bookmarks group shows nothing without bookmarks, else a head row
/// "Bookmarks" that cannot be selected; when the head is open, it is followed
/// by the rows of the bookmarked folders one level down, and when closed, by
/// nothing. The shared group is the same with "Shared", except that it shows
/// nothing when only hosted devices are listed.
pub proof fn law_picker_groups(rf: RemoteFilesState, picker: DirPicker, only_hosted: bool)
    ensures
        ({
            let bs = spec_values_of_ids(rf.files@, id_views(rf.bookmark_file_ids@));
            let rows = bookmarks_rows(rf, picker, only_hosted);
            &&& bs.len() == 0 ==> rows.len() == 0
            &&& bs.len() > 0 ==> {
                &&& rows.len() >= 1
                &&& rows[0].id == "bookmarks"@
                &&& rows[0].text == "Bookmarks"@
                &&& rows[0].typ == DirPickerItemType::Bookmarks
                &&& !rows[0].is_selectable
                &&& rows[0].is_open == picker.open_ids@.contains_key("bookmarks"@)
                &&& picker.open_ids@.contains_key("bookmarks"@) ==> rows == seq![rows[0]] + visit_seq(
                    rf,
                    picker,
                    bs,
                    "bookmarks:"@,
                    1,
                    Some(DirPickerItemType::Bookmark),
                    only_hosted,
                )
                &&& !picker.open_ids@.contains_key("bookmarks"@) ==> rows.len() == 1
            }
        }),
        ({
            let ss = spec_values_of_ids(rf.files@, id_views(rf.shared_file_ids@));
            let rows = shared_rows(rf, picker, only_hosted);
            &&& only_hosted || ss.len() == 0 ==> rows.len() == 0
            &&& !only_hosted && ss.len() > 0 ==> {
                &&& rows.len() >= 1
                &&& rows[0].id == "shared"@
                &&& rows[0].text == "Shared"@
                &&& rows[0].typ == DirPickerItemType::Shared
                &&& !rows[0].is_selectable
                &&& rows[0].is_open == picker.open_ids@.contains_key("shared"@)
                &&& picker.open_ids@.contains_key("shared"@) ==> rows == seq![rows[0]] + visit_seq(
                    rf,
                    picker,
                    ss,
                    "shared:"@,
                    1,
                    None,
                    only_hosted,
                )
                &&& !picker.open_ids@.contains_key("shared"@) ==> rows.len() == 1
            }
        }),
{
}

fn head_item(picker: &DirPicker, id: &str, typ: DirPickerItemType, text: &str) -> (r: DirPickerItem)
    ensures
        r@ == head_row(*picker, id@, typ, text@),
{
    let id = copy_str(id);
    let is_open = picker.open_ids.contains_key(&id);
    let is_loading = picker.loading_ids.contains_key(&id);
    DirPickerItem {
        id,
        file_id: None,
        typ,
        is_open,
        is_selected: false,
        is_selectable: false,
        is_loading,
        spaces: 0,
        has_arrow: false,
        text: copy_str(text),
    }
}

pub fn select_items_bookmarks(
    state: &State,
    picker: &DirPicker,
    items: &mut Vec<DirPickerItem>,
    options: &Options,
)
    ensures
        item_views(final(items)@) == item_views(old(items)@) + bookmarks_rows(
            state.remote_files,
            *picker,
            options.only_hosted_devices,
        ),
{
    let ghost start = item_views(items@);
    let bookmarks = values_of_ids(&state.remote_files.files, &state.remote_files.bookmark_file_ids);
    if bookmarks.len() > 0 {
        let h = head_item(picker, "bookmarks", DirPickerItemType::Bookmarks, "Bookmarks");
        let is_open = h.is_open;
        items.push(h);
        proof {
            assert(item_views(items@) =~= start + seq![items@.last()@]);
        }
        if is_open {
            visit_files(
                state,
                picker,
                items,
                &bookmarks,
                "bookmarks:",
                1,
                Some(DirPickerItemType::Bookmark),
                options,
            );
            proof {
                assert(item_views(items@) =~= start + bookmarks_rows(
                    state.remote_files,
                    *picker,
                    options.only_hosted_devices,
                ));
            }
        }
    } else {
        assert(item_views(items@) =~= start + Seq::<DirPickerItemV>::empty());
    }
}

pub fn select_items_places(
    state: &State,
    picker: &DirPicker,
    items: &mut Vec<DirPickerItem>,
    options: &Options,
)
    ensures
        item_views(final(items)@) == item_views(old(items)@) + places_rows(
            state.remote_files,
            *picker,
            options.only_hosted_devices,
        ),
{
    let places = select_places_mount_files(state);
    let ghost pv = places@.map_values(|p: (&Mount, &RemoteFile)| (*p.0, *p.1));
    let mut files: Vec<&RemoteFile> = Vec::new();
    let n = places.len();
    let mut i: usize = 0;
    while i < n
        invariant
            n == places@.len(),
            pv == places@.map_values(|p: (&Mount, &RemoteFile)| (*p.0, *p.1)),
            i <= n,
            files@.map_values(|f: &RemoteFile| *f) == pv.take(i as int).map_values(
                |p: (Mount, RemoteFile)| p.1,
            ),
        decreases n - i,
    {
        let ghost before = files@;
        files.push(places[i].1);
        proof {
            assert(files@.map_values(|f: &RemoteFile| *f) =~= before.map_values(
                |f: &RemoteFile| *f,
            ).push(pv[i as int].1));
            assert(pv.take(i + 1).map_values(|p: (Mount, RemoteFile)| p.1) =~= pv.take(
                i as int,
            ).map_values(|p: (Mount, RemoteFile)| p.1).push(pv[i as int].1));
        }
        i = i + 1;
    }
    proof {
        assert(pv.take(n as int) =~= pv);
    }
    visit_files(state, picker, items, &files, "places:", 0, None, options);
}

pub fn select_items_shared(
    state: &State,
    picker: &DirPicker,
    items: &mut Vec<DirPickerItem>,
    options: &Options,
)
    ensures
        item_views(final(items)@) == item_views(old(items)@) + shared_rows(
            state.remote_files,
            *picker,
            options.only_hosted_devices,
        ),
{
    let ghost start = item_views(items@);
    if options.only_hosted_devices {
        assert(item_views(items@) =~= start + Seq::<DirPickerItemV>::empty());
        return;
    }
    let shared = values_of_ids(&state.remote_files.files, &state.remote_files.shared_file_ids);
    if shared.len() > 0 {
        let h = head_item(picker, "shared", DirPickerItemType::Shared, "Shared");
        let is_open = h.is_open;
        items.push(h);
        proof {
            assert(item_views(items@) =~= start + seq![items@.last()@]);
        }
        if is_open {
            visit_files(state, picker, items, &shared, "shared:", 1, None, options);
            proof {
                assert(item_views(items@) =~= start + shared_rows(
                    state.remote_files,
                    *picker,
                    options.only_hosted_devices,
                ));
            }
        }
    } else {
        assert(item_views(items@) =~= start + Seq::<DirPickerItemV>::empty());
    }
}

/// The rows of a remote picker: the bookmarks group, the places, and the
/// shared group.
pub fn select_items(state: &State, picker: &DirPicker) -> (r: Vec<DirPickerItem>)
    ensures
        item_views(r@) == bookmarks_rows(state.remote_files, *picker, spec_only_hosted(*picker))
            + places_rows(state.remote_files, *picker, spec_only_hosted(*picker)) + shared_rows(
            state.remote_files,
            *picker,
            spec_only_hosted(*picker),
        ),
{
    let options = get_options(picker);
    let mut items: Vec<DirPickerItem> = Vec::new();
    proof {
        assert(item_views(items@) =~= Seq::<DirPickerItemV>::empty());
    }
    select_items_bookmarks(state, picker, &mut items, &options);
    select_items_places(state, picker, &mut items, &options);
    select_items_shared(state, picker, &mut items, &options);
    proof {
        assert(item_views(items@) =~= bookmarks_rows(state.remote_files, *picker, spec_only_hosted(*picker))
            + places_rows(state.remote_files, *picker, spec_only_hosted(*picker)) + shared_rows(
            state.remote_files,
            *picker,
            spec_only_hosted(*picker),
        ));
    }
    items
}

/// The file of the selected row of a picker, when it is known.
pub fn select_selected_file<'a>(state: &'a State, picker_id: u32) -> (r: Option<&'a RemoteFile>)
    ensures
        match spec_selected_file_id(*state, picker_id) {
            Some(id) => match r {
                Some(f) => state.remote_files.files@.contains_key(id)
                    && state.remote_files.files@[id] == *f,
                None => !state.remote_files.files@.contains_key(id),
            },
            None => r is None,
        },
{
    match select_selected_file_id(state, picker_id) {
        Some(id) => select_file(state, &id),
        None => None,
    }
}

/// A folder can be created in the selected row's folder, when it is known.
pub fn select_create_dir_enabled(state: &State, picker_id: u32) -> (r: bool)
    ensures
        r == (spec_selected_file_id(*state, picker_id) matches Some(id)
            && state.remote_files.files@.contains_key(id)),
{
    select_selected_file(state, picker_id).is_some()
}

/// Checks that a folder named `name` can be created in the selected row's
/// folder: the folder must be known and the name valid and free.
pub fn select_check_create_dir(state: &State, picker_id: u32, name: &str) -> (r: Result<
    (),
    RemoteError,
>)
    ensures
        match spec_selected_file_id(*state, picker_id) {
            Some(id) if state.remote_files.files@.contains_key(id) => {
                let parent = state.remote_files.files@[id];
                &&& r is Ok <==> spec_name_valid(name@) && !spec_new_name_taken(
                    state.remote_files,
                    parent.mount_id@,
                    lowercase(parent.path@),
                    name@,
                )
                &&& !spec_name_valid(name@) ==> (r matches Err(e)
                    && crate::remote_files::errors::spec_invalid_path_error(e))
                &&& spec_name_valid(name@) && spec_new_name_taken(
                    state.remote_files,
                    parent.mount_id@,
                    lowercase(parent.path@),
                    name@,
                ) ==> (r matches Err(e) && crate::remote_files::errors::spec_already_exists_error(e))
            },
            _ => r matches Err(e) && e.spec_is_api_error_code(ApiErrorCode::NotFound),
        },
{
    let parent = match select_selected_file(state, picker_id) {
        Some(f) => f,
        None => {
            return Err(RemoteFilesErrors::not_found());
        },
    };
    let lower = to_lowercase(parent.path.as_str());
    select_check_new_name_valid(state, parent.mount_id.as_str(), lower.as_str(), name)
}

} // verus!
