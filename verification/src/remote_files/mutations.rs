//! Changing the remote files state when listings and events arrive.
use vstd::prelude::*;
use vstd::string::*;

use crate::keymap::{spec_values_of_ids, values_of_ids, KeyMap};
use crate::paths::{
    join_path_name, parent_path, path_to_name, root, root_path, spec_join_path_name,
    spec_parent_path, spec_path_to_name,
};
use crate::remote::{ApiMount, Bookmark, Bundle, FilesFile, MountType, SharedFile};
use crate::seq_facts::{lemma_map_multiset, reversed};
use crate::sorting::{sort_by_order, sorted_by, stable_rearrangement, SortOrder};
use crate::store::State;
use crate::strings::{
    concat, copy_str, ends_with_char, lemma_seq_order_antisym, lemma_seq_order_trans, lowercase,
    seq_order, compare_strs, str_eq, to_lowercase,
};

use super::selectors::{get_file_id, ids_contain, spec_file_id};
use super::state::{copy_ids, id_views, Mount, RemoteFile, RemoteFileType, RemoteFilesState};

verus! {

/// "dir" names a folder; anything else a file.
pub open spec fn spec_file_type(typ: Seq<char>) -> RemoteFileType {
    if typ == "dir"@ {
        RemoteFileType::Dir
    } else {
        RemoteFileType::File
    }
}

pub fn file_type_from_str(typ: &str) -> (r: RemoteFileType)
    ensures
        r == spec_file_type(typ@),
{
    if str_eq(typ, "dir") {
        RemoteFileType::Dir
    } else {
        RemoteFileType::File
    }
}

/// `r` has the given identity, name and type; its lower-cased name follows its name.
pub open spec fn spec_remote_file(
    r: RemoteFile,
    id: Seq<char>,
    mount_id: Seq<char>,
    path: Seq<char>,
    name: Seq<char>,
    typ: RemoteFileType,
    size: Option<i64>,
    modified: Option<i64>,
) -> bool {
    &&& r.id@ == id
    &&& r.mount_id@ == mount_id
    &&& r.path@ == path
    &&& r.name@ == name
    &&& r.name_lower@ == lowercase(name)
    &&& r.typ == typ
    &&& r.size == size
    &&& r.modified == modified
}

/// `r` is the record of the listed file `file`.
pub open spec fn spec_listed_file(
    r: RemoteFile,
    id: Seq<char>,
    mount_id: Seq<char>,
    path: Seq<char>,
    file: FilesFile,
) -> bool {
    &&& spec_remote_file(
        r,
        id,
        mount_id,
        path,
        file.name@,
        spec_file_type(file.typ@),
        Some(file.size),
        Some(file.modified),
    )
    &&& r.hash == file.hash
    &&& r.tags == file.tags
}

/// The root folder of a mount.
pub fn mount_to_remote_file(id: String, mount_id: String) -> (r: RemoteFile)
    ensures
        spec_remote_file(r, id@, mount_id@, root_path(), Seq::empty(), RemoteFileType::Dir, None, None),
        r.hash is None,
        r.tags@ == Map::<Seq<char>, Vec<String>>::empty(),
{
    let name = String::new();
    let name_lower = to_lowercase(name.as_str());
    proof {
        // The lower-cased empty name is read back as the empty name's image.
        assert(name@ == Seq::<char>::empty());
    }
    RemoteFile {
        id,
        mount_id,
        path: root(),
        name,
        name_lower,
        typ: RemoteFileType::Dir,
        size: None,
        modified: None,
        hash: None,
        tags: KeyMap::new(),
    }
}

/// The record of a listed file.
pub fn files_file_to_remote_file(id: String, mount_id: String, path: String, file: FilesFile) -> (r:
    RemoteFile)
    ensures
        spec_listed_file(r, id@, mount_id@, path@, file),
{
    let name_lower = to_lowercase(file.name.as_str());
    let typ = file_type_from_str(file.typ.as_str());
    RemoteFile {
        id,
        mount_id,
        path,
        name: file.name,
        name_lower,
        typ,
        size: Some(file.size),
        modified: Some(file.modified),
        hash: file.hash,
        tags: file.tags,
    }
}

/// The record of a file of a folder listing.
pub fn bundle_file_to_remote_file(id: String, mount_id: String, path: String, file: FilesFile) -> (r:
    RemoteFile)
    ensures
        spec_listed_file(r, id@, mount_id@, path@, file),
{
    files_file_to_remote_file(id, mount_id, path, file)
}

/// The record of a bookmarked folder.
pub fn bookmark_to_remote_file(id: String, bookmark: Bookmark) -> (r: RemoteFile)
    ensures
        spec_remote_file(
            r,
            id@,
            bookmark.mount_id@,
            bookmark.path@,
            bookmark.name@,
            RemoteFileType::Dir,
            None,
            None,
        ),
        r.hash is None,
        r.tags@ == Map::<Seq<char>, Vec<String>>::empty(),
{
    let name_lower = to_lowercase(bookmark.name.as_str());
    RemoteFile {
        id,
        mount_id: bookmark.mount_id,
        path: bookmark.path,
        name: bookmark.name,
        name_lower,
        typ: RemoteFileType::Dir,
        size: None,
        modified: None,
        hash: None,
        tags: KeyMap::new(),
    }
}

/// The record of the root of a share: the root of the share's mount.
pub fn shared_file_to_remote_file(id: String, shared_file: SharedFile) -> (r: RemoteFile)
    ensures
        spec_remote_file(
            r,
            id@,
            shared_file.mount.id@,
            root_path(),
            shared_file.name@,
            spec_file_type(shared_file.typ@),
            Some(shared_file.size),
            Some(shared_file.modified),
        ),
        r.hash is None,
        r.tags@ == Map::<Seq<char>, Vec<String>>::empty(),
{
    let name_lower = to_lowercase(shared_file.name.as_str());
    let typ = file_type_from_str(shared_file.typ.as_str());
    RemoteFile {
        id,
        mount_id: shared_file.mount.id,
        path: root(),
        name: shared_file.name,
        name_lower,
        typ,
        size: Some(shared_file.size),
        modified: Some(shared_file.modified),
        hash: None,
        tags: KeyMap::new(),
    }
}

/// The name of a folder at `path`: its last component, or "" at the root.
pub open spec fn spec_dir_name(path: Seq<char>) -> Seq<char> {
    match spec_path_to_name(path) {
        Some(n) => n,
        None => Seq::empty(),
    }
}

/// The record of a folder that was just created.
pub fn dir_to_remote_file(id: String, mount_id: String, path: String) -> (r: RemoteFile)
    ensures
        spec_remote_file(
            r,
            id@,
            mount_id@,
            path@,
            spec_dir_name(path@),
            RemoteFileType::Dir,
            None,
            None,
        ),
        r.hash is None,
        r.tags@ == Map::<Seq<char>, Vec<String>>::empty(),
{
    let name = match path_to_name(path.as_str()) {
        Some(name) => name,
        None => String::new(),
    };
    let name_lower = to_lowercase(name.as_str());
    RemoteFile {
        id,
        mount_id,
        path,
        name,
        name_lower,
        typ: RemoteFileType::Dir,
        size: None,
        modified: None,
        hash: None,
        tags: KeyMap::new(),
    }
}

/// `m` is the mount record of `api`.
pub open spec fn spec_mount_of(m: Mount, api: ApiMount) -> bool {
    &&& m.id@ == api.id@
    &&& m.name@ == api.name@
    &&& m.name_lower@ == lowercase(api.name@)
    &&& m.typ == api.typ
    &&& m.origin == api.origin
    &&& m.online == api.online
    &&& m.is_primary == api.is_primary
}

pub fn api_mount_to_mount(mount: ApiMount) -> (r: Mount)
    ensures
        spec_mount_of(r, mount),
{
    let name_lower = to_lowercase(mount.name.as_str());
    Mount {
        id: mount.id,
        name: mount.name,
        name_lower,
        typ: mount.typ,
        origin: mount.origin,
        online: mount.online,
        is_primary: mount.is_primary,
    }
}

/// The parts of the remote state other than the mounts are unchanged.
pub open spec fn same_but_mounts(a: RemoteFilesState, b: RemoteFilesState) -> bool {
    &&& a.files@ == b.files@
    &&& a.children@ == b.children@
    &&& a.loaded_roots@ == b.loaded_roots@
    &&& a.bookmark_file_ids@ == b.bookmark_file_ids@
    &&& a.shared_file_ids@ == b.shared_file_ids@
    &&& a.place_mount_ids@ == b.place_mount_ids@
    &&& a.online_place_mount_ids@ == b.online_place_mount_ids@
    &&& a.places_loaded == b.places_loaded
    &&& a.bookmarks_loaded == b.bookmarks_loaded
    &&& a.shared_files_loaded == b.shared_files_loaded
}

/// The parts of the remote state other than the files and children are unchanged.
pub open spec fn same_but_files_children(a: RemoteFilesState, b: RemoteFilesState) -> bool {
    &&& a.mounts@ == b.mounts@
    &&& a.loaded_roots@ == b.loaded_roots@
    &&& a.recent@ == b.recent@
    &&& a.bookmark_file_ids@ == b.bookmark_file_ids@
    &&& a.shared_file_ids@ == b.shared_file_ids@
    &&& a.place_mount_ids@ == b.place_mount_ids@
    &&& a.online_place_mount_ids@ == b.online_place_mount_ids@
    &&& a.places_loaded == b.places_loaded
    &&& a.bookmarks_loaded == b.bookmarks_loaded
    &&& a.shared_files_loaded == b.shared_files_loaded
}

/// Only the remote files part of the state changes.
pub open spec fn only_remote_files_changed(a: State, b: State) -> bool {
    &&& a.remote_files_browsers == b.remote_files_browsers
    &&& a.dir_pickers == b.dir_pickers
    &&& a.repos == b.repos
    &&& a.repo_files == b.repo_files
    &&& a.repo_creates == b.repo_creates
    &&& a.repo_config_backups == b.repo_config_backups
    &&& a.repo_files_details == b.repo_files_details
    &&& a.repo_files_browsers == b.repo_files_browsers
    &&& a.repo_files_move == b.repo_files_move
    &&& a.file_types == b.file_types
}

/// Records a mount under its id.
pub fn mount_loaded(state: &mut State, mount: ApiMount)
    ensures
        final(state).remote_files.mounts@.dom() == old(state).remote_files.mounts@.dom().insert(
            mount.id@,
        ),
        spec_mount_of(final(state).remote_files.mounts@[mount.id@], mount),
        forall|k: Seq<char>|
            k != mount.id@ && old(state).remote_files.mounts@.contains_key(k) ==> final(state).remote_files.mounts@[k] == old(state).remote_files.mounts@[k],
        same_but_mounts(old(state).remote_files, final(state).remote_files),
        only_remote_files_changed(*old(state), *final(state)),
{
    let id = copy_str(mount.id.as_str());
    let m = api_mount_to_mount(mount);
    state.remote_files.mounts.insert(id, m);
}

/// Records a place: its mount and the mount's root folder.
pub fn place_loaded(state: &mut State, mount: ApiMount)
    ensures
        ({
            let fid = spec_file_id(mount.id@, root_path());
            &&& final(state).remote_files.files@.dom() == old(state).remote_files.files@.dom().insert(fid)
            &&& spec_remote_file(
                final(state).remote_files.files@[fid],
                fid,
                mount.id@,
                root_path(),
                Seq::empty(),
                RemoteFileType::Dir,
                None,
                None,
            )
            &&& forall|k: Seq<char>|
                k != fid && old(state).remote_files.files@.contains_key(k) ==> final(state).remote_files.files@[k] == old(state).remote_files.files@[k]
        }),
        final(state).remote_files.mounts@.dom() == old(state).remote_files.mounts@.dom().insert(
            mount.id@,
        ),
        spec_mount_of(final(state).remote_files.mounts@[mount.id@], mount),
        final(state).remote_files.children@ == old(state).remote_files.children@,
        final(state).remote_files.loaded_roots@ == old(state).remote_files.loaded_roots@,
        final(state).remote_files.bookmark_file_ids@ == old(state).remote_files.bookmark_file_ids@,
        final(state).remote_files.shared_file_ids@ == old(state).remote_files.shared_file_ids@,
        only_remote_files_changed(*old(state), *final(state)),
{
    let slash = root();
    let file_id = get_file_id(mount.id.as_str(), slash.as_str());
    let f = mount_to_remote_file(copy_str(file_id.as_str()), copy_str(mount.id.as_str()));
    state.remote_files.files.insert(file_id, f);
    mount_loaded(state, mount);
}

/// Records a bookmark: its folder, and its id at the end of the bookmarks.
pub fn bookmark_loaded(state: &mut State, bookmark: Bookmark)
    ensures
        ({
            let fid = spec_file_id(bookmark.mount_id@, bookmark.path@);
            &&& final(state).remote_files.files@.dom() == old(state).remote_files.files@.dom().insert(fid)
            &&& spec_remote_file(
                final(state).remote_files.files@[fid],
                fid,
                bookmark.mount_id@,
                bookmark.path@,
                bookmark.name@,
                RemoteFileType::Dir,
                None,
                None,
            )
            &&& forall|k: Seq<char>|
                k != fid && old(state).remote_files.files@.contains_key(k) ==> final(state).remote_files.files@[k] == old(state).remote_files.files@[k]
            &&& id_views(final(state).remote_files.bookmark_file_ids@) == id_views(
                old(state).remote_files.bookmark_file_ids@,
            ).push(fid)
        }),
        final(state).remote_files.mounts@ == old(state).remote_files.mounts@,
        final(state).remote_files.children@ == old(state).remote_files.children@,
        final(state).remote_files.shared_file_ids@ == old(state).remote_files.shared_file_ids@,
        only_remote_files_changed(*old(state), *final(state)),
{
    let file_id = get_file_id(bookmark.mount_id.as_str(), bookmark.path.as_str());
    let ghost before = state.remote_files.bookmark_file_ids@;
    let f = bookmark_to_remote_file(copy_str(file_id.as_str()), bookmark);
    state.remote_files.files.insert(copy_str(file_id.as_str()), f);
    state.remote_files.bookmark_file_ids.push(file_id);
    proof {
        assert(id_views(state.remote_files.bookmark_file_ids@) =~= id_views(before).push(
            state.remote_files.bookmark_file_ids@.last()@,
        ));
    }
}

/// Replaces the bookmarks with `bookmarks`, in their order.
pub fn bookmarks_loaded(state: &mut State, bookmarks: Vec<Bookmark>)
    ensures
        id_views(final(state).remote_files.bookmark_file_ids@) == bookmarks@.map_values(
            |b: Bookmark| spec_file_id(b.mount_id@, b.path@),
        ),
        forall|i: int|
            0 <= i < bookmarks.len() ==> final(state).remote_files.files@.contains_key(
                spec_file_id(#[trigger] bookmarks@[i].mount_id@, bookmarks@[i].path@),
            ),
        final(state).remote_files.mounts@ == old(state).remote_files.mounts@,
        final(state).remote_files.children@ == old(state).remote_files.children@,
        only_remote_files_changed(*old(state), *final(state)),
{
    state.remote_files.bookmark_file_ids.clear();
    let ghost all = bookmarks@;
    let ghost target = all.map_values(|b: Bookmark| spec_file_id(b.mount_id@, b.path@));
    let ghost old_mounts = state.remote_files.mounts@;
    let ghost old_children = state.remote_files.children@;
    let mut rest = reversed(bookmarks);
    let mut i: usize = 0;
    let n = rest.len();
    proof {
        assert(id_views(state.remote_files.bookmark_file_ids@) =~= target.take(0));
    }
    while rest.len() > 0
        invariant
            only_remote_files_changed(*old(state), *state),
            n == all.len(),
            i <= n,
            rest.len() == n - i,
            forall|j: int| 0 <= j < rest.len() ==> rest@[j] == all[n - 1 - j],
            target == all.map_values(|b: Bookmark| spec_file_id(b.mount_id@, b.path@)),
            id_views(state.remote_files.bookmark_file_ids@) == target.take(i as int),
            forall|j: int|
                0 <= j < i ==> state.remote_files.files@.contains_key(
                    spec_file_id(#[trigger] all[j].mount_id@, all[j].path@),
                ),
            state.remote_files.mounts@ == old_mounts,
            state.remote_files.children@ == old_children,
        decreases rest.len(),
    {
        let b = rest.pop().unwrap();
        proof {
            assert(b == all[i as int]);
        }
        bookmark_loaded(state, b);
        proof {
            assert(target.take(i + 1) =~= target.take(i as int).push(target[i as int]));
        }
        i = i + 1;
    }
    proof {
        assert(target.take(n as int) =~= target);
    }
}

/// Records the root of a share: its mount, its file, and its id at the end
/// of the shared list.
pub fn shared_file_loaded(state: &mut State, shared_file: SharedFile)
    ensures
        ({
            let fid = spec_file_id(shared_file.mount.id@, root_path());
            &&& final(state).remote_files.files@.contains_key(fid)
            &&& spec_remote_file(
                final(state).remote_files.files@[fid],
                fid,
                shared_file.mount.id@,
                root_path(),
                shared_file.name@,
                spec_file_type(shared_file.typ@),
                Some(shared_file.size),
                Some(shared_file.modified),
            )
            &&& id_views(final(state).remote_files.shared_file_ids@) == id_views(
                old(state).remote_files.shared_file_ids@,
            ).push(fid)
        }),
        final(state).remote_files.mounts@.contains_key(shared_file.mount.id@),
        spec_mount_of(final(state).remote_files.mounts@[shared_file.mount.id@], shared_file.mount),
        final(state).remote_files.children@ == old(state).remote_files.children@,
        final(state).remote_files.bookmark_file_ids@ == old(state).remote_files.bookmark_file_ids@,
        only_remote_files_changed(*old(state), *final(state)),
{
    let slash = root();
    let file_id = get_file_id(shared_file.mount.id.as_str(), slash.as_str());
    mount_loaded(state, shared_file.mount.clone());
    let ghost before = state.remote_files.shared_file_ids@;
    let f = shared_file_to_remote_file(copy_str(file_id.as_str()), shared_file);
    state.remote_files.files.insert(copy_str(file_id.as_str()), f);
    state.remote_files.shared_file_ids.push(file_id);
    proof {
        assert(id_views(state.remote_files.shared_file_ids@) =~= id_views(before).push(
            state.remote_files.shared_file_ids@.last()@,
        ));
    }
}

/// Replaces the shared roots with `shared_files`, in their order.
pub fn shared_files_loaded(state: &mut State, shared_files: Vec<SharedFile>)
    ensures
        id_views(final(state).remote_files.shared_file_ids@) == shared_files@.map_values(
            |f: SharedFile| spec_file_id(f.mount.id@, root_path()),
        ),
        final(state).remote_files.children@ == old(state).remote_files.children@,
        final(state).remote_files.bookmark_file_ids@ == old(state).remote_files.bookmark_file_ids@,
        only_remote_files_changed(*old(state), *final(state)),
{
    state.remote_files.shared_file_ids.clear();
    let ghost all = shared_files@;
    let ghost target = all.map_values(|f: SharedFile| spec_file_id(f.mount.id@, root_path()));
    let ghost old_children = state.remote_files.children@;
    let ghost old_bookmarks = state.remote_files.bookmark_file_ids@;
    let mut rest = reversed(shared_files);
    let mut i: usize = 0;
    let n = rest.len();
    proof {
        assert(id_views(state.remote_files.shared_file_ids@) =~= target.take(0));
    }
    while rest.len() > 0
        invariant
            only_remote_files_changed(*old(state), *state),
            n == all.len(),
            i <= n,
            rest.len() == n - i,
            forall|j: int| 0 <= j < rest.len() ==> rest@[j] == all[n - 1 - j],
            target == all.map_values(|f: SharedFile| spec_file_id(f.mount.id@, root_path())),
            id_views(state.remote_files.shared_file_ids@) == target.take(i as int),
            state.remote_files.children@ == old_children,
            state.remote_files.bookmark_file_ids@ == old_bookmarks,
        decreases rest.len(),
    {
        let f = rest.pop().unwrap();
        proof {
            assert(f == all[i as int]);
        }
        shared_file_loaded(state, f);
        proof {
            assert(target.take(i + 1) =~= target.take(i as int).push(target[i as int]));
        }
        i = i + 1;
    }
    proof {
        assert(target.take(n as int) =~= target);
    }
}

/// Removes every occurrence of `child_id` from the children of `parent_id`.
pub fn remove_child(state: &mut State, parent_id: &String, child_id: &String)
    ensures
        old(state).remote_files.children@.contains_key(parent_id@) ==> {
            &&& final(state).remote_files.children@ == old(state).remote_files.children@.insert(
                parent_id@,
                final(state).remote_files.children@[parent_id@],
            )
            &&& id_views(final(state).remote_files.children@[parent_id@]@) == id_views(
                old(state).remote_files.children@[parent_id@]@,
            ).filter(|id: Seq<char>| id != child_id@)
        },
        !old(state).remote_files.children@.contains_key(parent_id@) ==> final(state).remote_files.children@ == old(state).remote_files.children@,
        same_but_files_children(old(state).remote_files, final(state).remote_files),
        only_remote_files_changed(*old(state), *final(state)),
        final(state).remote_files.files@ == old(state).remote_files.files@,
{
    match state.remote_files.children.remove(parent_id) {
        Some(children) => {
            let ghost old_ids = id_views(children@);
            let mut kept: Vec<String> = Vec::new();
            let n = children.len();
            let mut i: usize = 0;
            while i < n
                invariant
                    n == children.len(),
                    i <= n,
                    old_ids == id_views(children@),
                    id_views(kept@) == old_ids.take(i as int).filter(
                        |id: Seq<char>| id != child_id@,
                    ),
                decreases n - i,
            {
                let ghost before = kept@;
                proof {
                    assert(old_ids.take(i + 1).drop_last() =~= old_ids.take(i as int));
                    reveal(Seq::filter);
                }
                if !str_eq(children[i].as_str(), child_id.as_str()) {
                    kept.push(copy_str(children[i].as_str()));
                    proof {
                        assert(id_views(kept@) =~= id_views(before).push(children@[i as int]@));
                    }
                } else {
                    assert(id_views(kept@) =~= id_views(before));
                }
                i = i + 1;
            }
            proof {
                assert(old_ids.take(n as int) =~= old_ids);
            }
            state.remote_files.children.insert(copy_str(parent_id.as_str()), kept);
            proof {
                assert(state.remote_files.children@ =~= old(state).remote_files.children@.insert(
                    parent_id@,
                    state.remote_files.children@[parent_id@],
                ));
            }
        },
        None => {},
    }
}

/// The prefix shared by the ids of everything inside the folder `file_id`.
pub open spec fn spec_descendant_prefix(file_id: Seq<char>) -> Seq<char> {
    if file_id.len() > 0 && file_id.last() == '/' {
        file_id
    } else {
        file_id + seq!['/']
    }
}

/// The entry of `map` is kept by a cleanup of `file_id`.
pub open spec fn kept_by_cleanup(file_id: Seq<char>, k: Seq<char>) -> bool {
    k != file_id && !spec_descendant_prefix(file_id).is_prefix_of(k)
}

/// Forgets a file and everything inside it: its record, its children list,
/// and the records and children lists of all ids under it.
pub fn cleanup_file(state: &mut State, file_id: &String)
    ensures
        forall|k: Seq<char>| #[trigger]
            final(state).remote_files.files@.contains_key(k) == (old(state).remote_files.files@.contains_key(k) && kept_by_cleanup(file_id@, k)),
        forall|k: Seq<char>| #[trigger]
            final(state).remote_files.files@.contains_key(k) ==> final(state).remote_files.files@[k]
                == old(state).remote_files.files@[k],
        forall|k: Seq<char>| #[trigger]
            final(state).remote_files.children@.contains_key(k) == (old(state).remote_files.children@.contains_key(k) && kept_by_cleanup(file_id@, k)),
        forall|k: Seq<char>| #[trigger]
            final(state).remote_files.children@.contains_key(k) ==> final(state).remote_files.children@[k] == old(state).remote_files.children@[k],
        same_but_files_children(old(state).remote_files, final(state).remote_files),
        final(state).remote_files.files.spec_len() <= old(state).remote_files.files.spec_len(),
        only_remote_files_changed(*old(state), *final(state)),
{
    state.remote_files.files.remove(file_id);
    let prefix = if ends_with_char(file_id.as_str(), '/') {
        copy_str(file_id.as_str())
    } else {
        let p = concat(file_id.as_str(), "/");
        proof {
            reveal_strlit("/");
        }
        p
    };
    state.remote_files.files.retain_not_prefixed(prefix.as_str());
    state.remote_files.children.remove(file_id);
    state.remote_files.children.retain_not_prefixed(prefix.as_str());
}

/// Folders rank before files.
pub open spec fn file_type_rank(t: RemoteFileType) -> int {
    match t {
        RemoteFileType::Dir => 0,
        RemoteFileType::File => 1,
    }
}

/// The order of children: folders first, then by lower-cased name.
pub open spec fn file_key_leq(a: RemoteFile, b: RemoteFile) -> bool {
    file_type_rank(a.typ) < file_type_rank(b.typ) || (a.typ == b.typ && seq_order(
        a.name_lower@,
        b.name_lower@,
    ) <= 0)
}

/// Orders files as `file_key_leq` says.
#[derive(Debug)]
pub struct FileKeyOrder;

impl<'a> SortOrder<&'a RemoteFile> for FileKeyOrder {
    open spec fn leq(&self, a: &'a RemoteFile, b: &'a RemoteFile) -> bool {
        file_key_leq(*a, *b)
    }

    fn leq_exec(&self, a: &&'a RemoteFile, b: &&'a RemoteFile) -> (r: bool) {
        let ra: u8 = match a.typ {
            RemoteFileType::Dir => 0,
            RemoteFileType::File => 1,
        };
        let rb: u8 = match b.typ {
            RemoteFileType::Dir => 0,
            RemoteFileType::File => 1,
        };
        if ra != rb {
            ra < rb
        } else {
            compare_strs(a.name_lower.as_str(), b.name_lower.as_str()) <= 0
        }
    }

    proof fn lemma_total(&self, a: &'a RemoteFile, b: &'a RemoteFile) {
        lemma_seq_order_antisym(a.name_lower@, b.name_lower@);
    }

    proof fn lemma_trans(&self, a: &'a RemoteFile, b: &'a RemoteFile, c: &'a RemoteFile) {
        if a.typ == b.typ && b.typ == c.typ {
            lemma_seq_order_trans(a.name_lower@, b.name_lower@, c.name_lower@);
        }
    }
}

/// `new_ids` are the ids of the files that `old_ids` name, sorted by `file_key_leq`;
/// ids without a record are dropped.
pub open spec fn spec_sorted_children(
    files: Map<Seq<char>, RemoteFile>,
    old_ids: Seq<Seq<char>>,
    new_ids: Seq<Seq<char>>,
) -> bool {
    exists|fs: Seq<RemoteFile>, p: Seq<int>|
        {
            &&& #[trigger] fs.to_multiset() == spec_values_of_ids(files, old_ids).to_multiset()
            &&& forall|i: int, j: int|
                0 <= i < j < fs.len() ==> file_key_leq(#[trigger] fs[i], #[trigger] fs[j])
            &&& new_ids == fs.map_values(|f: RemoteFile| f.id@)
            &&& #[trigger] files_stably_placed(spec_values_of_ids(files, old_ids), fs, p)
        }
}

/// `fs` takes the files of `vals` from the positions `p`, each position once,
/// and files that tie in `file_key_leq` keep the order they had in `vals`.
pub open spec fn files_stably_placed(vals: Seq<RemoteFile>, fs: Seq<RemoteFile>, p: Seq<int>) -> bool {
    &&& p.len() == vals.len()
    &&& fs.len() == vals.len()
    &&& forall|k: int| 0 <= k < p.len() ==> 0 <= #[trigger] p[k] < vals.len() && fs[k] == vals[p[k]]
    &&& forall|a: int, b: int| 0 <= a < b < p.len() ==> #[trigger] p[a] != #[trigger] p[b]
    &&& forall|a: int, b: int|
        0 <= a < b < p.len() && file_key_leq(#[trigger] fs[b], #[trigger] fs[a]) ==> p[a] < p[b]
}

/// The children lists other than `parent`'s are unchanged, and `parent` keeps a list.
pub open spec fn same_children_but(
    old_children: Map<Seq<char>, Vec<String>>,
    new_children: Map<Seq<char>, Vec<String>>,
    parent: Seq<char>,
) -> bool {
    &&& new_children.dom() == old_children.dom().insert(parent)
    &&& forall|k: Seq<char>|
        k != parent && old_children.contains_key(k) ==> new_children[k] == old_children[k]
}

/// Re-sorts the children of `file_id` (folders first, then by name),
/// dropping the ids that have no record.
pub fn sort_children(state: &mut State, file_id: &String)
    ensures
        old(state).remote_files.children@.contains_key(file_id@) ==> {
            &&& same_children_but(
                old(state).remote_files.children@,
                final(state).remote_files.children@,
                file_id@,
            )
            &&& spec_sorted_children(
                old(state).remote_files.files@,
                id_views(old(state).remote_files.children@[file_id@]@),
                id_views(final(state).remote_files.children@[file_id@]@),
            )
        },
        !old(state).remote_files.children@.contains_key(file_id@) ==> final(
            state).remote_files.children@ == old(state).remote_files.children@,
        final(state).remote_files.files@ == old(state).remote_files.files@,
        same_but_files_children(old(state).remote_files, final(state).remote_files),
        only_remote_files_changed(*old(state), *final(state)),
{
    let new_ids: Option<Vec<String>> = match state.remote_files.children.get(file_id) {
        Some(children_ids) => {
            let files = values_of_ids(&state.remote_files.files, children_ids);
            let ghost fv = files@;
            let sorted = sort_by_order(files, &FileKeyOrder);
            let ghost fs = sorted@.map_values(|f: &RemoteFile| *f);
            let mut ids: Vec<String> = Vec::new();
            let n = sorted.len();
            let mut i: usize = 0;
            while i < n
                invariant
                    n == sorted.len(),
                    i <= n,
                    fs == sorted@.map_values(|f: &RemoteFile| *f),
                    id_views(ids@) == fs.take(i as int).map_values(|f: RemoteFile| f.id@),
                decreases n - i,
            {
                let ghost before = ids@;
                ids.push(copy_str(sorted[i].id.as_str()));
                proof {
                    assert(fs.take(i + 1) =~= fs.take(i as int).push(fs[i as int]));
                    assert(id_views(ids@) =~= id_views(before).push(fs[i as int].id@));
                    assert(fs.take(i + 1).map_values(|f: RemoteFile| f.id@) =~= fs.take(
                        i as int,
                    ).map_values(|f: RemoteFile| f.id@).push(fs[i as int].id@));
                }
                i = i + 1;
            }
            proof {
                assert(fs.take(n as int) =~= fs);
                lemma_map_multiset(sorted@, fv, |f: &RemoteFile| *f);
                let vals = fv.map_values(|f: &RemoteFile| *f);
                let p = choose|p: Seq<int>| #[trigger] stable_rearrangement(&FileKeyOrder, fv, sorted@, p);
                assert forall|k: int| 0 <= k < p.len() implies 0 <= #[trigger] p[k] < vals.len() && fs[k]
                    == vals[p[k]] by {
                    assert(sorted@[k] == fv[p[k]]);
                }
                assert forall|a: int, b: int|
                    0 <= a < b < p.len() && file_key_leq(#[trigger] fs[b], #[trigger] fs[a]) implies p[a]
                    < p[b] by {
                    assert(FileKeyOrder.leq(sorted@[b], sorted@[a]));
                }
                assert(files_stably_placed(vals, fs, p));
                assert forall|a: int, b: int| 0 <= a < b < fs.len() implies file_key_leq(
                    #[trigger] fs[a],
                    #[trigger] fs[b],
                ) by {
                    assert(FileKeyOrder.leq(sorted@[a], sorted@[b]));
                }
                assert(fs.to_multiset() == spec_values_of_ids(
                    old(state).remote_files.files@,
                    id_views(old(state).remote_files.children@[file_id@]@),
                ).to_multiset());
            }
            Some(ids)
        },
        None => None,
    };
    match new_ids {
        Some(ids) => {
            state.remote_files.children.insert(copy_str(file_id.as_str()), ids);
        },
        None => {},
    }
}

/// Appends `child_id` to the loaded children of `parent_id` and re-sorts them,
/// unless the folder's children were not loaded or already hold it.
pub fn add_child(state: &mut State, parent_id: &String, child_id: String)
    ensures
        ({
            let oc = old(state).remote_files.children@;
            if oc.contains_key(parent_id@) && !id_views(oc[parent_id@]@).contains(child_id@) {
                &&& same_children_but(oc, final(state).remote_files.children@, parent_id@)
                &&& spec_sorted_children(
                    old(state).remote_files.files@,
                    id_views(oc[parent_id@]@).push(child_id@),
                    id_views(final(state).remote_files.children@[parent_id@]@),
                )
            } else {
                final(state).remote_files.children@ == oc
            }
        }),
        final(state).remote_files.files@ == old(state).remote_files.files@,
        same_but_files_children(old(state).remote_files, final(state).remote_files),
        only_remote_files_changed(*old(state), *final(state)),
{
    let present = match state.remote_files.children.get(parent_id) {
        Some(children) => Some(ids_contain(children, &child_id)),
        None => None,
    };
    if present == Some(false) {
        let mut children = state.remote_files.children.remove(parent_id).unwrap();
        let ghost before = children@;
        children.push(child_id);
        proof {
            assert(id_views(children@) =~= id_views(before).push(children@.last()@));
        }
        state.remote_files.children.insert(copy_str(parent_id.as_str()), children);
        sort_children(state, parent_id);
    }
}

/// The effect of `add_child(parent, child)` on the children lists.
pub open spec fn spec_add_child(
    files: Map<Seq<char>, RemoteFile>,
    oc: Map<Seq<char>, Vec<String>>,
    nc: Map<Seq<char>, Vec<String>>,
    parent: Seq<char>,
    child: Seq<char>,
) -> bool {
    if oc.contains_key(parent) && !id_views(oc[parent]@).contains(child) {
        &&& same_children_but(oc, nc, parent)
        &&& spec_sorted_children(files, id_views(oc[parent]@).push(child), id_views(nc[parent]@))
    } else {
        nc == oc
    }
}

/// The files map after storing `r` under `id`: `id` holds `r`, the rest is unchanged.
pub open spec fn stored_at(
    old_files: Map<Seq<char>, RemoteFile>,
    new_files: Map<Seq<char>, RemoteFile>,
    id: Seq<char>,
) -> bool {
    &&& new_files.dom() == old_files.dom().insert(id)
    &&& forall|k: Seq<char>| k != id && old_files.contains_key(k) ==> new_files[k] == old_files[k]
}

/// Records a folder that was created at `path`, and adds it to its parent's
/// loaded children.
pub fn dir_created(state: &mut State, mount_id: &String, path: &String)
    ensures
        ({
            let fid = spec_file_id(mount_id@, path@);
            &&& stored_at(old(state).remote_files.files@, final(state).remote_files.files@, fid)
            &&& spec_remote_file(
                final(state).remote_files.files@[fid],
                fid,
                mount_id@,
                path@,
                spec_dir_name(path@),
                RemoteFileType::Dir,
                None,
                None,
            )
            &&& match spec_parent_path(path@) {
                Some(pp) => spec_add_child(
                    final(state).remote_files.files@,
                    old(state).remote_files.children@,
                    final(state).remote_files.children@,
                    spec_file_id(mount_id@, pp),
                    fid,
                ),
                None => final(state).remote_files.children@ == old(state).remote_files.children@,
            }
        }),
        same_but_files_children(old(state).remote_files, final(state).remote_files),
        only_remote_files_changed(*old(state), *final(state)),
{
    let file_id = get_file_id(mount_id.as_str(), path.as_str());
    let f = dir_to_remote_file(copy_str(file_id.as_str()), mount_id.clone(), path.clone());
    state.remote_files.files.insert(copy_str(file_id.as_str()), f);
    match parent_path(path.as_str()) {
        Some(pp) => {
            let parent_id = get_file_id(mount_id.as_str(), pp.as_str());
            add_child(state, &parent_id, file_id);
        },
        None => {},
    }
}

/// Records a file that was created at `path`, and adds it to its parent's
/// loaded children.
pub fn file_created(state: &mut State, mount_id: &String, path: &String, file: FilesFile)
    ensures
        ({
            let fid = spec_file_id(mount_id@, path@);
            &&& stored_at(old(state).remote_files.files@, final(state).remote_files.files@, fid)
            &&& spec_listed_file(final(state).remote_files.files@[fid], fid, mount_id@, path@, file)
            &&& match spec_parent_path(path@) {
                Some(pp) => spec_add_child(
                    final(state).remote_files.files@,
                    old(state).remote_files.children@,
                    final(state).remote_files.children@,
                    spec_file_id(mount_id@, pp),
                    fid,
                ),
                None => final(state).remote_files.children@ == old(state).remote_files.children@,
            }
        }),
        same_but_files_children(old(state).remote_files, final(state).remote_files),
        only_remote_files_changed(*old(state), *final(state)),
{
    let file_id = get_file_id(mount_id.as_str(), path.as_str());
    let f = files_file_to_remote_file(
        copy_str(file_id.as_str()),
        mount_id.clone(),
        path.clone(),
        file,
    );
    state.remote_files.files.insert(copy_str(file_id.as_str()), f);
    match parent_path(path.as_str()) {
        Some(pp) => {
            let parent_id = get_file_id(mount_id.as_str(), pp.as_str());
            add_child(state, &parent_id, file_id);
        },
        None => {},
    }
}

/// Records a copy at `new_path`; nothing changes when `new_path` has no parent.
pub fn file_copied(state: &mut State, mount_id: &String, new_path: &String, new_file: FilesFile)
    ensures
        ({
            let fid = spec_file_id(mount_id@, new_path@);
            match spec_parent_path(new_path@) {
                Some(pp) => {
                    &&& stored_at(
                        old(state).remote_files.files@,
                        final(state).remote_files.files@,
                        fid,
                    )
                    &&& spec_listed_file(
                        final(state).remote_files.files@[fid],
                        fid,
                        mount_id@,
                        new_path@,
                        new_file,
                    )
                    &&& spec_add_child(
                        final(state).remote_files.files@,
                        old(state).remote_files.children@,
                        final(state).remote_files.children@,
                        spec_file_id(mount_id@, pp),
                        fid,
                    )
                },
                None => {
                    &&& final(state).remote_files.files@ == old(state).remote_files.files@
                    &&& final(state).remote_files.children@ == old(state).remote_files.children@
                },
            }
        }),
        same_but_files_children(old(state).remote_files, final(state).remote_files),
        only_remote_files_changed(*old(state), *final(state)),
{
    let new_file_id = get_file_id(mount_id.as_str(), new_path.as_str());
    let new_parent_path = match parent_path(new_path.as_str()) {
        Some(pp) => pp,
        None => {
            return;
        },
    };
    let new_parent_id = get_file_id(mount_id.as_str(), new_parent_path.as_str());
    let f = files_file_to_remote_file(
        copy_str(new_file_id.as_str()),
        mount_id.clone(),
        new_path.clone(),
        new_file,
    );
    state.remote_files.files.insert(copy_str(new_file_id.as_str()), f);
    add_child(state, &new_parent_id, new_file_id);
}

/// The id of the folder that holds `path`, if `path` has a parent.
pub open spec fn spec_parent_id(mount_id: Seq<char>, path: Seq<char>) -> Option<Seq<char>> {
    match spec_parent_path(path) {
        Some(pp) => Some(spec_file_id(mount_id, pp)),
        None => None,
    }
}

/// Forgets a removed file: drops it from its parent's children, then
/// forgets it and everything inside it.
pub fn file_removed(state: &mut State, mount_id: &String, path: &String)
    ensures
        forall|k: Seq<char>| #[trigger]
            final(state).remote_files.files@.contains_key(k) == (old(
                state).remote_files.files@.contains_key(k) && kept_by_cleanup(
                spec_file_id(mount_id@, path@),
                k,
            )),
        forall|k: Seq<char>| #[trigger]
            final(state).remote_files.files@.contains_key(k) ==> final(
                state).remote_files.files@[k] == old(state).remote_files.files@[k],
        forall|k: Seq<char>| #[trigger]
            final(state).remote_files.children@.contains_key(k) == (old(
                state).remote_files.children@.contains_key(k) && kept_by_cleanup(
                spec_file_id(mount_id@, path@),
                k,
            )),
        forall|k: Seq<char>|
            #[trigger] final(state).remote_files.children@.contains_key(k) && spec_parent_id(
                mount_id@,
                path@,
            ) != Some(k) ==> final(state).remote_files.children@[k] == old(
                state).remote_files.children@[k],
        match spec_parent_id(mount_id@, path@) {
            Some(pid) => final(state).remote_files.children@.contains_key(pid) ==> id_views(
                final(state).remote_files.children@[pid]@,
            ) == id_views(old(state).remote_files.children@[pid]@).filter(
                |id: Seq<char>| id != spec_file_id(mount_id@, path@),
            ),
            None => true,
        },
        same_but_files_children(old(state).remote_files, final(state).remote_files),
        only_remote_files_changed(*old(state), *final(state)),
{
    let file_id = get_file_id(mount_id.as_str(), path.as_str());
    match parent_path(path.as_str()) {
        Some(pp) => {
            let parent_id = get_file_id(mount_id.as_str(), pp.as_str());
            assert(spec_parent_id(mount_id@, path@) == Some(parent_id@));
            remove_child(state, &parent_id, &file_id);
        },
        None => {},
    }
    let ghost mid = state.remote_files.children@;
    proof {
        assert(mid.dom() =~= old(state).remote_files.children@.dom());
    }
    cleanup_file(state, &file_id);
    proof {
        match spec_parent_id(mount_id@, path@) {
            Some(pid) => {
                if state.remote_files.children@.contains_key(pid) {
                    assert(mid.contains_key(pid));
                    assert(old(state).remote_files.children@.contains_key(pid));
                    assert((|id: Seq<char>| id != file_id@) =~= (|id: Seq<char>|
                        id != spec_file_id(mount_id@, path@)));
                }
            },
            None => {},
        }
    }
}

/// No later entry of `ids` (before `upto`) repeats entry `a`.
pub open spec fn last_of_id(ids: Seq<Seq<char>>, a: int, upto: int) -> bool {
    forall|b: int| a < b < upto ==> ids[b] != ids[a]
}

/// The ids that the listed files get inside the folder `path`.
pub open spec fn listed_ids(mount_id: Seq<char>, path: Seq<char>, listed: Seq<FilesFile>) -> Seq<
    Seq<char>,
> {
    listed.map_values(|f: FilesFile| spec_file_id(mount_id, spec_join_path_name(path, f.name@)))
}

/// The files that a listing lists.
pub open spec fn bundle_listed(bundle: Bundle) -> Seq<FilesFile> {
    match bundle.files {
        Some(fs) => fs@,
        None => Seq::empty(),
    }
}

pub open spec fn bundle_ids(mount_id: Seq<char>, path: Seq<char>, bundle: Bundle) -> Seq<Seq<char>> {
    listed_ids(mount_id, path, bundle_listed(bundle))
}

/// Records the listing of the folder at `path`: the folder, each listed
/// child (under "path/name"; a later listed file with the same id wins),
/// the folder's sorted children, and that the folder's listing is loaded.
pub fn bundle_loaded(state: &mut State, mount_id: &String, path: &String, bundle: Bundle)
    ensures
        final(state).remote_files.loaded_roots@.contains_key(spec_file_id(mount_id@, path@)),
        final(state).remote_files.files@.contains_key(spec_file_id(mount_id@, path@)),
        forall|a: int|
            0 <= a < bundle_ids(mount_id@, path@, bundle).len() ==> final(
                state).remote_files.files@.contains_key(
                #[trigger] bundle_ids(mount_id@, path@, bundle)[a],
            ),
        forall|a: int|
            0 <= a < bundle_ids(mount_id@, path@, bundle).len() && last_of_id(
                bundle_ids(mount_id@, path@, bundle),
                a,
                bundle_ids(mount_id@, path@, bundle).len() as int,
            ) ==> spec_listed_file(
                final(state).remote_files.files@[#[trigger] bundle_ids(mount_id@, path@, bundle)[a]],
                bundle_ids(mount_id@, path@, bundle)[a],
                mount_id@,
                spec_join_path_name(path@, bundle_listed(bundle)[a].name@),
                bundle_listed(bundle)[a],
            ),
        !bundle_ids(mount_id@, path@, bundle).contains(spec_file_id(mount_id@, path@))
            ==> spec_listed_file(
            final(state).remote_files.files@[spec_file_id(mount_id@, path@)],
            spec_file_id(mount_id@, path@),
            mount_id@,
            path@,
            bundle.file,
        ),
        forall|k: Seq<char>|
            #[trigger] old(state).remote_files.files@.contains_key(k) && k != spec_file_id(
                mount_id@,
                path@,
            ) && !bundle_ids(mount_id@, path@, bundle).contains(k) ==> final(
                state).remote_files.files@.contains_key(k) && final(state).remote_files.files@[k]
                == old(state).remote_files.files@[k],
        forall|k: Seq<char>|
            #[trigger] final(state).remote_files.files@.contains_key(k) ==> old(
                state).remote_files.files@.contains_key(k) || k == spec_file_id(mount_id@, path@)
                || bundle_ids(mount_id@, path@, bundle).contains(k),
        bundle.files is Some ==> same_children_but(
            old(state).remote_files.children@,
            final(state).remote_files.children@,
            spec_file_id(mount_id@, path@),
        ),
        bundle.files is Some ==> spec_sorted_children(
            final(state).remote_files.files@,
            bundle_ids(mount_id@, path@, bundle),
            id_views(final(state).remote_files.children@[spec_file_id(mount_id@, path@)]@),
        ),
        bundle.files is None ==> final(state).remote_files.children@ == old(
            state).remote_files.children@,
        final(state).remote_files.mounts@ == old(state).remote_files.mounts@,
        final(state).remote_files.bookmark_file_ids@ == old(state).remote_files.bookmark_file_ids@,
        final(state).remote_files.shared_file_ids@ == old(state).remote_files.shared_file_ids@,
        final(state).remote_files.loaded_roots@ == old(state).remote_files.loaded_roots@.insert(
            spec_file_id(mount_id@, path@),
            (),
        ),
        only_remote_files_changed(*old(state), *final(state)),
{
    let root_file_id = get_file_id(mount_id.as_str(), path.as_str());
    let ghost rid = root_file_id@;
    let Bundle { file: bundle_file, files: bundle_files } = bundle;
    let root_rec = bundle_file_to_remote_file(
        copy_str(root_file_id.as_str()),
        mount_id.clone(),
        path.clone(),
        bundle_file,
    );
    let ghost root_spec = root_rec;
    state.remote_files.files.insert(copy_str(root_file_id.as_str()), root_rec);
    proof {
        assert(state.remote_files.files@.contains_key(rid));
        assert(state.remote_files.files@[rid] == root_spec);
    }
    match bundle_files {
        Some(files) => {
            let ghost listed = files@;
            let ghost ids = listed_ids(mount_id@, path@, listed);
            let ghost files_before = state.remote_files.files@;
            let mut children: Vec<String> = Vec::new();
            let mut rest = reversed(files);
            let n = rest.len();
            let mut i: usize = 0;
            while rest.len() > 0
                invariant
                    only_remote_files_changed(*old(state), *state),
                    n == listed.len(),
                    ids == listed_ids(mount_id@, path@, listed),
                    i <= n,
                    rest.len() == n - i,
                    forall|j: int| 0 <= j < rest.len() ==> rest@[j] == listed[n - 1 - j],
                    id_views(children@) == ids.take(i as int),
                    forall|a: int|
                        0 <= a < i ==> state.remote_files.files@.contains_key(#[trigger] ids[a]),
                    forall|a: int|
                        0 <= a < i && last_of_id(ids, a, i as int) ==> spec_listed_file(
                            state.remote_files.files@[#[trigger] ids[a]],
                            ids[a],
                            mount_id@,
                            spec_join_path_name(path@, listed[a].name@),
                            listed[a],
                        ),
                    forall|k: Seq<char>|
                        #[trigger] files_before.contains_key(k) && !ids.take(i as int).contains(k)
                            ==> state.remote_files.files@.contains_key(k)
                            && state.remote_files.files@[k] == files_before[k],
                    forall|k: Seq<char>|
                        #[trigger] state.remote_files.files@.contains_key(k)
                            ==> files_before.contains_key(k) || ids.take(i as int).contains(k),
                    state.remote_files.children@ == old(state).remote_files.children@,
                    state.remote_files.loaded_roots@ == old(state).remote_files.loaded_roots@,
                    state.remote_files.mounts@ == old(state).remote_files.mounts@,
                    state.remote_files.bookmark_file_ids@ == old(
                        state).remote_files.bookmark_file_ids@,
                    state.remote_files.shared_file_ids@ == old(state).remote_files.shared_file_ids@,
                decreases rest.len(),
            {
                let file = rest.pop().unwrap();
                proof {
                    assert(file == listed[i as int]);
                }
                let file_path = join_path_name(path.as_str(), file.name.as_str());
                let file_id = get_file_id(mount_id.as_str(), file_path.as_str());
                proof {
                    assert(file_id@ == ids[i as int]);
                }
                let ghost before_ids = children@;
                let rec = bundle_file_to_remote_file(
                    copy_str(file_id.as_str()),
                    mount_id.clone(),
                    file_path,
                    file,
                );
                children.push(copy_str(file_id.as_str()));
                state.remote_files.files.insert(file_id, rec);
                proof {
                    assert(ids.take(i + 1) =~= ids.take(i as int).push(ids[i as int]));
                    assert(id_views(children@) =~= id_views(before_ids).push(ids[i as int]));
                    assert forall|k: Seq<char>|
                        #[trigger] files_before.contains_key(k) && !ids.take(i + 1).contains(
                            k,
                        ) implies state.remote_files.files@.contains_key(k)
                        && state.remote_files.files@[k] == files_before[k] by {
                        assert(!ids.take(i as int).contains(k)) by {
                            if ids.take(i as int).contains(k) {
                                let x = choose|x: int| 0 <= x < i && ids.take(i as int)[x] == k;
                                assert(ids.take(i + 1)[x] == k);
                            }
                        }
                        assert(k != ids[i as int]) by {
                            assert(ids.take(i + 1)[i as int] == ids[i as int]);
                        }
                    }
                    assert forall|k: Seq<char>|
                        #[trigger] state.remote_files.files@.contains_key(k) implies files_before.contains_key(k)
                        || ids.take(i + 1).contains(k) by {
                        if k == ids[i as int] {
                            assert(ids.take(i + 1)[i as int] == k);
                        } else if ids.take(i as int).contains(k) {
                            let x = choose|x: int| 0 <= x < i && ids.take(i as int)[x] == k;
                            assert(ids.take(i + 1)[x] == k);
                        }
                    }
                }
                i = i + 1;
            }
            proof {
                assert(ids.take(n as int) =~= ids);
                assert(files_before.contains_key(rid));
                if ids.contains(rid) {
                    let a = choose|a: int| 0 <= a < ids.len() && ids[a] == rid;
                    assert(state.remote_files.files@.contains_key(ids[a]));
                } else {
                    assert(!ids.take(n as int).contains(rid));
                    assert(state.remote_files.files@[rid] == files_before[rid]);
                }
                assert forall|k: Seq<char>|
                    #[trigger] old(state).remote_files.files@.contains_key(k) && k != rid
                        && !ids.contains(k) implies state.remote_files.files@.contains_key(k)
                    && state.remote_files.files@[k] == old(state).remote_files.files@[k] by {
                    assert(files_before.contains_key(k));
                    assert(!ids.take(n as int).contains(k));
                }
                assert forall|k: Seq<char>|
                    #[trigger] state.remote_files.files@.contains_key(k) implies old(
                        state).remote_files.files@.contains_key(k) || k == rid || ids.contains(k) by {
                    if !files_before.contains_key(k) {
                        assert(ids.take(n as int).contains(k));
                    }
                }
            }
            state.remote_files.children.insert(copy_str(root_file_id.as_str()), children);
            let ghost mid = state.remote_files.children@;
            sort_children(state, &root_file_id);
            proof {
                assert(mid.dom() =~= old(state).remote_files.children@.dom().insert(rid));
                assert(state.remote_files.children@.dom() =~= old(
                    state).remote_files.children@.dom().insert(rid));
            }
        },
        None => {
            proof {
                assert(forall|k: Seq<char>| !Seq::<Seq<char>>::empty().contains(k));
            }
        },
    }
    state.remote_files.loaded_roots.insert(root_file_id, ());
}

/// `b` is the record `a` moved to `path` under the id `id`; nothing else of it changes.
pub open spec fn spec_moved_record(a: RemoteFile, b: RemoteFile, id: Seq<char>, path: Seq<char>) -> bool {
    &&& b.id@ == id
    &&& b.path@ == path
    &&& b.mount_id == a.mount_id
    &&& b.name == a.name
    &&& b.name_lower == a.name_lower
    &&& b.typ == a.typ
    &&& b.size == a.size
    &&& b.modified == a.modified
    &&& b.hash == a.hash
    &&& b.tags == a.tags
}

/// The children lists, each as the ids it holds.
pub open spec fn spec_children_ids(c: Map<Seq<char>, Vec<String>>) -> Map<
    Seq<char>,
    Seq<Seq<char>>,
> {
    c.map_values(|v: Vec<String>| id_views(v@))
}

/// Where each record of `f` came from before any move: from its own key, with
/// its own id and path.
pub open spec fn spec_unmoved(f: Map<Seq<char>, RemoteFile>) -> Map<
    Seq<char>,
    (Seq<char>, Seq<char>, Seq<char>),
> {
    Map::new(|k: Seq<char>| f.contains_key(k), |k: Seq<char>| (k, f[k].id@, f[k].path@))
}

/// `files` holds a record at the keys of `m` and nowhere else: at `k`, the record
/// that `f0` held at `m[k].0`, moved to the id `m[k].1` and the path `m[k].2`.
pub open spec fn spec_moved_files(
    f0: Map<Seq<char>, RemoteFile>,
    m: Map<Seq<char>, (Seq<char>, Seq<char>, Seq<char>)>,
    files: Map<Seq<char>, RemoteFile>,
) -> bool {
    &&& files.dom() == m.dom()
    &&& forall|k: Seq<char>| #[trigger]
        files.contains_key(k) ==> f0.contains_key(m[k].0) && spec_moved_record(
            f0[m[k].0],
            files[k],
            m[k].1,
            m[k].2,
        )
}

/// Moving what lies under the folder `fid` to `npp`, on the records `m` (as in
/// `spec_moved_files`) and the children lists `c`: with a children list, its
/// children move in their listed order and the folder's list is left empty; with
/// none, nothing changes. `depth` bounds the number of records, and so how deep
/// the move can go.
pub open spec fn spec_move_children(
    f0: Map<Seq<char>, RemoteFile>,
    m: Map<Seq<char>, (Seq<char>, Seq<char>, Seq<char>)>,
    c: Map<Seq<char>, Seq<Seq<char>>>,
    fid: Seq<char>,
    npp: Seq<char>,
    depth: nat,
) -> (Map<Seq<char>, (Seq<char>, Seq<char>, Seq<char>)>, Map<Seq<char>, Seq<Seq<char>>>)
    decreases depth, 1nat, 0int,
{
    if c.contains_key(fid) {
        let r = spec_move_list(f0, m, c, c[fid], 0, npp, depth);
        (r.0, r.1.insert(fid, Seq::empty()))
    } else {
        (m, c)
    }
}

/// Moves the children `ids` from the `i`-th on, one after the other: a child with
/// a record leaves its key, what lies under it moves below its new path, and its
/// record comes back under the id of that path (`npp` joined with its name); a
/// child without a record is passed over.
pub open spec fn spec_move_list(
    f0: Map<Seq<char>, RemoteFile>,
    m: Map<Seq<char>, (Seq<char>, Seq<char>, Seq<char>)>,
    c: Map<Seq<char>, Seq<Seq<char>>>,
    ids: Seq<Seq<char>>,
    i: nat,
    npp: Seq<char>,
    depth: nat,
) -> (Map<Seq<char>, (Seq<char>, Seq<char>, Seq<char>)>, Map<Seq<char>, Seq<Seq<char>>>)
    decreases depth, 0nat, ids.len() - i,
{
    if i < ids.len() {
        let id = ids[i as int];
        if !m.contains_key(id) {
            spec_move_list(f0, m, c, ids, i + 1, npp, depth)
        } else {
            let rec = f0[m[id].0];
            let path = spec_join_path_name(npp, rec.name@);
            let new_id = spec_file_id(rec.mount_id@, path);
            let m1 = m.remove(id);
            if m1.dom().len() < depth {
                let r = spec_move_children(f0, m1, c, id, path, m1.dom().len());
                spec_move_list(
                    f0,
                    r.0.insert(new_id, (m[id].0, new_id, path)),
                    r.1,
                    ids,
                    i + 1,
                    npp,
                    depth,
                )
            } else {
                (m, c)
            }
        }
    } else {
        (m, c)
    }
}

/// Moves the records under the folder `file_id` to `new_parent_path`, where the
/// records stand as `m` says against `f0`.
fn move_children_from(
    state: &mut State,
    file_id: &String,
    new_parent_path: &String,
    Ghost(f0): Ghost<Map<Seq<char>, RemoteFile>>,
    Ghost(m): Ghost<Map<Seq<char>, (Seq<char>, Seq<char>, Seq<char>)>>,
)
    requires
        spec_moved_files(f0, m, old(state).remote_files.files@),
    ensures
        ({
            let r = spec_move_children(
                f0,
                m,
                spec_children_ids(old(state).remote_files.children@),
                file_id@,
                new_parent_path@,
                m.dom().len(),
            );
            &&& spec_moved_files(f0, r.0, final(state).remote_files.files@)
            &&& spec_children_ids(final(state).remote_files.children@) == r.1
        }),
        old(state).remote_files.files@.dom().finite() ==> final(
            state).remote_files.files@.dom().finite(),
        final(state).remote_files.files@.dom().len() <= old(state).remote_files.files@.dom().len(),
        same_but_files_children(old(state).remote_files, final(state).remote_files),
        only_remote_files_changed(*old(state), *final(state)),
    decreases old(state).remote_files.files@.dom().len(),
{
    let old_children_ids = match state.remote_files.children.get(file_id) {
        Some(ids) => copy_ids(ids),
        None => {
            return;
        },
    };
    let ghost depth = m.dom().len();
    let ghost c0 = spec_children_ids(old(state).remote_files.children@);
    let ghost ids = c0[file_id@];
    let ghost mut mm = m;
    let n = old_children_ids.len();
    let mut i: usize = 0;
    proof {
        assert(old(state).remote_files.files@.dom() == m.dom());
    }
    while i < n
        invariant
            n == old_children_ids.len(),
            i <= n,
            ids == id_views(old_children_ids@),
            depth == m.dom().len(),
            depth == old(state).remote_files.files@.dom().len(),
            spec_moved_files(f0, mm, state.remote_files.files@),
            i > 0 ==> state.remote_files.files@.dom().finite(),
            old(state).remote_files.files@.dom().finite() ==> state.remote_files.files@.dom().finite(),
            i == 0 ==> state.remote_files.files@ == old(state).remote_files.files@,
            state.remote_files.files@.dom().len() <= depth,
            same_but_files_children(old(state).remote_files, state.remote_files),
            only_remote_files_changed(*old(state), *state),
            spec_move_list(f0, m, c0, ids, 0, new_parent_path@, depth) == spec_move_list(
                f0,
                mm,
                spec_children_ids(state.remote_files.children@),
                ids,
                i as nat,
                new_parent_path@,
                depth,
            ),
        decreases n - i,
    {
        let old_child_id = &old_children_ids[i];
        let ghost f_before = state.remote_files.files@;
        let ghost cc = spec_children_ids(state.remote_files.children@);
        let ghost m_before = mm;
        proof {
            assert(ids[i as int] == old_child_id@);
        }
        match state.remote_files.files.remove(old_child_id) {
            Some(mut child) => {
                let ghost m1 = m_before.remove(old_child_id@);
                let ghost src = m_before[old_child_id@];
                let new_child_path = join_path_name(new_parent_path.as_str(), child.name.as_str());
                let new_child_id = get_file_id(child.mount_id.as_str(), new_child_path.as_str());
                proof {
                    assert(f_before.contains_key(old_child_id@));
                    assert(spec_moved_record(f0[src.0], child, src.1, src.2));
                    assert(state.remote_files.files@.dom() =~= m1.dom());
                    assert(spec_moved_files(f0, m1, state.remote_files.files@));
                    assert(m1.dom().len() < depth);
                }
                move_children_from(state, old_child_id, &new_child_path, Ghost(f0), Ghost(m1));
                let ghost r = spec_move_children(f0, m1, cc, old_child_id@, new_child_path@, m1.dom().len());
                let ghost files_mid = state.remote_files.files@;
                child.id = copy_str(new_child_id.as_str());
                child.path = new_child_path;
                state.remote_files.files.insert(new_child_id, child);
                proof {
                    let nid = spec_file_id(f0[src.0].mount_id@, spec_join_path_name(new_parent_path@, f0[src.0].name@));
                    let path = spec_join_path_name(new_parent_path@, f0[src.0].name@);
                    let m2 = r.0.insert(nid, (src.0, nid, path));
                    assert(state.remote_files.files@.dom() =~= m2.dom());
                    assert(spec_moved_files(f0, m2, state.remote_files.files@));
                    assert(spec_move_list(f0, m_before, cc, ids, i as nat, new_parent_path@, depth) == spec_move_list(f0, m2, r.1, ids, (i + 1) as nat, new_parent_path@, depth));
                    mm = m2;
                }
            },
            None => {
                proof {
                    assert(state.remote_files.files@ =~= f_before);
                    assert(spec_move_list(f0, m_before, cc, ids, i as nat, new_parent_path@, depth) == spec_move_list(f0, m_before, cc, ids, (i + 1) as nat, new_parent_path@, depth));
                }
            },
        }
        i = i + 1;
    }
    let ghost c_last = state.remote_files.children@;
    state.remote_files.children.insert(copy_str(file_id.as_str()), Vec::new());
    proof {
        let cur = spec_children_ids(state.remote_files.children@);
        let prev = spec_children_ids(c_last);
        assert(spec_move_list(f0, mm, prev, ids, n as nat, new_parent_path@, depth) == (mm, prev));
        assert(id_views(state.remote_files.children@[file_id@]@) =~= Seq::<Seq<char>>::empty());
        assert(cur =~= prev.insert(file_id@, Seq::empty()));
        assert(cur =~= spec_move_list(f0, m, c0, ids, 0, new_parent_path@, depth).1.insert(file_id@, Seq::empty()));
    }
}

/// Moves the records under the folder `file_id` to their paths under
/// `new_parent_path`, all the way down, and empties the folder's children list.
pub fn file_children_change_parent_path(
    state: &mut State,
    file_id: &String,
    new_parent_path: &String,
)
    ensures
        ({
            let f0 = old(state).remote_files.files@;
            let r = spec_move_children(
                f0,
                spec_unmoved(f0),
                spec_children_ids(old(state).remote_files.children@),
                file_id@,
                new_parent_path@,
                f0.dom().len(),
            );
            &&& spec_moved_files(f0, r.0, final(state).remote_files.files@)
            &&& spec_children_ids(final(state).remote_files.children@) == r.1
        }),
        same_but_files_children(old(state).remote_files, final(state).remote_files),
        only_remote_files_changed(*old(state), *final(state)),
{
    let ghost f0 = state.remote_files.files@;
    proof {
        assert(spec_unmoved(f0).dom() =~= f0.dom());
        assert(spec_moved_files(f0, spec_unmoved(f0), f0));
    }
    move_children_from(state, file_id, new_parent_path, Ghost(f0), Ghost(spec_unmoved(f0)));
}

/// The children lists after `remove_child(parent, child)`, as ids.
pub open spec fn spec_child_removed(
    c: Map<Seq<char>, Seq<Seq<char>>>,
    parent: Seq<char>,
    child: Seq<char>,
) -> Map<Seq<char>, Seq<Seq<char>>> {
    if c.contains_key(parent) {
        c.insert(parent, c[parent].filter(|id: Seq<char>| id != child))
    } else {
        c
    }
}

/// Taking the record at `o` out of `f0` before it is stored again under
/// `new_path`: where the remaining records come from (as in `spec_moved_files`,
/// against `f0` without `o`) and the children lists after it. With a record at
/// `o`, what lies under it moves below `new_path`; without one, nothing moves.
pub open spec fn spec_move_out(
    f0: Map<Seq<char>, RemoteFile>,
    c0: Map<Seq<char>, Seq<Seq<char>>>,
    o: Seq<char>,
    new_path: Seq<char>,
) -> (Map<Seq<char>, (Seq<char>, Seq<char>, Seq<char>)>, Map<Seq<char>, Seq<Seq<char>>>) {
    let f1 = f0.remove(o);
    if f0.contains_key(o) {
        spec_move_children(f1, spec_unmoved(f1), c0, o, new_path, f1.dom().len())
    } else {
        (spec_unmoved(f1), c0)
    }
}

/// Records a move of the file at `old_path` to `new_path`: the record and
/// everything under it move, the file leaves its old parent's children and
/// joins its new parent's. Nothing changes when either path is a root.
pub fn file_moved(
    state: &mut State,
    mount_id: &String,
    old_path: &String,
    new_path: &String,
    new_file: FilesFile,
)
    ensures
        spec_parent_path(old_path@) is None || spec_parent_path(new_path@) is None ==> final(
            state).remote_files.files@ == old(state).remote_files.files@ && final(
            state).remote_files.children@ == old(state).remote_files.children@,
        spec_parent_path(old_path@) is Some && spec_parent_path(new_path@) is Some ==> {
            let o = spec_file_id(mount_id@, old_path@);
            let n = spec_file_id(mount_id@, new_path@);
            let op = spec_file_id(mount_id@, spec_parent_path(old_path@).unwrap());
            let np = spec_file_id(mount_id@, spec_parent_path(new_path@).unwrap());
            let f1 = old(state).remote_files.files@.remove(o);
            let mv = spec_move_out(
                old(state).remote_files.files@,
                spec_children_ids(old(state).remote_files.children@),
                o,
                new_path@,
            );
            let files = final(state).remote_files.files@;
            &&& files.contains_key(n)
            &&& spec_listed_file(files[n], n, mount_id@, new_path@, new_file)
            &&& files.dom() == mv.0.dom().insert(n)
            &&& forall|k: Seq<char>| #[trigger]
                files.contains_key(k) && k != n ==> f1.contains_key(mv.0[k].0) && spec_moved_record(
                    f1[mv.0[k].0],
                    files[k],
                    mv.0[k].1,
                    mv.0[k].2,
                )
            &&& exists|c_rm: Map<Seq<char>, Vec<String>>|
                {
                    &&& #[trigger] spec_children_ids(c_rm) == spec_child_removed(mv.1, op, o)
                    &&& spec_add_child(files, c_rm, final(state).remote_files.children@, np, n)
                }
        },
        same_but_files_children(old(state).remote_files, final(state).remote_files),
        only_remote_files_changed(*old(state), *final(state)),
{
    let old_file_id = get_file_id(mount_id.as_str(), old_path.as_str());
    let old_parent_path = match parent_path(old_path.as_str()) {
        Some(pp) => pp,
        None => {
            return;
        },
    };
    let old_parent_id = get_file_id(mount_id.as_str(), old_parent_path.as_str());
    let new_file_id = get_file_id(mount_id.as_str(), new_path.as_str());
    let new_parent_path = match parent_path(new_path.as_str()) {
        Some(pp) => pp,
        None => {
            return;
        },
    };
    let new_parent_id = get_file_id(mount_id.as_str(), new_parent_path.as_str());
    let ghost f0 = state.remote_files.files@;
    let ghost c0 = spec_children_ids(state.remote_files.children@);
    let ghost mv = spec_move_out(f0, c0, old_file_id@, new_path@);
    let ghost f1 = f0.remove(old_file_id@);
    match state.remote_files.files.remove(&old_file_id) {
        Some(_) => {
            file_children_change_parent_path(state, &old_file_id, new_path);
        },
        None => {
            proof {
                assert(spec_unmoved(f1).dom() =~= f1.dom());
                assert(spec_moved_files(f1, spec_unmoved(f1), state.remote_files.files@));
            }
        },
    }
    proof {
        assert(spec_moved_files(f1, mv.0, state.remote_files.files@));
        assert(spec_children_ids(state.remote_files.children@) == mv.1);
    }
    let ghost files_mid = state.remote_files.files@;
    let f = files_file_to_remote_file(
        copy_str(new_file_id.as_str()),
        mount_id.clone(),
        new_path.clone(),
        new_file,
    );
    state.remote_files.files.insert(copy_str(new_file_id.as_str()), f);
    let ghost c_mid = state.remote_files.children@;
    remove_child(state, &old_parent_id, &old_file_id);
    proof {
        let c_rm = state.remote_files.children@;
        if c_mid.contains_key(old_parent_id@) {
            assert(spec_children_ids(c_rm) =~= spec_child_removed(mv.1, old_parent_id@, old_file_id@));
        } else {
            assert(spec_children_ids(c_rm) =~= spec_child_removed(mv.1, old_parent_id@, old_file_id@));
        }
    }
    let ghost c_rm = state.remote_files.children@;
    add_child(state, &new_parent_id, new_file_id);
    proof {
        let files = state.remote_files.files@;
        assert(files.dom() =~= mv.0.dom().insert(new_file_id@));
        assert(spec_add_child(files, c_rm, state.remote_files.children@, new_parent_id@, new_file_id@));
    }
}

/// The order of places: the primary mount first, then by origin, then by
/// lower-cased name.
pub open spec fn mount_key_leq(a: Mount, b: Mount) -> bool {
    let ra: int = if a.is_primary {
        0
    } else {
        1
    };
    let rb: int = if b.is_primary {
        0
    } else {
        1
    };
    ra < rb || (ra == rb && (a.origin.spec_order() < b.origin.spec_order() || (
    a.origin.spec_order() == b.origin.spec_order() && seq_order(a.name_lower@, b.name_lower@)
        <= 0)))
}

/// Orders (key, mount) pairs by `mount_key_leq` on the mounts.
#[derive(Debug)]
pub struct MountKeyOrder;

impl<'a> SortOrder<(&'a String, &'a Mount)> for MountKeyOrder {
    open spec fn leq(&self, a: (&'a String, &'a Mount), b: (&'a String, &'a Mount)) -> bool {
        mount_key_leq(*a.1, *b.1)
    }

    fn leq_exec(&self, a: &(&'a String, &'a Mount), b: &(&'a String, &'a Mount)) -> (r: bool) {
        let ka = crate::remote_files::selectors::mount_sort_key(a.1);
        let kb = crate::remote_files::selectors::mount_sort_key(b.1);
        if ka.0 != kb.0 {
            ka.0 < kb.0
        } else if ka.1 != kb.1 {
            ka.1 < kb.1
        } else {
            compare_strs(ka.2.as_str(), kb.2.as_str()) <= 0
        }
    }

    proof fn lemma_total(&self, a: (&'a String, &'a Mount), b: (&'a String, &'a Mount)) {
        lemma_seq_order_antisym(a.1.name_lower@, b.1.name_lower@);
    }

    proof fn lemma_trans(
        &self,
        a: (&'a String, &'a Mount),
        b: (&'a String, &'a Mount),
        c: (&'a String, &'a Mount),
    ) {
        if a.1.is_primary == b.1.is_primary && b.1.is_primary == c.1.is_primary
            && a.1.origin.spec_order() == b.1.origin.spec_order() && b.1.origin.spec_order()
            == c.1.origin.spec_order() {
            lemma_seq_order_trans(a.1.name_lower@, b.1.name_lower@, c.1.name_lower@);
        }
    }
}

/// `ids` are the ids of the device mounts of `mounts` in place order, each
/// mount once, and `online_ids` the ids of those that are online, in the same order.
pub open spec fn spec_place_ids(
    mounts: Map<Seq<char>, Mount>,
    ids: Seq<Seq<char>>,
    online_ids: Seq<Seq<char>>,
) -> bool {
    exists|ks: Seq<Seq<char>>|
        {
            &&& #[trigger] ks.no_duplicates()
            &&& forall|k: Seq<char>|
                ks.contains(k) <==> (#[trigger] mounts.contains_key(k) && mounts[k].typ
                    == MountType::Device)
            &&& forall|i: int, j: int|
                0 <= i < j < ks.len() ==> mount_key_leq(
                    mounts[#[trigger] ks[i]],
                    mounts[#[trigger] ks[j]],
                )
            &&& ids == ks.map_values(|k: Seq<char>| mounts[k].id@)
            &&& online_ids == ks.filter(|k: Seq<char>| mounts[k].online).map_values(
                |k: Seq<char>| mounts[k].id@,
            )
        }
}

/// The keys of (key, mount) pairs.
pub open spec fn pair_keys<'a>(s: Seq<(&'a String, &'a Mount)>) -> Seq<Seq<char>> {
    s.map_values(|p: (&'a String, &'a Mount)| p.0@)
}

/// The ids of the device mounts in place order, and those of the online ones.
fn sorted_place_ids(mounts: &KeyMap<String, Mount>) -> (r: (Vec<String>, Vec<String>))
    ensures
        spec_place_ids(mounts@, id_views(r.0@), id_views(r.1@)),
{
    let keys = mounts.keys();
    let nk = keys.len();
    let mut devs: Vec<(&String, &Mount)> = Vec::new();
    let mut i: usize = 0;
    while i < nk
        invariant
            nk == keys.len(),
            i <= nk,
            forall|a: int| 0 <= a < keys.len() ==> mounts@.contains_key(#[trigger] keys@[a]@),
            forall|a: int, b: int|
                0 <= a < keys.len() && 0 <= b < keys.len() && a != b ==> keys@[a]@ != keys@[b]@,
            forall|a: int|
                0 <= a < devs.len() ==> {
                    &&& mounts@.contains_key((#[trigger] devs@[a]).0@)
                    &&& *devs@[a].1 == mounts@[devs@[a].0@]
                    &&& devs@[a].1.typ == MountType::Device
                },
            pair_keys(devs@).no_duplicates(),
            forall|k: Seq<char>|
                #[trigger] pair_keys(devs@).contains(k) <==> (exists|a: int|
                    0 <= a < i && #[trigger] keys@[a]@ == k && mounts@[k].typ == MountType::Device),
        decreases nk - i,
    {
        let ghost before = devs@;
        let m = mounts.get(&keys[i]).unwrap();
        if m.typ == MountType::Device {
            devs.push((&keys[i], m));
            proof {
                let kv = pair_keys(devs@);
                let bv = pair_keys(before);
                assert(kv =~= bv.push(keys@[i as int]@));
                assert(!bv.contains(keys@[i as int]@));
                assert forall|k: Seq<char>| #[trigger] kv.contains(k) <==> (exists|a: int|
                    0 <= a < i + 1 && #[trigger] keys@[a]@ == k && mounts@[k].typ
                        == MountType::Device) by {
                    if k == keys@[i as int]@ {
                        assert(kv[kv.len() - 1] == k);
                        assert(keys@[i as int]@ == k && mounts@[k].typ == MountType::Device);
                    } else {
                        if kv.contains(k) {
                            let x = choose|x: int| 0 <= x < kv.len() && kv[x] == k;
                            assert(bv[x] == k);
                            assert(bv.contains(k));
                        }
                        if exists|a: int|
                            0 <= a < i + 1 && #[trigger] keys@[a]@ == k && mounts@[k].typ
                                == MountType::Device {
                            let a = choose|a: int|
                                0 <= a < i + 1 && #[trigger] keys@[a]@ == k && mounts@[k].typ
                                    == MountType::Device;
                            assert(a < i);
                            assert(bv.contains(k));
                            let x = choose|x: int| 0 <= x < bv.len() && bv[x] == k;
                            assert(kv[x] == k);
                        }
                    }
                }
            }
        } else {
            proof {
                let bv = pair_keys(before);
                assert forall|k: Seq<char>| #[trigger] bv.contains(k) <==> (exists|a: int|
                    0 <= a < i + 1 && #[trigger] keys@[a]@ == k && mounts@[k].typ
                        == MountType::Device) by {
                    if exists|a: int|
                        0 <= a < i + 1 && #[trigger] keys@[a]@ == k && mounts@[k].typ
                            == MountType::Device {
                        let a = choose|a: int|
                            0 <= a < i + 1 && #[trigger] keys@[a]@ == k && mounts@[k].typ
                                == MountType::Device;
                        assert(a != i);
                    }
                }
            }
        }
        i = i + 1;
    }
    let ghost dv = devs@;
    let sorted = sort_by_order(devs, &MountKeyOrder);
    let ghost sv = sorted@;
    let ghost ks = pair_keys(sv);
    proof {
        broadcast use vstd::seq_lib::group_to_multiset_ensures;

        lemma_map_multiset(sv, dv, |p: (&String, &Mount)| p.0@);
        assert(pair_keys(sv) =~= sv.map_values(|p: (&String, &Mount)| p.0@));
        assert(pair_keys(dv) =~= dv.map_values(|p: (&String, &Mount)| p.0@));
        crate::seq_facts::lemma_multiset_no_dup(
            pair_keys(dv),
            ks,
        );
        assert forall|a: int| 0 <= a < sv.len() implies {
            &&& mounts@.contains_key((#[trigger] sv[a]).0@)
            &&& *sv[a].1 == mounts@[sv[a].0@]
        } by {
            assert(sv.contains(sv[a]));
            assert(sv.to_multiset().count(sv[a]) > 0);
            assert(dv.to_multiset().count(sv[a]) > 0);
            assert(dv.contains(sv[a]));
        }
    }
    let n = sorted.len();
    let mut ids: Vec<String> = Vec::new();
    let mut online: Vec<String> = Vec::new();
    let mut j: usize = 0;
    while j < n
        invariant
            n == sorted.len(),
            sv == sorted@,
            j <= n,
            ks == pair_keys(sv),
            forall|a: int|
                0 <= a < sv.len() ==> {
                    &&& mounts@.contains_key((#[trigger] sv[a]).0@)
                    &&& *sv[a].1 == mounts@[sv[a].0@]
                },
            id_views(ids@) == ks.take(j as int).map_values(|k: Seq<char>| mounts@[k].id@),
            id_views(online@) == ks.take(j as int).filter(|k: Seq<char>| mounts@[k].online).map_values(
                |k: Seq<char>| mounts@[k].id@,
            ),
        decreases n - j,
    {
        let ghost bi = ids@;
        let ghost bo = online@;
        let p = sorted[j];
        ids.push(copy_str(p.1.id.as_str()));
        proof {
            reveal(Seq::filter);
            assert(ks.take(j + 1) =~= ks.take(j as int).push(ks[j as int]));
            assert(ks.take(j + 1).drop_last() =~= ks.take(j as int));
            assert(ks[j as int] == p.0@);
            assert(id_views(ids@) =~= id_views(bi).push(p.1.id@));
            assert(ks.take(j + 1).map_values(|k: Seq<char>| mounts@[k].id@) =~= ks.take(
                j as int,
            ).map_values(|k: Seq<char>| mounts@[k].id@).push(mounts@[ks[j as int]].id@));
        }
        if p.1.online {
            online.push(copy_str(p.1.id.as_str()));
            proof {
                assert(id_views(online@) =~= id_views(bo).push(p.1.id@));
                assert(ks.take(j + 1).filter(|k: Seq<char>| mounts@[k].online) =~= ks.take(
                    j as int,
                ).filter(|k: Seq<char>| mounts@[k].online).push(ks[j as int]));
                assert(ks.take(j + 1).filter(|k: Seq<char>| mounts@[k].online).map_values(
                    |k: Seq<char>| mounts@[k].id@,
                ) =~= ks.take(j as int).filter(|k: Seq<char>| mounts@[k].online).map_values(
                    |k: Seq<char>| mounts@[k].id@,
                ).push(mounts@[ks[j as int]].id@));
            }
        } else {
            proof {
                assert(ks.take(j + 1).filter(|k: Seq<char>| mounts@[k].online) =~= ks.take(
                    j as int,
                ).filter(|k: Seq<char>| mounts@[k].online));
            }
        }
        j = j + 1;
    }
    proof {
        assert(ks.take(n as int) =~= ks);
        assert forall|k: Seq<char>|
            ks.contains(k) <==> (#[trigger] mounts@.contains_key(k) && mounts@[k].typ
                == MountType::Device) by {
            let kd = pair_keys(dv);
            assert(ks.to_set().contains(k) == kd.to_set().contains(k));
            if mounts@.contains_key(k) && mounts@[k].typ == MountType::Device {
                let a = choose|a: int| 0 <= a < keys.len() && keys@[a]@ == k;
                assert(kd.contains(k));
            }
        }
        assert forall|a: int, b: int| 0 <= a < b < ks.len() implies mount_key_leq(
            mounts@[#[trigger] ks[a]],
            mounts@[#[trigger] ks[b]],
        ) by {
            assert(MountKeyOrder.leq(sv[a], sv[b]));
        }
        assert(ks.no_duplicates());
    }
    (ids, online)
}

/// Records the places: each mount and its root folder, then the device
/// mounts in place order, and the online ones among them.
pub fn places_loaded(state: &mut State, mounts: Vec<ApiMount>)
    ensures
        forall|i: int|
            0 <= i < mounts.len() ==> final(state).remote_files.mounts@.contains_key(
                #[trigger] mounts@[i].id@,
            ),
        spec_place_ids(
            final(state).remote_files.mounts@,
            id_views(final(state).remote_files.place_mount_ids@),
            id_views(final(state).remote_files.online_place_mount_ids@),
        ),
        final(state).remote_files.children@ == old(state).remote_files.children@,
        final(state).remote_files.loaded_roots@ == old(state).remote_files.loaded_roots@,
        final(state).remote_files.bookmark_file_ids@ == old(state).remote_files.bookmark_file_ids@,
        final(state).remote_files.shared_file_ids@ == old(state).remote_files.shared_file_ids@,
        only_remote_files_changed(*old(state), *final(state)),
{
    let ghost all = mounts@;
    let mut rest = reversed(mounts);
    let n = rest.len();
    let mut i: usize = 0;
    while rest.len() > 0
        invariant
            only_remote_files_changed(*old(state), *state),
            n == all.len(),
            i <= n,
            rest.len() == n - i,
            forall|j: int| 0 <= j < rest.len() ==> rest@[j] == all[n - 1 - j],
            forall|j: int|
                0 <= j < i ==> state.remote_files.mounts@.contains_key(#[trigger] all[j].id@),
            state.remote_files.children@ == old(state).remote_files.children@,
            state.remote_files.loaded_roots@ == old(state).remote_files.loaded_roots@,
            state.remote_files.bookmark_file_ids@ == old(state).remote_files.bookmark_file_ids@,
            state.remote_files.shared_file_ids@ == old(state).remote_files.shared_file_ids@,
        decreases rest.len(),
    {
        let m = rest.pop().unwrap();
        proof {
            assert(m == all[i as int]);
        }
        place_loaded(state, m);
        i = i + 1;
    }
    let (ids, online) = sorted_place_ids(&state.remote_files.mounts);
    state.remote_files.place_mount_ids = ids;
    state.remote_files.online_place_mount_ids = online;
}

} // verus!
