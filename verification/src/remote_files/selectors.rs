//! Reading the remote files state.
use vstd::prelude::*;
use vstd::string::*;

use crate::keymap::{spec_values_of_ids, values_of_ids, KeyMap};
use crate::paths::{
    join_path_name, path_to_name, paths_chain, root, root_path, spec_join_path_name,
    spec_path_to_name, spec_paths_chain,
};
use crate::remote::{ApiErrorCode, RemoteError};
use crate::store::State;
use crate::strings::{
    concat3, contains_char, copy_str, i64_to_string, lowercase, spec_i64_decimal, to_lowercase,
};

use super::errors::{spec_already_exists_error, spec_invalid_path_error, RemoteFilesErrors};
use super::state::{
    id_views, Mount, RemoteFile, RemoteFileType, RemoteFilesBreadcrumb, RemoteFilesState,
};

verus! {

/// The id of a file: its mount id, ':' and its (lower-cased) path.
pub open spec fn spec_file_id(mount_id: Seq<char>, path: Seq<char>) -> Seq<char> {
    mount_id + seq![':'] + path
}

pub fn get_file_id(mount_id: &str, path: &str) -> (r: String)
    ensures
        r@ == spec_file_id(mount_id@, path@),
{
    let r = concat3(mount_id, ":", path);
    proof {
        reveal_strlit(":");
    }
    r
}

/// The lower-case hex MD5 digest of the UTF-8 bytes of `s`.
pub uninterp spec fn md5_hex(s: Seq<char>) -> Seq<char>;

/// Calls `md5::compute` on the bytes of `s` and formats the digest as lower-case hex.
/// The digest is named `md5_hex`; it depends on `s` alone.
#[verifier::external_body]
fn md5_hex_digest(s: &str) -> (r: String)
    ensures
        r@ == md5_hex(s@),
{
    format!("{:x}", md5::compute(s.as_bytes()))
}

pub open spec fn spec_file_unique_id(
    mount_id: Seq<char>,
    path: Seq<char>,
    size: Option<i64>,
    modified: Option<i64>,
    hash: Option<Seq<char>>,
) -> Seq<char> {
    md5_hex(
        spec_file_id(mount_id, path) + seq![':'] + spec_i64_decimal(
            match size {
                Some(s) => s as int,
                None => 0,
            },
        ) + seq![':'] + spec_i64_decimal(
            match modified {
                Some(m) => m as int,
                None => 0,
            },
        ) + seq![':'] + match hash {
            Some(h) => h,
            None => Seq::empty(),
        },
    )
}

/// A name that changes whenever the file's content may have changed:
/// the MD5 of "id:size:modified:hash".
pub fn get_file_unique_id(
    mount_id: &str,
    path: &str,
    size: Option<i64>,
    modified: Option<i64>,
    hash: Option<&str>,
) -> (r: String)
    ensures
        r@ == spec_file_unique_id(
            mount_id@,
            path@,
            size,
            modified,
            match hash {
                Some(h) => Some(h@),
                None => None,
            },
        ),
{
    let id = get_file_id(mount_id, path);
    let size_s = i64_to_string(
        match size {
            Some(s) => s,
            None => 0,
        },
    );
    let modified_s = i64_to_string(
        match modified {
            Some(m) => m,
            None => 0,
        },
    );
    let hash_s = match hash {
        Some(h) => copy_str(h),
        None => String::new(),
    };
    let a = concat3(id.as_str(), ":", size_s.as_str());
    let b = concat3(a.as_str(), ":", modified_s.as_str());
    let c = concat3(b.as_str(), ":", hash_s.as_str());
    proof {
        reveal_strlit(":");
        assert(c@ =~= spec_file_id(mount_id@, path@) + seq![':'] + size_s@ + seq![':'] + modified_s@
            + seq![':'] + hash_s@);
    }
    md5_hex_digest(c.as_str())
}

/// The sort key of a mount: primary first, then by origin, then by name.
pub fn mount_sort_key<'a>(mount: &'a Mount) -> (r: (u32, u32, &'a String))
    ensures
        r.0 == (if mount.is_primary {
            0u32
        } else {
            1u32
        }),
        r.1 == mount.origin.spec_order(),
        r.2 == &mount.name_lower,
{
    (if mount.is_primary {
        0
    } else {
        1
    }, mount.origin.order(), &mount.name_lower)
}

/// The sort key of a file: folders first, then by lower-cased name.
pub fn remote_file_sort_key<'a>(file: &'a RemoteFile) -> (r: (RemoteFileType, &'a String))
    ensures
        r.0 == file.typ,
        r.1 == &file.name_lower,
{
    (file.typ, &file.name_lower)
}

pub fn select_mount<'a>(state: &'a State, mount_id: &String) -> (r: Option<&'a Mount>)
    ensures
        match r {
            Some(m) => state.remote_files.mounts@.contains_key(mount_id@)
                && state.remote_files.mounts@[mount_id@] == *m,
            None => !state.remote_files.mounts@.contains_key(mount_id@),
        },
{
    state.remote_files.mounts.get(mount_id)
}

pub fn select_children<'a>(state: &'a State, file_id: &String) -> (r: Option<&'a Vec<String>>)
    ensures
        match r {
            Some(c) => state.remote_files.children@.contains_key(file_id@)
                && state.remote_files.children@[file_id@] == *c,
            None => !state.remote_files.children@.contains_key(file_id@),
        },
{
    state.remote_files.children.get(file_id)
}

pub fn select_file<'a>(state: &'a State, file_id: &String) -> (r: Option<&'a RemoteFile>)
    ensures
        match r {
            Some(f) => state.remote_files.files@.contains_key(file_id@)
                && state.remote_files.files@[file_id@] == *f,
            None => !state.remote_files.files@.contains_key(file_id@),
        },
{
    state.remote_files.files.get(file_id)
}

/// The recently changed files under the folder at `path` (lower-cased) of
/// `mount_id`, when they were loaded.
pub fn select_recent<'a>(state: &'a State, mount_id: &str, path: &str) -> (r: Option<&'a Vec<String>>)
    ensures
        match r {
            Some(ids) => state.remote_files.recent@.contains_key(spec_file_id(mount_id@, path@))
                && state.remote_files.recent@[spec_file_id(mount_id@, path@)] == *ids,
            None => !state.remote_files.recent@.contains_key(spec_file_id(mount_id@, path@)),
        },
{
    let id = get_file_id(mount_id, path);
    state.remote_files.recent.get(&id)
}

/// The loaded children of the folder with id `file_id`, in their stored order.
pub open spec fn spec_children_files(rf: RemoteFilesState, file_id: Seq<char>) -> Seq<RemoteFile> {
    if rf.children@.contains_key(file_id) {
        spec_values_of_ids(rf.files@, id_views(rf.children@[file_id]@))
    } else {
        Seq::empty()
    }
}

pub fn select_files<'a>(state: &'a State, mount_id: &str, path: &str) -> (r: Vec<&'a RemoteFile>)
    ensures
        r@.map_values(|f: &RemoteFile| *f) == spec_children_files(
            state.remote_files,
            spec_file_id(mount_id@, path@),
        ),
{
    let id = get_file_id(mount_id, path);
    match select_children(state, &id) {
        Some(ids) => values_of_ids(&state.remote_files.files, ids),
        None => {
            let r: Vec<&'a RemoteFile> = Vec::new();
            assert(r@.map_values(|f: &RemoteFile| *f) =~= Seq::<RemoteFile>::empty());
            r
        },
    }
}

/// The same as `select_files`.
pub fn select_storage_files<'a>(state: &'a State, mount_id: &str, path: &str) -> (r: Vec<
    &'a RemoteFile,
>)
    ensures
        r@.map_values(|f: &RemoteFile| *f) == spec_children_files(
            state.remote_files,
            spec_file_id(mount_id@, path@),
        ),
{
    select_files(state, mount_id, path)
}

/// The name shown for a file: its mount's name at the root, else its own.
pub fn select_file_name<'a>(state: &'a State, file: &'a RemoteFile) -> (r: Option<&'a String>)
    ensures
        file.path@ == root_path() ==> match r {
            Some(n) => state.remote_files.mounts@.contains_key(file.mount_id@)
                && *n == state.remote_files.mounts@[file.mount_id@].name,
            None => !state.remote_files.mounts@.contains_key(file.mount_id@),
        },
        file.path@ != root_path() ==> r == Some(&file.name),
{
    if crate::paths::is_root(file.path.as_str()) {
        match select_mount(state, &file.mount_id) {
            Some(mount) => Some(&mount.name),
            None => None,
        }
    } else {
        Some(&file.name)
    }
}

pub fn select_is_root_loaded(state: &State, mount_id: &str, path: &str) -> (r: bool)
    ensures
        r == state.remote_files.loaded_roots@.contains_key(spec_file_id(mount_id@, path@)),
{
    state.remote_files.loaded_roots.contains_key(&get_file_id(mount_id, path))
}

pub open spec fn spec_name_valid(name: Seq<char>) -> bool {
    name.len() > 0 && !name.contains('/')
}

/// The names that a check accepts are exactly the non-empty ones without a
/// '/': an empty name, or one with a '/' anywhere in it, gets the
/// invalid-path error.
pub proof fn law_name_valid(name: Seq<char>, i: int)
    ensures
        0 <= i < name.len() && name[i] == '/' ==> !spec_name_valid(name),
        name.len() == 0 ==> !spec_name_valid(name),
        name.len() > 0 && (forall|j: int| 0 <= j < name.len() ==> name[j] != '/') ==> spec_name_valid(
            name,
        ),
{
    if 0 <= i < name.len() && name[i] == '/' {
        assert(name.contains('/'));
    }
}

/// A name is valid when it is not empty and holds no '/'.
pub fn check_name_valid(name: &str) -> (r: Result<(), RemoteError>)
    ensures
        r is Ok <==> spec_name_valid(name@),
        r matches Err(e) ==> spec_invalid_path_error(e),
{
    if name.unicode_len() > 0 && !contains_char(name, '/') {
        Ok(())
    } else {
        Err(RemoteFilesErrors::invalid_path())
    }
}

/// Whether the ids of `ids` hold `id`.
pub fn ids_contain(ids: &Vec<String>, id: &String) -> (r: bool)
    ensures
        r == id_views(ids@).contains(id@),
{
    let n = ids.len();
    let mut i: usize = 0;
    while i < n
        invariant
            n == ids.len(),
            i <= n,
            forall|j: int| 0 <= j < i ==> ids@[j]@ != id@,
        decreases n - i,
    {
        if crate::strings::str_eq(ids[i].as_str(), id.as_str()) {
            assert(id_views(ids@)[i as int] == id@);
            return true;
        }
        i = i + 1;
    }
    proof {
        if id_views(ids@).contains(id@) {
            let j = choose|j: int| 0 <= j < id_views(ids@).len() && id_views(ids@)[j] == id@;
            assert(ids@[j]@ == id@);
        }
    }
    false
}

pub open spec fn spec_new_name_taken(
    rf: RemoteFilesState,
    mount_id: Seq<char>,
    parent_path: Seq<char>,
    new_name: Seq<char>,
) -> bool {
    let parent_id = spec_file_id(mount_id, parent_path);
    rf.children@.contains_key(parent_id) && id_views(rf.children@[parent_id]@).contains(
        spec_file_id(mount_id, spec_join_path_name(parent_path, new_name)),
    )
}

/// A new name is taken exactly when the parent folder's children are loaded
/// and one of them has the id of the parent path joined with the name.
pub proof fn law_new_name_taken(rf: RemoteFilesState, mount_id: Seq<char>, parent_path: Seq<char>, new_name: Seq<char>)
    ensures
        spec_new_name_taken(rf, mount_id, parent_path, new_name) <==> {
            let parent_id = mount_id + seq![':'] + parent_path;
            let new_id = mount_id + seq![':'] + spec_join_path_name(parent_path, new_name);
            &&& rf.children@.contains_key(parent_id)
            &&& exists|i: int|
                0 <= i < rf.children@[parent_id]@.len() && #[trigger] rf.children@[parent_id]@[i]@ == new_id
        },
{
    let parent_id = spec_file_id(mount_id, parent_path);
    let new_id = spec_file_id(mount_id, spec_join_path_name(parent_path, new_name));
    if rf.children@.contains_key(parent_id) {
        let ids = rf.children@[parent_id]@;
        if id_views(ids).contains(new_id) {
            let i = choose|i: int| 0 <= i < id_views(ids).len() && id_views(ids)[i] == new_id;
            assert(ids[i]@ == new_id);
        }
        if exists|i: int| 0 <= i < ids.len() && #[trigger] ids[i]@ == new_id {
            let i = choose|i: int| 0 <= i < ids.len() && #[trigger] ids[i]@ == new_id;
            assert(id_views(ids)[i] == new_id);
        }
    }
}

/// A new name is valid when it is a valid name and no loaded child of the
/// parent folder has the same (lower-cased) path.
pub fn select_check_new_name_valid(
    state: &State,
    mount_id: &str,
    parent_path: &str,
    new_name: &str,
) -> (r: Result<(), RemoteError>)
    ensures
        r is Ok <==> spec_name_valid(new_name@) && !spec_new_name_taken(
            state.remote_files,
            mount_id@,
            parent_path@,
            new_name@,
        ),
        !spec_name_valid(new_name@) ==> (r matches Err(e) && spec_invalid_path_error(e)),
        spec_name_valid(new_name@) && spec_new_name_taken(
            state.remote_files,
            mount_id@,
            parent_path@,
            new_name@,
        ) ==> (r matches Err(e) && spec_already_exists_error(e)),
{
    check_name_valid(new_name)?;
    let new_path = join_path_name(parent_path, new_name);
    match select_children(state, &get_file_id(mount_id, parent_path)) {
        Some(ids) => {
            if ids_contain(ids, &get_file_id(mount_id, new_path.as_str())) {
                Err(RemoteFilesErrors::already_exists())
            } else {
                Ok(())
            }
        },
        None => Ok(()),
    }
}

/// The breadcrumb of `path` at position `i` of its chain of ancestors.
pub open spec fn spec_breadcrumb_ok(
    b: RemoteFilesBreadcrumb,
    mount: Mount,
    mount_id: Seq<char>,
    chain: Seq<Seq<char>>,
    i: int,
) -> bool {
    &&& b.id@ == spec_file_id(mount_id, lowercase(chain[i]))
    &&& b.mount_id@ == mount_id
    &&& b.path@ == chain[i]
    &&& b.name@ == match spec_path_to_name(chain[i]) {
        Some(n) => n,
        None => mount.name@,
    }
    &&& b.last == (i == chain.len() - 1)
}

/// The chain of folders from the mount's root to `path`, or nothing when
/// the mount is not known.
pub fn select_breadcrumbs(state: &State, mount_id: &String, path: &str) -> (r: Vec<
    RemoteFilesBreadcrumb,
>)
    ensures
        !state.remote_files.mounts@.contains_key(mount_id@) ==> r.len() == 0,
        state.remote_files.mounts@.contains_key(mount_id@) ==> {
            &&& r.len() == spec_paths_chain(path@).len()
            &&& forall|i: int|
                0 <= i < r.len() ==> spec_breadcrumb_ok(
                    #[trigger] r@[i],
                    state.remote_files.mounts@[mount_id@],
                    mount_id@,
                    spec_paths_chain(path@),
                    i,
                )
        },
{
    let mount = match select_mount(state, mount_id) {
        Some(mount) => mount,
        None => {
            return Vec::new();
        },
    };
    let paths = paths_chain(path);
    let ghost chain = paths@.map_values(|s: String| s@);
    let paths_len = paths.len();
    let mut r: Vec<RemoteFilesBreadcrumb> = Vec::new();
    let mut i: usize = 0;
    while i < paths_len
        invariant
            paths_len == paths.len(),
            chain == paths@.map_values(|s: String| s@),
            chain == spec_paths_chain(path@),
            i <= paths_len,
            r.len() == i,
            state.remote_files.mounts@.contains_key(mount_id@),
            state.remote_files.mounts@[mount_id@] == *mount,
            forall|j: int| 0 <= j < i ==> spec_breadcrumb_ok(#[trigger] r@[j], *mount, mount_id@, chain, j),
        decreases paths_len - i,
    {
        let p = &paths[i];
        let lower = to_lowercase(p.as_str());
        let id = get_file_id(mount_id.as_str(), lower.as_str());
        let name = match path_to_name(p.as_str()) {
            Some(name) => name,
            None => mount.name.clone(),
        };
        r.push(
            RemoteFilesBreadcrumb {
                id,
                mount_id: mount_id.clone(),
                path: copy_str(p.as_str()),
                name,
                last: i == paths_len - 1,
            },
        );
        i = i + 1;
    }
    r
}

pub fn select_bookmarks_files<'a>(state: &'a State) -> (r: Vec<&'a RemoteFile>)
    ensures
        r@.map_values(|f: &RemoteFile| *f) == spec_values_of_ids(
            state.remote_files.files@,
            id_views(state.remote_files.bookmark_file_ids@),
        ),
{
    values_of_ids(&state.remote_files.files, &state.remote_files.bookmark_file_ids)
}

/// For each online place: its mount and its root folder, when both are known.
pub open spec fn spec_places_mount_files(rf: RemoteFilesState, ids: Seq<Seq<char>>) -> Seq<
    (Mount, RemoteFile),
>
    decreases ids.len(),
{
    if ids.len() == 0 {
        Seq::empty()
    } else {
        let prev = spec_places_mount_files(rf, ids.drop_last());
        let mid = ids.last();
        if rf.mounts@.contains_key(mid) && rf.files@.contains_key(
            spec_file_id(rf.mounts@[mid].id@, root_path()),
        ) {
            prev.push((rf.mounts@[mid], rf.files@[spec_file_id(rf.mounts@[mid].id@, root_path())]))
        } else {
            prev
        }
    }
}

pub fn select_places_mount_files<'a>(state: &'a State) -> (r: Vec<(&'a Mount, &'a RemoteFile)>)
    ensures
        r@.map_values(|p: (&Mount, &RemoteFile)| (*p.0, *p.1)) == spec_places_mount_files(
            state.remote_files,
            id_views(state.remote_files.online_place_mount_ids@),
        ),
{
    let ids = &state.remote_files.online_place_mount_ids;
    let ghost idv = id_views(ids@);
    let mut r: Vec<(&'a Mount, &'a RemoteFile)> = Vec::new();
    let n = ids.len();
    let slash = root();
    let mut i: usize = 0;
    while i < n
        invariant
            n == ids.len(),
            ids == &state.remote_files.online_place_mount_ids,
            slash@ == root_path(),
            i <= n,
            idv == id_views(ids@),
            r@.map_values(|p: (&Mount, &RemoteFile)| (*p.0, *p.1)) == spec_places_mount_files(
                state.remote_files,
                idv.take(i as int),
            ),
        decreases n - i,
    {
        let ghost before = r@;
        proof {
            assert(idv.take(i + 1).drop_last() =~= idv.take(i as int));
            assert(idv.take(i + 1).last() == ids@[i as int]@);
        }
        match state.remote_files.mounts.get(&ids[i]) {
            Some(mount) => {
                match select_file(state, &get_file_id(mount.id.as_str(), slash.as_str())) {
                    Some(file) => {
                        r.push((mount, file));
                        proof {
                            assert(r@.map_values(|p: (&Mount, &RemoteFile)| (*p.0, *p.1))
                                =~= before.map_values(|p: (&Mount, &RemoteFile)| (*p.0, *p.1)).push(
                                (*mount, *file),
                            ));
                        }
                    },
                    None => {},
                }
            },
            None => {},
        }
        i = i + 1;
    }
    proof {
        assert(idv.take(n as int) =~= idv);
    }
    r
}

/// For each shared root: its mount and the file, when both are known.
pub open spec fn spec_shared_mount_files(rf: RemoteFilesState, ids: Seq<Seq<char>>) -> Seq<
    (Mount, RemoteFile),
>
    decreases ids.len(),
{
    if ids.len() == 0 {
        Seq::empty()
    } else {
        let prev = spec_shared_mount_files(rf, ids.drop_last());
        let fid = ids.last();
        if rf.files@.contains_key(fid) && rf.mounts@.contains_key(rf.files@[fid].mount_id@) {
            prev.push((rf.mounts@[rf.files@[fid].mount_id@], rf.files@[fid]))
        } else {
            prev
        }
    }
}

pub fn select_shared_mount_files<'a>(state: &'a State) -> (r: Vec<(&'a Mount, &'a RemoteFile)>)
    ensures
        r@.map_values(|p: (&Mount, &RemoteFile)| (*p.0, *p.1)) == spec_shared_mount_files(
            state.remote_files,
            id_views(state.remote_files.shared_file_ids@),
        ),
{
    let ids = &state.remote_files.shared_file_ids;
    let ghost idv = id_views(ids@);
    let mut r: Vec<(&'a Mount, &'a RemoteFile)> = Vec::new();
    let n = ids.len();
    let mut i: usize = 0;
    while i < n
        invariant
            n == ids.len(),
            ids == &state.remote_files.shared_file_ids,
            i <= n,
            idv == id_views(ids@),
            r@.map_values(|p: (&Mount, &RemoteFile)| (*p.0, *p.1)) == spec_shared_mount_files(
                state.remote_files,
                idv.take(i as int),
            ),
        decreases n - i,
    {
        let ghost before = r@;
        proof {
            assert(idv.take(i + 1).drop_last() =~= idv.take(i as int));
            assert(idv.take(i + 1).last() == ids@[i as int]@);
        }
        match select_file(state, &ids[i]) {
            Some(file) => {
                match select_mount(state, &file.mount_id) {
                    Some(mount) => {
                        r.push((mount, file));
                        proof {
                            assert(r@.map_values(|p: (&Mount, &RemoteFile)| (*p.0, *p.1))
                                =~= before.map_values(|p: (&Mount, &RemoteFile)| (*p.0, *p.1)).push(
                                (*mount, *file),
                            ));
                        }
                    },
                    None => {},
                }
            },
            None => {},
        }
        i = i + 1;
    }
    proof {
        assert(idv.take(n as int) =~= idv);
    }
    r
}

/// The extension of a lower-cased name and the category of files with it.
pub fn get_file_ext_category(name_lower: &str, types: &crate::files::FileTypes) -> (r: (
    Option<String>,
    crate::repo_files::state::FileCategory,
))
    ensures
        crate::repo_files::selectors::opt_string_view(r.0) == crate::files::spec_name_to_ext(name_lower@),
        r.1 == crate::repo_files::selectors::spec_ext_category(*types, crate::files::spec_name_to_ext(name_lower@)),
{
    let (ext, _, category) = crate::repo_files::selectors::get_file_ext_content_type_category(name_lower, types);
    (ext, category)
}

} // verus!
