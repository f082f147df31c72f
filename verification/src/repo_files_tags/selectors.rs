//! The conditions under which a repository sets the tags of a remote file.
use vstd::prelude::*;

use crate::keymap::KeyMap;
use crate::remote::RemoteFileTagsSetConditions;
use crate::remote_files_tags::set_tags::{conditions_ok, old_tag_ok};
use crate::remote_files::state::{copy_ids, id_views, RemoteFile};
use crate::strings::{copy_str, lowercase};
use crate::hex_text::{hex_bytes, hex_decode, is_hex_text};
use crate::remote_files::selectors::spec_file_id;
use crate::remote_files::state::RemoteFileType;
use crate::store::State;

use super::errors::SetTagsError;
use super::state::{opt_bytes_view, same_encoded_values, RepoFileTags};

verus! {

/// The key under which repositories keep their tags.
pub open spec fn remote_file_tags_key() -> Seq<char> {
    "vault"@
}

/// The conditions `c` name the file `remote_file` as it was read: its size,
/// time, hash and repository tags (none counts as an empty list).
pub open spec fn spec_own_conditions(remote_file: RemoteFile, c: RemoteFileTagsSetConditions) -> bool {
    &&& c.if_size == remote_file.size
    &&& c.if_modified == remote_file.modified
    &&& c.if_hash == remote_file.hash
    &&& c.if_old_tags matches Some(m) && m@.dom() == set![remote_file_tags_key()] && id_views(
        m@[remote_file_tags_key()]@,
    ) == if remote_file.tags@.contains_key(remote_file_tags_key()) {
        id_views(remote_file.tags@[remote_file_tags_key()]@)
    } else {
        Seq::<Seq<char>>::empty()
    }
}

/// Sets tags only if the file is still as it was read: same size, time,
/// hash and repository tags (none counts as an empty list).
pub fn get_remote_file_tags_set_conditions(remote_file: &RemoteFile) -> (r:
    RemoteFileTagsSetConditions)
    ensures
        spec_own_conditions(*remote_file, r),
{
    let key = copy_str("vault");
    let values = match remote_file.tags.get(&key) {
        Some(vs) => copy_ids(vs),
        None => Vec::new(),
    };
    let mut old_tags: KeyMap<String, Vec<String>> = KeyMap::new();
    old_tags.insert(key, values);
    proof {
        assert(old_tags@.dom() =~= set![remote_file_tags_key()]);
        assert(id_views(Seq::<String>::empty()) =~= Seq::<Seq<char>>::empty());
    }
    RemoteFileTagsSetConditions {
        if_size: remote_file.size,
        if_modified: remote_file.modified,
        if_hash: match &remote_file.hash {
            Some(h) => Some(h.clone()),
            None => None,
        },
        if_old_tags: Some(old_tags),
    }
}

/// A file meets the conditions built from itself: its own size, time, hash
/// and tags pass them, unless it holds the repository key with an empty list
/// of values (the conditions then ask for the key to be absent).
pub proof fn law_own_conditions_hold(
    remote_file: RemoteFile,
    c: RemoteFileTagsSetConditions,
    file_hash: Option<&str>,
)
    requires
        spec_own_conditions(remote_file, c),
        file_hash is Some == remote_file.hash is Some,
        file_hash matches Some(h) ==> h@ == remote_file.hash->0@,
        !(remote_file.tags@.contains_key(remote_file_tags_key())
            && remote_file.tags@[remote_file_tags_key()]@.len() == 0),
    ensures
        conditions_ok(remote_file.size, remote_file.modified, file_hash, remote_file.tags@, c),
{
    let m = c.if_old_tags->0;
    let key = remote_file_tags_key();
    assert forall|k: Seq<char>| #[trigger] m@.contains_key(k) implies old_tag_ok(
        remote_file.tags@,
        k,
        id_views(m@[k]@),
    ) by {
        assert(k == key);
        if remote_file.tags@.contains_key(key) {
            let vs = id_views(remote_file.tags@[key]@);
            assert forall|i: int| 0 <= i < vs.len() implies id_views(remote_file.tags@[key]@).contains(vs[i]) by {
                assert(vs[i] == vs[i]);
            }
        }
    }
}

/// What setting the tags of the repository file `file_id` starts from (the
/// caller's patch then changes the tags): the mount and path of its remote
/// file, its tags (or, when they could not be read, tags that hold only the
/// hash of the encrypted content that the remote file records), and the
/// conditions for the remote write; or why not.
pub open spec fn spec_set_tags_info(
    state: State,
    file_id: Seq<char>,
    r: Result<(String, String, RepoFileTags, RemoteFileTagsSetConditions), SetTagsError>,
) -> bool {
    if !state.repo_files.files@.contains_key(file_id) {
        r matches Err(SetTagsError::FileNotFound)
    } else {
        let file = state.repo_files.files@[file_id];
        let rid = spec_file_id(file.mount_id@, lowercase(file.remote_path@));
        if !state.remote_files.files@.contains_key(rid) {
            r matches Err(SetTagsError::FileNotFound)
        } else {
            let rf = state.remote_files.files@[rid];
            let base_ok = match file.tags {
                Some(Ok(_)) => true,
                _ => rf.typ == RemoteFileType::Dir || (rf.hash is Some && is_hex_text(rf.hash.unwrap()@)),
            };
            if !base_ok {
                if rf.hash is None {
                    r matches Err(SetTagsError::MissingEncryptedHash)
                } else {
                    r matches Err(SetTagsError::InvalidEncryptedHash(_))
                }
            } else {
                r matches Ok((m, p, t, c)) && m@ == rf.mount_id@ && p@ == rf.path@
                    && spec_own_conditions(rf, c) && match file.tags {
                    Some(Ok(ft)) => opt_bytes_view(t.encrypted_hash) == opt_bytes_view(ft.encrypted_hash)
                        && opt_bytes_view(t.hash) == opt_bytes_view(ft.hash)
                        && same_encoded_values(t.unknown@, ft.unknown@),
                    _ => t.hash is None && t.unknown@ == Map::<Seq<char>, Vec<u8>>::empty() && match rf.typ {
                        RemoteFileType::Dir => t.encrypted_hash is None,
                        RemoteFileType::File => opt_bytes_view(t.encrypted_hash) == Some(hex_bytes(rf.hash.unwrap()@)),
                    },
                }
            }
        }
    }
}

/// What setting the tags of the repository file `file_id` starts from (see
/// `spec_set_tags_info`).
pub fn select_set_tags_info(state: &State, file_id: &String) -> (r: Result<
    (String, String, RepoFileTags, RemoteFileTagsSetConditions),
    SetTagsError,
>)
    ensures
        spec_set_tags_info(*state, file_id@, r),
{
    let file = match crate::repo_files::selectors::select_file(state, file_id) {
        Some(f) => f,
        None => {
            return Err(SetTagsError::FileNotFound);
        },
    };
    let remote_file = match crate::repo_files::selectors::select_remote_file(state, file) {
        Some(f) => f,
        None => {
            return Err(SetTagsError::FileNotFound);
        },
    };
    let tags = match &file.tags {
        Some(Ok(t)) => t.copy(),
        _ => {
            let encrypted_hash = match remote_file.typ {
                RemoteFileType::Dir => None,
                RemoteFileType::File => {
                    let h = match &remote_file.hash {
                        Some(h) => h,
                        None => {
                            return Err(SetTagsError::MissingEncryptedHash);
                        },
                    };
                    match hex_decode(h.as_str()) {
                        Ok(b) => Some(b),
                        Err(e) => {
                            return Err(SetTagsError::InvalidEncryptedHash(e));
                        },
                    }
                },
            };
            RepoFileTags { encrypted_hash, hash: None, unknown: KeyMap::new() }
        },
    };
    let conditions = get_remote_file_tags_set_conditions(remote_file);
    Ok((remote_file.mount_id.clone(), remote_file.path.clone(), tags, conditions))
}

} // verus!
