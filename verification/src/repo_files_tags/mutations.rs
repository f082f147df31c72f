//! Reading the tags that a repository keeps on a remote file.
use vstd::prelude::*;

use crate::hex_text::hex_lower;
use crate::remote_files::state::{id_views, RemoteFile, RemoteFileType};
use crate::strings::{copy_str, str_eq};

use super::errors::{DecryptTagsError, SetTagsError};
use super::state::opt_bytes_view;
use crate::repo_files::state::RepoFile;
use crate::strings::copy_bytes;
use super::selectors::remote_file_tags_key;
use super::state::RepoFileTags;

verus! {

/// The values that a remote file holds under the repository tags key.
pub open spec fn spec_tags_values(f: RemoteFile) -> Option<Seq<Seq<char>>> {
    if f.tags@.contains_key(remote_file_tags_key()) {
        Some(id_views(f.tags@[remote_file_tags_key()]@))
    } else {
        None
    }
}

/// The hex form of optional bytes.
pub open spec fn opt_hex(o: Option<Vec<u8>>) -> Option<Seq<char>> {
    match o {
        Some(h) => Some(hex_lower(h@)),
        None => None,
    }
}

pub open spec fn opt_view(o: Option<String>) -> Option<Seq<char>> {
    match o {
        Some(s) => Some(s@),
        None => None,
    }
}

/// What the tags of `f` are, once the repository's cipher decoded their
/// value into `decoded`: the tags when the hash of the encrypted content they
/// record is the remote file's hash (or `f` is a folder), else why not.
pub open spec fn spec_decrypted_tags(
    f: RemoteFile,
    decoded: Result<RepoFileTags, String>,
    r: Option<Result<RepoFileTags, DecryptTagsError>>,
) -> bool {
    match spec_tags_values(f) {
        None => r is None,
        Some(vs) => if vs.len() > 1 {
            r == Some(Err::<RepoFileTags, DecryptTagsError>(DecryptTagsError::MultipleValues))
        } else if vs.len() == 0 {
            r is None
        } else {
            match decoded {
                Err(msg) => r == Some(Err::<RepoFileTags, DecryptTagsError>(DecryptTagsError::DecodeError(msg))),
                Ok(t) => {
                    let e = opt_hex(t.encrypted_hash);
                    match f.typ {
                        RemoteFileType::Dir => r == Some(Ok::<RepoFileTags, DecryptTagsError>(t)),
                        RemoteFileType::File => if f.hash is Some && e is Some {
                            if e.unwrap() == f.hash.unwrap()@ {
                                r == Some(Ok::<RepoFileTags, DecryptTagsError>(t))
                            } else {
                                r matches Some(Err(DecryptTagsError::EncryptedHashMismatch { expected_encrypted_hash, encrypted_hash }))
                                    && opt_view(expected_encrypted_hash) == e && opt_view(encrypted_hash) == opt_view(f.hash)
                            }
                        } else {
                            r matches Some(Err(DecryptTagsError::EncryptedHashMismatch { expected_encrypted_hash, encrypted_hash }))
                                && opt_view(expected_encrypted_hash) == e && encrypted_hash is None
                        },
                    }
                },
            }
        },
    }
}

/// The encrypted value of the repository tags of a remote file, when it
/// holds exactly one.
pub fn tags_value(remote_file: &RemoteFile) -> (r: Option<String>)
    ensures
        match spec_tags_values(*remote_file) {
            Some(vs) => if vs.len() == 1 {
                r matches Some(v) && v@ == vs[0]
            } else {
                r is None
            },
            None => r is None,
        },
{
    let key = copy_str("vault");
    match remote_file.tags.get(&key) {
        Some(vs) => {
            if vs.len() == 1 {
                Some(vs[0].clone())
            } else {
                None
            }
        },
        None => None,
    }
}

/// The tags of `remote_file` (see `spec_decrypted_tags`); `decoded` is what
/// the repository's cipher made of their single value (see `tags_value`).
pub fn decrypt_tags(remote_file: &RemoteFile, decoded: Result<RepoFileTags, String>) -> (r: Option<
    Result<RepoFileTags, DecryptTagsError>,
>)
    ensures
        spec_decrypted_tags(*remote_file, decoded, r),
{
    let key = copy_str("vault");
    let n = match remote_file.tags.get(&key) {
        Some(vs) => vs.len(),
        None => {
            return None;
        },
    };
    if n > 1 {
        return Some(Err(DecryptTagsError::MultipleValues));
    }
    if n == 0 {
        return None;
    }
    let tags = match decoded {
        Ok(t) => t,
        Err(msg) => {
            return Some(Err(DecryptTagsError::DecodeError(msg)));
        },
    };
    let e = tags.encrypted_hash_hex();
    match remote_file.typ {
        RemoteFileType::Dir => Some(Ok(tags)),
        RemoteFileType::File => match (&remote_file.hash, e) {
            (Some(h), Some(e)) => {
                if str_eq(e.as_str(), h.as_str()) {
                    Some(Ok(tags))
                } else {
                    Some(Err(DecryptTagsError::EncryptedHashMismatch {
                        expected_encrypted_hash: Some(e),
                        encrypted_hash: Some(h.clone()),
                    }))
                }
            },
            (_, e) => Some(Err(DecryptTagsError::EncryptedHashMismatch { expected_encrypted_hash: e, encrypted_hash: None })),
        },
    }
}

/// The change that recording the hash of a file's content makes to its
/// tags: the hash is set, when the file is still stored with the encrypted
/// content whose hash is `remote_file_hash`; else nothing changes and the
/// mismatch is the error.
pub fn set_tags_hash_patch(
    file: &RepoFile,
    tags: &mut RepoFileTags,
    remote_file_hash: &String,
    hash: &Vec<u8>,
) -> (r: Result<(), SetTagsError>)
    ensures
        match file.remote_hash {
            Some(h) if h@ == remote_file_hash@ => r is Ok && opt_bytes_view(final(tags).hash) == Some(hash@)
                && opt_bytes_view(final(tags).encrypted_hash) == opt_bytes_view(old(tags).encrypted_hash),
            _ => {
                &&& *final(tags) == *old(tags)
                &&& r matches Err(SetTagsError::EncryptedHashMismatch { expected_encrypted_hash, encrypted_hash })
                    && expected_encrypted_hash == *remote_file_hash && encrypted_hash == file.remote_hash
            },
        },
{
    let same = match &file.remote_hash {
        Some(h) => str_eq(h.as_str(), remote_file_hash.as_str()),
        None => false,
    };
    if !same {
        return Err(SetTagsError::EncryptedHashMismatch {
            expected_encrypted_hash: remote_file_hash.clone(),
            encrypted_hash: match &file.remote_hash {
                Some(h) => Some(h.clone()),
                None => None,
            },
        });
    }
    tags.hash = Some(copy_bytes(hash));
    Ok(())
}

} // verus!
