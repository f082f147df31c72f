//! Why the tags of a repository file could not be read.
use vstd::prelude::*;

use crate::remote::RemoteError;
use crate::repos::{RepoLockedError, RepoNotFoundError};
use crate::strings::{concat, concat3, copy_str};

verus! {

#[derive(Debug)]
pub enum DecryptTagsError {
    MultipleValues,
    EncryptedHashMismatch { expected_encrypted_hash: Option<String>, encrypted_hash: Option<String> },
    /// The tags could not be decoded; the text says why.
    DecodeError(String),
}


/// The text that `{:?}` writes for an optional string, such as `None` or
/// `Some("a\"b")` with the string's escapes.
pub uninterp spec fn debug_opt_string(o: Option<Seq<char>>) -> Seq<char>;

pub open spec fn opt_string_view(o: Option<String>) -> Option<Seq<char>> {
    match o {
        Some(s) => Some(s@),
        None => None,
    }
}

/// Writes an optional string with `{:?}`. Its result is named
/// `debug_opt_string`: it depends on the value alone; the escaping rules of
/// `Debug` are not restated here.
#[verifier::external_body]
fn debug_text(o: &Option<String>) -> (r: String)
    ensures
        r@ == debug_opt_string(opt_string_view(*o)),
{
    format!("{:?}", o)
}

impl DecryptTagsError {
    pub open spec fn spec_user_error(&self) -> Seq<char> {
        match self {
            DecryptTagsError::MultipleValues => "Multiple tags values found"@,
            DecryptTagsError::EncryptedHashMismatch { expected_encrypted_hash, encrypted_hash } =>
                "Encrypted file hash does not match the encrypted hash in tags: "@ + debug_opt_string(
                opt_string_view(*expected_encrypted_hash),
            ) + " != "@ + debug_opt_string(opt_string_view(*encrypted_hash)),
            DecryptTagsError::DecodeError(m) => m@,
        }
    }

    /// The text shown to the user for this error.
    pub fn user_error(&self) -> (r: String)
        ensures
            r@ == self.spec_user_error(),
    {
        match self {
            DecryptTagsError::MultipleValues => copy_str("Multiple tags values found"),
            DecryptTagsError::EncryptedHashMismatch { expected_encrypted_hash, encrypted_hash } => {
                let a = debug_text(expected_encrypted_hash);
                let b = debug_text(encrypted_hash);
                let head = concat("Encrypted file hash does not match the encrypted hash in tags: ", a.as_str());
                concat3(head.as_str(), " != ", b.as_str())
            },
            DecryptTagsError::DecodeError(m) => m.clone(),
        }
    }
}

impl Clone for DecryptTagsError {
    fn clone(&self) -> (r: Self)
        ensures
            r == *self,
    {
        match self {
            DecryptTagsError::MultipleValues => DecryptTagsError::MultipleValues,
            DecryptTagsError::EncryptedHashMismatch { expected_encrypted_hash, encrypted_hash } =>
                DecryptTagsError::EncryptedHashMismatch {
                    expected_encrypted_hash: match expected_encrypted_hash {
                        Some(h) => Some(h.clone()),
                        None => None,
                    },
                    encrypted_hash: match encrypted_hash {
                        Some(h) => Some(h.clone()),
                        None => None,
                    },
                },
            DecryptTagsError::DecodeError(m) => DecryptTagsError::DecodeError(m.clone()),
        }
    }
}

/// Why the tags of a file could not be set.
#[derive(Debug)]
pub enum SetTagsError {
    RepoNotFound(RepoNotFoundError),
    RepoLocked(RepoLockedError),
    FileNotFound,
    MissingEncryptedHash,
    InvalidEncryptedHash(hex::FromHexError),
    EncryptedHashMismatch { expected_encrypted_hash: String, encrypted_hash: Option<String> },
    /// The tags could not be encoded; the text says why.
    RepoFileTagsEncodeError(String),
    RemoteError(RemoteError),
}

} // verus!
