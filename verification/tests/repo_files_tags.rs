use vault_core::keymap::KeyMap;
use vault_core::remote_files::state::{RemoteFile, RemoteFileType};
use vault_core::repo_files::state::{
    FileCategory, RepoFile, RepoFileName, RepoFilePath, RepoFileType,
};
use vault_core::repo_files_tags::errors::{DecryptTagsError, SetTagsError};
use vault_core::repo_files_tags::mutations::{decrypt_tags, set_tags_hash_patch, tags_value};
use vault_core::repo_files_tags::selectors::select_set_tags_info;
use vault_core::repo_files_tags::state::RepoFileTags;
use vault_core::store::State;

fn remote(typ: RemoteFileType, hash: Option<&str>, tags: Vec<&str>) -> RemoteFile {
    let mut t = KeyMap::new();
    if !tags.is_empty() {
        t.insert("vault".to_string(), tags.into_iter().map(String::from).collect());
    }
    RemoteFile {
        id: "m1:/vault/f".into(),
        mount_id: "m1".into(),
        path: "/Vault/F".into(),
        name: "F".into(),
        name_lower: "f".into(),
        typ,
        size: Some(3),
        modified: Some(4),
        hash: hash.map(String::from),
        tags: t,
    }
}

fn tags(encrypted_hash: Option<Vec<u8>>) -> RepoFileTags {
    RepoFileTags { encrypted_hash, hash: None, unknown: KeyMap::new() }
}

#[test]
fn no_tag_value_means_no_tags() {
    let f = remote(RemoteFileType::File, Some("0a0b"), vec![]);
    assert!(decrypt_tags(&f, Ok(tags(None))).is_none());
    assert_eq!(tags_value(&f), None);
}

#[test]
fn several_tag_values_are_an_error() {
    let f = remote(RemoteFileType::File, Some("0a0b"), vec!["x", "y"]);
    assert!(matches!(decrypt_tags(&f, Ok(tags(None))), Some(Err(DecryptTagsError::MultipleValues))));
    assert_eq!(tags_value(&f), None);
}

#[test]
fn a_decode_error_is_reported() {
    let f = remote(RemoteFileType::File, Some("0a0b"), vec!["x"]);
    assert_eq!(tags_value(&f), Some("x".to_string()));
    assert!(matches!(decrypt_tags(&f, Err("bad".into())), Some(Err(DecryptTagsError::DecodeError(m))) if m == "bad"));
}

#[test]
fn tags_whose_hash_matches_are_kept() {
    let f = remote(RemoteFileType::File, Some("0a0b"), vec!["x"]);
    let r = decrypt_tags(&f, Ok(tags(Some(vec![10, 11])))).unwrap().unwrap();
    assert_eq!(r.encrypted_hash, Some(vec![10, 11]));
}

#[test]
fn tags_whose_hash_differs_are_an_error() {
    let f = remote(RemoteFileType::File, Some("0a0c"), vec!["x"]);
    match decrypt_tags(&f, Ok(tags(Some(vec![10, 11])))) {
        Some(Err(DecryptTagsError::EncryptedHashMismatch { expected_encrypted_hash, encrypted_hash })) => {
            assert_eq!(expected_encrypted_hash.as_deref(), Some("0a0b"));
            assert_eq!(encrypted_hash.as_deref(), Some("0a0c"));
        }
        _ => panic!("expected a mismatch"),
    }
    let f = remote(RemoteFileType::File, None, vec!["x"]);
    assert!(matches!(
        decrypt_tags(&f, Ok(tags(Some(vec![10])))),
        Some(Err(DecryptTagsError::EncryptedHashMismatch { encrypted_hash: None, .. }))
    ));
    let d = remote(RemoteFileType::Dir, None, vec!["x"]);
    assert!(matches!(decrypt_tags(&d, Ok(tags(None))), Some(Ok(_))));
}

fn repo_file(remote_hash: Option<&str>, file_tags: Option<RepoFileTags>) -> RepoFile {
    RepoFile {
        id: "r1:/F".into(),
        mount_id: "m1".into(),
        remote_path: "/Vault/F".into(),
        repo_id: "r1".into(),
        encrypted_path: "/F".into(),
        path: RepoFilePath::Decrypted { path: "/f.txt".into() },
        name: RepoFileName::Decrypted { name: "f.txt".into(), name_lower: "f.txt".into() },
        ext: Some("txt".into()),
        content_type: None,
        typ: RepoFileType::File,
        size: None,
        modified: Some(4),
        tags: file_tags.map(Ok),
        unique_name: "u".into(),
        remote_hash: remote_hash.map(String::from),
        category: FileCategory::Text,
    }
}

#[test]
fn setting_tags_starts_from_the_remote_hash() {
    let mut state = State::new();
    state.repo_files.files.insert("r1:/F".into(), repo_file(Some("0A0b"), None));
    state.remote_files.files.insert("m1:/vault/f".into(), remote(RemoteFileType::File, Some("0A0b"), vec!["x"]));

    let (mount_id, path, t, conditions) = select_set_tags_info(&state, &"r1:/F".to_string()).unwrap();

    assert_eq!(mount_id, "m1");
    assert_eq!(path, "/Vault/F");
    assert_eq!(t.encrypted_hash, Some(vec![10, 11]));
    assert_eq!(t.hash, None);
    assert_eq!(conditions.if_size, Some(3));
    assert_eq!(conditions.if_hash.as_deref(), Some("0A0b"));
    assert_eq!(conditions.if_old_tags.unwrap().get(&"vault".to_string()).unwrap(), &vec!["x".to_string()]);
}

#[test]
fn setting_tags_needs_a_valid_remote_hash() {
    let mut state = State::new();
    assert!(matches!(select_set_tags_info(&state, &"r1:/F".to_string()), Err(SetTagsError::FileNotFound)));
    state.repo_files.files.insert("r1:/F".into(), repo_file(None, None));
    assert!(matches!(select_set_tags_info(&state, &"r1:/F".to_string()), Err(SetTagsError::FileNotFound)));
    state.remote_files.files.insert("m1:/vault/f".into(), remote(RemoteFileType::File, None, vec![]));
    assert!(matches!(select_set_tags_info(&state, &"r1:/F".to_string()), Err(SetTagsError::MissingEncryptedHash)));
    state.remote_files.files.insert("m1:/vault/f".into(), remote(RemoteFileType::File, Some("0g"), vec![]));
    assert!(matches!(select_set_tags_info(&state, &"r1:/F".to_string()), Err(SetTagsError::InvalidEncryptedHash(_))));
    state.remote_files.files.insert("m1:/vault/f".into(), remote(RemoteFileType::File, Some("abc"), vec![]));
    assert!(matches!(select_set_tags_info(&state, &"r1:/F".to_string()), Err(SetTagsError::InvalidEncryptedHash(_))));
}

#[test]
fn setting_tags_keeps_readable_tags() {
    let mut state = State::new();
    state.repo_files.files.insert("r1:/F".into(), repo_file(None, Some(RepoFileTags { encrypted_hash: Some(vec![1]), hash: Some(vec![2]), unknown: KeyMap::new() })));
    state.remote_files.files.insert("m1:/vault/f".into(), remote(RemoteFileType::File, None, vec![]));
    let (_, _, t, _) = select_set_tags_info(&state, &"r1:/F".to_string()).unwrap();
    assert_eq!(t.encrypted_hash, Some(vec![1]));
    assert_eq!(t.hash, Some(vec![2]));
}

#[test]
fn setting_tags_keeps_unknown_tags() {
    let mut state = State::new();
    let mut unknown = KeyMap::new();
    unknown.insert("future".to_string(), vec![0x92, 0x01, 0x02]);
    state.repo_files.files.insert("r1:/F".into(), repo_file(None, Some(RepoFileTags { encrypted_hash: Some(vec![1]), hash: None, unknown })));
    state.remote_files.files.insert("m1:/vault/f".into(), remote(RemoteFileType::File, None, vec![]));
    let (_, _, t, _) = select_set_tags_info(&state, &"r1:/F".to_string()).unwrap();
    assert_eq!(t.unknown.len(), 1);
    assert_eq!(t.unknown.get(&"future".to_string()), Some(&vec![0x92, 0x01, 0x02]));
}

#[test]
fn the_hash_patch_checks_the_remote_hash() {
    let file = repo_file(Some("h1"), None);
    let mut t = tags(Some(vec![9]));
    assert!(set_tags_hash_patch(&file, &mut t, &"h1".to_string(), &vec![1, 2]).is_ok());
    assert_eq!(t.hash, Some(vec![1, 2]));
    assert_eq!(t.encrypted_hash, Some(vec![9]));

    let mut t = tags(None);
    match set_tags_hash_patch(&file, &mut t, &"h2".to_string(), &vec![1]) {
        Err(SetTagsError::EncryptedHashMismatch { expected_encrypted_hash, encrypted_hash }) => {
            assert_eq!(expected_encrypted_hash, "h2");
            assert_eq!(encrypted_hash.as_deref(), Some("h1"));
        }
        _ => panic!("expected a mismatch"),
    }
    assert_eq!(t.hash, None);
}

#[test]
fn the_icon_of_an_undecryptable_file_is_an_error() {
    let mut f = repo_file(None, None);
    let a = f.file_icon_attrs();
    assert_eq!(a.category, FileCategory::Text);
    assert!(!a.is_error);
    f.name = RepoFileName::DecryptError {
        encrypted_name: "F".into(),
        encrypted_name_lower: "f".into(),
        error: vault_core::cipher::DecryptFilenameError::DecryptFilenameError { message: "x".into() },
    };
    assert!(f.file_icon_attrs().is_error);
}

#[test]
fn tags_errors_are_told_to_the_user() {
    assert_eq!(DecryptTagsError::MultipleValues.user_error(), "Multiple tags values found");
    let e = DecryptTagsError::EncryptedHashMismatch {
        expected_encrypted_hash: Some("0a0b".into()),
        encrypted_hash: None,
    };
    assert_eq!(
        e.user_error(),
        "Encrypted file hash does not match the encrypted hash in tags: Some(\"0a0b\") != None"
    );
    assert_eq!(DecryptTagsError::DecodeError("Failed to decrypt tags: x".into()).user_error(), "Failed to decrypt tags: x");
}

#[test]
fn tags_built_from_a_lower_case_remote_hash_pass_the_hash_check() {
    let mut state = State::new();
    state.repo_files.files.insert("r1:/F".into(), repo_file(Some("0a0b"), None));
    state.remote_files.files.insert("m1:/vault/f".into(), remote(RemoteFileType::File, Some("0a0b"), vec!["x"]));
    let (_, _, t, _) = select_set_tags_info(&state, &"r1:/F".to_string()).unwrap();
    assert_eq!(t.encrypted_hash_hex().as_deref(), Some("0a0b"));
    let f = remote(RemoteFileType::File, Some("0a0b"), vec!["x"]);
    assert!(matches!(decrypt_tags(&f, Ok(t)), Some(Ok(_))));
}
