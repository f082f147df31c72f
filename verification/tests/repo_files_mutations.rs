use vault_core::cipher::{DecryptFilenameError, DecryptSizeError};
use vault_core::files::{ExtInfo, FileTypes};
use vault_core::keymap::KeyMap;
use vault_core::remote_files::state::{RemoteFile, RemoteFileType};
use vault_core::repo_files::mutations::{cleanup_file, decrypt_file, get_root_file, sort_children};
use vault_core::repo_files::state::{
    FileCategory, RepoFile, RepoFileName, RepoFilePath, RepoFileSize, RepoFileType, RepoFilesState,
};
use vault_core::repos::{Repo, RepoState};

fn create_dummy_repo() -> Repo {
    Repo {
        id: "r1".into(),
        name: "My safe box".into(),
        mount_id: "m1".into(),
        path: "/Vault".into(),
        salt: None,
        added: 3,
        state: RepoState::Unlocked,
    }
}

fn remote_dir(path: &str, name: &str) -> RemoteFile {
    RemoteFile {
        id: format!("m1:{}", path.to_lowercase()),
        mount_id: "m1".into(),
        path: path.into(),
        name: name.into(),
        name_lower: name.to_lowercase(),
        typ: RemoteFileType::Dir,
        size: None,
        modified: Some(1),
        hash: None,
        tags: KeyMap::new(),
    }
}

fn remote_file(path: &str, name: &str, size: i64) -> RemoteFile {
    RemoteFile {
        id: format!("m1:{}", path.to_lowercase()),
        mount_id: "m1".into(),
        path: path.into(),
        name: name.into(),
        name_lower: name.to_lowercase(),
        typ: RemoteFileType::File,
        size: Some(size),
        modified: Some(1),
        hash: Some("hash".into()),
        tags: KeyMap::new(),
    }
}

fn decode_error() -> DecryptFilenameError {
    DecryptFilenameError::DecryptFilenameError { message: "non-zero trailing bits at 1".into() }
}

fn image_types() -> FileTypes {
    let mut by_ext = KeyMap::new();
    by_ext.insert(
        String::from("jpg"),
        ExtInfo { content_type: Some("image/jpeg".into()), category: Some(FileCategory::Image) },
    );
    FileTypes { by_ext }
}

fn assert_decrypt_error(name: &RepoFileName, encrypted_name: &str, encrypted_name_lower: &str) {
    match name {
        RepoFileName::DecryptError { encrypted_name: n, encrypted_name_lower: l, error } => {
            assert_eq!(n, encrypted_name);
            assert_eq!(l, encrypted_name_lower);
            assert_eq!(error.user_error(), "non-zero trailing bits at 1");
        }
        _ => panic!("expected a decrypt error"),
    }
}

#[test]
fn test_get_root_file() {
    let repo = create_dummy_repo();
    let remote_file = remote_dir("/Vault", "Vault");

    let file = get_root_file(&repo, &remote_file);

    assert_eq!(file.id, "r1:/");
    assert_eq!(file.mount_id, remote_file.mount_id);
    assert_eq!(file.remote_path, remote_file.path);
    assert_eq!(file.repo_id, "r1");
    assert_eq!(file.encrypted_path, "/");
    assert!(matches!(&file.path, RepoFilePath::Decrypted { path } if path == "/"));
    assert!(matches!(&file.name, RepoFileName::Decrypted { name, name_lower }
        if name == "My safe box" && name_lower == "my safe box"));
    assert_eq!(file.ext, None);
    assert_eq!(file.content_type, None);
    assert_eq!(file.typ, RepoFileType::Dir);
    assert!(file.size.is_none());
    assert_eq!(file.modified, Some(3));
    assert!(file.tags.is_none());
    assert_eq!(file.unique_name, "b3278dc2a959498ee943d7dbe02ae093");
    assert_eq!(file.remote_hash, None);
    assert_eq!(file.category, FileCategory::Folder);
}

#[test]
fn test_decrypt_file_dir_decrypt_error() {
    let remote_file = remote_dir("/Vault/D1", "D1");

    let file = decrypt_file(
        "r1",
        "/",
        &Ok("/".into()),
        &remote_file,
        Err(decode_error()),
        Ok(0),
        None,
        &FileTypes { by_ext: KeyMap::new() },
    );

    assert_eq!(file.id, "r1:/D1");
    assert_eq!(file.mount_id, remote_file.mount_id);
    assert_eq!(file.remote_path, remote_file.path);
    assert_eq!(file.repo_id, "r1");
    assert_eq!(file.encrypted_path, format!("/{}", remote_file.name));
    match &file.path {
        RepoFilePath::DecryptError { error } => {
            assert_eq!(error.user_error(), "non-zero trailing bits at 1")
        }
        _ => panic!("expected a path error"),
    }
    assert_decrypt_error(&file.name, "D1", "d1");
    assert_eq!(file.ext, None);
    assert_eq!(file.content_type, None);
    assert_eq!(file.typ, RepoFileType::Dir);
    assert!(file.size.is_none());
    assert_eq!(file.modified, Some(1));
    assert!(file.tags.is_none());
    assert_eq!(file.unique_name, "f8a02d0ff4cb571f2c17c05dc8bdf626");
    assert_eq!(file.remote_hash, None);
    assert_eq!(file.category, FileCategory::Folder);
}

#[test]
fn decrypt_file_file_takes_extension_type_and_category() {
    let remote_file = remote_file("/Vault/abc", "abc", 100);

    let file = decrypt_file(
        "r1",
        "/",
        &Ok("/".into()),
        &remote_file,
        Ok("Image.JPG".into()),
        Ok(52),
        None,
        &image_types(),
    );

    assert_eq!(file.id, "r1:/abc");
    assert_eq!(file.encrypted_path, "/abc");
    assert!(matches!(&file.path, RepoFilePath::Decrypted { path } if path == "/Image.JPG"));
    assert!(matches!(&file.name, RepoFileName::Decrypted { name, name_lower }
        if name == "Image.JPG" && name_lower == "image.jpg"));
    assert_eq!(file.ext, Some("jpg".into()));
    assert_eq!(file.content_type, Some("image/jpeg".into()));
    assert_eq!(file.typ, RepoFileType::File);
    assert!(matches!(file.size, Some(RepoFileSize::Decrypted { size: 52 })));
    assert_eq!(file.unique_name, "c0969391d0308caa5f9b9b9065d4b5b3.jpg");
    assert_eq!(file.remote_hash, Some("hash".into()));
    assert_eq!(file.category, FileCategory::Image);
}

#[test]
fn decrypt_file_unknown_extension_is_generic() {
    let remote_file = remote_file("/Vault/abc", "abc", 100);

    let file = decrypt_file(
        "r1",
        "/",
        &Ok("/".into()),
        &remote_file,
        Ok("notes.xyz".into()),
        Ok(52),
        None,
        &image_types(),
    );

    assert_eq!(file.ext, Some("xyz".into()));
    assert_eq!(file.content_type, None);
    assert_eq!(file.category, FileCategory::Generic);
    assert_eq!(file.unique_name, "c0969391d0308caa5f9b9b9065d4b5b3.xyz");
}

#[test]
fn decrypt_file_parent_path_error_wins() {
    let remote_file = remote_file("/Vault/dir/abc", "abc", 100);

    let file = decrypt_file(
        "r1",
        "/dir",
        &Err(decode_error()),
        &remote_file,
        Ok("F1".into()),
        Ok(52),
        None,
        &image_types(),
    );

    assert_eq!(file.id, "r1:/dir/abc");
    assert_eq!(file.encrypted_path, "/dir/abc");
    match &file.path {
        RepoFilePath::DecryptError { error } => {
            assert_eq!(error.user_error(), "non-zero trailing bits at 1")
        }
        _ => panic!("expected a path error"),
    }
    assert!(matches!(&file.name, RepoFileName::Decrypted { name, .. } if name == "F1"));
    assert_eq!(file.ext, None);
    assert_eq!(file.category, FileCategory::Generic);
}

#[test]
fn decrypt_file_size_error_keeps_encrypted_size() {
    let remote_file = remote_file("/Vault/F1", "F1", 10);

    let file = decrypt_file(
        "r1",
        "/",
        &Ok("/".into()),
        &remote_file,
        Err(decode_error()),
        Err(DecryptSizeError { message: "encrypted file too short".into() }),
        None,
        &image_types(),
    );

    match &file.size {
        Some(RepoFileSize::DecryptError { encrypted_size, error }) => {
            assert_eq!(*encrypted_size, 10);
            assert_eq!(error.message, "encrypted file too short");
        }
        _ => panic!("expected a size error"),
    }
    assert_decrypt_error(&file.name, "F1", "f1");
    assert_eq!(file.category, FileCategory::Generic);
}

#[test]
fn decrypt_file_invalid_name_shows_escaped_name() {
    let remote_file = remote_dir("/Vault/D\u{1}", "D\u{1}");

    let file = decrypt_file(
        "r1",
        "/",
        &Ok("/".into()),
        &remote_file,
        Err(DecryptFilenameError::InvalidNameError {
            escaped_name: "D\\u0001".into(),
            message: "invalid name".into(),
        }),
        Ok(0),
        None,
        &image_types(),
    );

    match &file.name {
        RepoFileName::DecryptError { encrypted_name, encrypted_name_lower, .. } => {
            assert_eq!(encrypted_name, "D\\u0001");
            assert_eq!(encrypted_name_lower, "d\\u0001");
        }
        _ => panic!("expected a decrypt error"),
    }
}

fn dummy_file(id: &str, typ: RepoFileType, name: &str) -> RepoFile {
    RepoFile {
        id: id.into(),
        mount_id: "m1".into(),
        remote_path: "/".into(),
        repo_id: "r1".into(),
        encrypted_path: "/".into(),
        path: RepoFilePath::Decrypted { path: "/".into() },
        name: RepoFileName::Decrypted { name: name.into(), name_lower: name.to_lowercase() },
        ext: None,
        content_type: None,
        typ,
        size: None,
        modified: None,
        tags: None,
        unique_name: id.into(),
        remote_hash: None,
        category: FileCategory::Generic,
    }
}

#[test]
fn cleanup_file_removes_the_subtree_only() {
    let mut repo_files = RepoFilesState::new();
    for id in ["r1:/", "r1:/D1", "r1:/D1/F1", "r1:/D1/E/F2", "r1:/D10", "r1:/F3"] {
        repo_files.files.insert(id.to_string(), dummy_file(id, RepoFileType::File, "x"));
    }
    repo_files.children.insert("r1:/D1".to_string(), vec!["r1:/D1/F1".to_string()]);
    repo_files.children.insert("r1:/D1/E".to_string(), vec!["r1:/D1/E/F2".to_string()]);
    repo_files.children.insert("r1:/".to_string(), vec!["r1:/D1".to_string()]);

    cleanup_file(&mut repo_files, "r1:/D1");

    assert!(repo_files.files.get(&"r1:/D1".to_string()).is_none());
    assert!(repo_files.files.get(&"r1:/D1/F1".to_string()).is_none());
    assert!(repo_files.files.get(&"r1:/D1/E/F2".to_string()).is_none());
    assert!(repo_files.files.get(&"r1:/D10".to_string()).is_some());
    assert!(repo_files.files.get(&"r1:/F3".to_string()).is_some());
    assert!(repo_files.files.get(&"r1:/".to_string()).is_some());
    assert!(repo_files.children.get(&"r1:/D1".to_string()).is_none());
    assert!(repo_files.children.get(&"r1:/D1/E".to_string()).is_none());
    assert!(repo_files.children.get(&"r1:/".to_string()).is_some());
}

#[test]
fn sort_children_puts_folders_first_then_names() {
    let mut repo_files = RepoFilesState::new();
    repo_files.files.insert("r1:/b".into(), dummy_file("r1:/b", RepoFileType::File, "b"));
    repo_files.files.insert("r1:/a".into(), dummy_file("r1:/a", RepoFileType::File, "a"));
    repo_files.files.insert("r1:/z".into(), dummy_file("r1:/z", RepoFileType::Dir, "z"));
    repo_files.children.insert(
        "r1:/".into(),
        vec!["r1:/b".to_string(), "r1:/a".to_string(), "r1:/z".to_string()],
    );

    sort_children(&mut repo_files, &"r1:/".to_string());

    assert_eq!(
        repo_files.children.get(&"r1:/".to_string()).unwrap(),
        &vec!["r1:/z".to_string(), "r1:/a".to_string(), "r1:/b".to_string()]
    );
}
