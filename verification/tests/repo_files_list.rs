use vault_core::cipher::DecryptFilenameError;
use vault_core::files::FileTypes;
use vault_core::keymap::KeyMap;
use vault_core::remote::FilesFile;
use vault_core::repo_files::state::{
    FileCategory, RepoFileName, RepoFilePath, RepoFileSize, RepoFileType,
};
use vault_core::repo_files_list::mutations::{decrypt_files_list_recursive_item, ItemDecryption};
use vault_core::repo_files_list::state::{FilesListRecursiveItem, RepoFilesListRecursiveItem};

fn create_files_list_recursive_item_dir(path: &str, name: &str) -> FilesListRecursiveItem {
    FilesListRecursiveItem::File {
        path: path.into(),
        file: FilesFile {
            name: name.into(),
            typ: "dir".into(),
            size: 0,
            modified: 0,
            hash: None,
            tags: KeyMap::new(),
        },
    }
}

#[test]
fn test_decrypt_files_list_recursive_item_root() {
    let item = create_files_list_recursive_item_dir("/", "");
    let dec = ItemDecryption { parent_path: Ok("/".into()), name: Ok("".into()), size: Ok(0), tags: None };

    let r = decrypt_files_list_recursive_item(
        "m1",
        "/Vault",
        "r1",
        "/",
        &Ok("/".into()),
        item,
        dec,
        &FileTypes { by_ext: KeyMap::new() },
    );

    match r {
        RepoFilesListRecursiveItem::File { relative_repo_path, file } => {
            assert!(matches!(relative_repo_path, Ok(ref p) if p == "/"));
            assert_eq!(file.id, "r1:/");
            assert_eq!(file.mount_id, "m1");
            assert_eq!(file.remote_path, "/Vault");
            assert_eq!(file.repo_id, "r1");
            assert_eq!(file.encrypted_path, "/");
            assert!(matches!(&file.path, RepoFilePath::Decrypted { path } if path == "/"));
            assert!(matches!(&file.name, RepoFileName::Decrypted { name, name_lower } if name.is_empty() && name_lower.is_empty()));
            assert_eq!(file.ext, None);
            assert_eq!(file.content_type, None);
            assert_eq!(file.typ, RepoFileType::Dir);
            assert!(file.size.is_none());
            assert_eq!(file.modified, None);
            assert!(file.tags.is_none());
            assert_eq!(file.unique_name, "2b6bea08149b89711b061f1291492d46");
            assert_eq!(file.remote_hash, None);
            assert_eq!(file.category, FileCategory::Folder);
        }
        _ => panic!("expected a file"),
    }
}

fn create_files_list_recursive_item_file(path: &str, name: &str) -> FilesListRecursiveItem {
    FilesListRecursiveItem::File {
        path: path.into(),
        file: FilesFile {
            name: name.into(),
            typ: "file".into(),
            size: 100,
            modified: 1,
            hash: Some("hash".into()),
            tags: KeyMap::new(),
        },
    }
}

fn decode_error() -> DecryptFilenameError {
    DecryptFilenameError::DecryptFilenameError { message: "non-zero trailing bits at 1".into() }
}

fn assert_decode_error(error: &DecryptFilenameError) {
    assert_eq!(error.user_error(), "non-zero trailing bits at 1");
}

fn assert_file_f1_name_error(r: RepoFilesListRecursiveItem, path: &str, unique_name: &str) {
    match r {
        RepoFilesListRecursiveItem::File { relative_repo_path, file } => {
            match &relative_repo_path {
                Err(e) => assert_decode_error(e),
                Ok(_) => panic!("expected a path error"),
            }
            assert_eq!(file.id, format!("r1:{}", path));
            assert_eq!(file.mount_id, "m1");
            assert_eq!(file.remote_path, format!("/Vault{}", path));
            assert_eq!(file.repo_id, "r1");
            assert_eq!(file.encrypted_path, path);
            match &file.path {
                RepoFilePath::DecryptError { error } => assert_decode_error(error),
                _ => panic!("expected a path error"),
            }
            match &file.name {
                RepoFileName::DecryptError { encrypted_name, encrypted_name_lower, error } => {
                    assert_eq!(encrypted_name, "F1");
                    assert_eq!(encrypted_name_lower, "f1");
                    assert_decode_error(error);
                }
                _ => panic!("expected a name error"),
            }
            assert_eq!(file.ext, None);
            assert_eq!(file.content_type, None);
            assert_eq!(file.typ, RepoFileType::File);
            assert!(matches!(file.size, Some(RepoFileSize::Decrypted { size: 52 })));
            assert_eq!(file.modified, Some(1));
            assert!(file.tags.is_none());
            assert_eq!(file.unique_name, unique_name);
            assert_eq!(file.remote_hash, Some("hash".into()));
            assert_eq!(file.category, FileCategory::Generic);
        }
        _ => panic!("expected a file"),
    }
}

#[test]
fn test_decrypt_files_list_recursive_item_file_decrypt_error() {
    let item = create_files_list_recursive_item_file("/F1", "F1");
    let dec = ItemDecryption { parent_path: Ok("/".into()), name: Err(decode_error()), size: Ok(52), tags: None };

    let r = decrypt_files_list_recursive_item(
        "m1",
        "/Vault",
        "r1",
        "/",
        &Ok("/".into()),
        item,
        dec,
        &FileTypes { by_ext: KeyMap::new() },
    );

    assert_file_f1_name_error(r, "/F1", "de40e3afb025fe16012fd421e246c711");
}

#[test]
fn test_decrypt_files_list_recursive_item_file_decrypt_parent_path_file_error() {
    let item = create_files_list_recursive_item_file("/D1/F1", "F1");
    let dec = ItemDecryption {
        parent_path: Err(decode_error()),
        name: Err(decode_error()),
        size: Ok(52),
        tags: None,
    };

    let r = decrypt_files_list_recursive_item(
        "m1",
        "/Vault",
        "r1",
        "/",
        &Ok("/".into()),
        item,
        dec,
        &FileTypes { by_ext: KeyMap::new() },
    );

    assert_file_f1_name_error(r, "/D1/F1", "e73e9572f66d72dfbca3ad23eaebd8b5");
}

#[test]
fn test_decrypt_files_list_recursive_item_file_decrypt_root_parent_path_file_error() {
    let item = create_files_list_recursive_item_file("/D1/F1", "F1");
    let dec = ItemDecryption {
        parent_path: Err(decode_error()),
        name: Err(decode_error()),
        size: Ok(52),
        tags: None,
    };

    let r = decrypt_files_list_recursive_item(
        "m1",
        "/Vault",
        "r1",
        "/",
        &Err(decode_error()),
        item,
        dec,
        &FileTypes { by_ext: KeyMap::new() },
    );

    assert_file_f1_name_error(r, "/D1/F1", "e73e9572f66d72dfbca3ad23eaebd8b5");
}
