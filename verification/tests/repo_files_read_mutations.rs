use chrono::{Datelike, Timelike};
use vault_core::cipher::DecryptFilenameError;
use vault_core::remote::RemoteError;
use vault_core::repo_files::state::{
    FileCategory, RepoFile, RepoFileName, RepoFilePath, RepoFileSize, RepoFileType,
};
use vault_core::repo_files_list::errors::FilesListRecursiveItemError;
use vault_core::repo_files_list::state::RepoFilesListRecursiveItem;
use vault_core::repo_files_read::errors::GetFilesReaderError;
use vault_core::repo_files_read::mutations::{
    file_to_remote_zip_entry, list_recursive_items_to_remote_zip_entries, zip_date_time_from_millis,
    zip_size_estimate,
};
use vault_core::repo_files_read::state::{RemoteZipEntry, ZipDateTime};

fn decode_error() -> DecryptFilenameError {
    DecryptFilenameError::DecryptFilenameError { message: "non-zero trailing bits at 1".into() }
}

fn repo_file(remote_path: &str, path: &str, typ: RepoFileType) -> RepoFile {
    let name = path.rsplit('/').next().unwrap().to_string();
    RepoFile {
        id: format!("r1:{}", path),
        mount_id: "m1".into(),
        remote_path: remote_path.into(),
        repo_id: "r1".into(),
        encrypted_path: path.into(),
        path: RepoFilePath::Decrypted { path: path.into() },
        name: RepoFileName::Decrypted { name: name.clone(), name_lower: name.to_lowercase() },
        ext: None,
        content_type: None,
        typ,
        size: match typ {
            RepoFileType::Dir => None,
            RepoFileType::File => Some(RepoFileSize::Decrypted { size: 52 }),
        },
        modified: Some(1),
        tags: None,
        unique_name: "u".into(),
        remote_hash: None,
        category: FileCategory::Generic,
    }
}

fn item(remote_path: &str, path: &str, typ: RepoFileType) -> RepoFilesListRecursiveItem {
    RepoFilesListRecursiveItem::File {
        relative_repo_path: Ok(path.into()),
        file: repo_file(remote_path, path, typ),
    }
}

fn assert_entry(e: &RemoteZipEntry, remote_path: &str, filename: &str, typ: RepoFileType, size: i64) {
    assert_eq!(e.mount_id, "m1");
    assert_eq!(e.remote_path, remote_path);
    assert_eq!(e.repo_id, "r1");
    assert_eq!(e.filename, filename);
    assert_eq!(e.modified, ZipDateTime::default_time());
    assert_eq!(e.typ, typ);
    assert_eq!(e.size, size);
}

#[test]
fn test_zip_date_time_from_millis() {
    assert_eq!(zip_date_time_from_millis(315532799000), ZipDateTime::default_time());

    let dt = zip_date_time_from_millis(1678358492000);
    let chrono_dt = chrono::DateTime::from_timestamp_millis(1678358492000).unwrap();
    assert_eq!(
        (dt.year, dt.month, dt.day, dt.hour, dt.minute, dt.second),
        (
            chrono_dt.date_naive().year(),
            chrono_dt.date_naive().month(),
            chrono_dt.date_naive().day(),
            chrono_dt.time().hour(),
            chrono_dt.time().minute(),
            chrono_dt.time().second(),
        )
    );
    assert_eq!((dt.year, dt.month, dt.day, dt.hour, dt.minute, dt.second), (2023, 3, 9, 10, 41, 32));
}

#[test]
fn zip_date_time_at_1980_is_kept() {
    let dt = zip_date_time_from_millis(315532800000);
    assert_eq!((dt.year, dt.month, dt.day, dt.hour, dt.minute, dt.second), (1980, 1, 1, 0, 0, 0));
}

#[test]
fn test_list_recursive_items_to_remote_zip_entries() {
    let mut file_path_error = item("/Vault/D1/INVALID", "/INVALID", RepoFileType::File);
    if let RepoFilesListRecursiveItem::File { ref mut relative_repo_path, .. } = file_path_error {
        *relative_repo_path = Err(decode_error());
    }

    let entries = list_recursive_items_to_remote_zip_entries(vec![
        item("/Vault/D1", "/", RepoFileType::Dir),
        file_path_error,
        RepoFilesListRecursiveItem::Error {
            mount_id: "m1".into(),
            remote_path: None,
            error: FilesListRecursiveItemError::DecryptFilenameError(decode_error()),
        },
        item("/Vault/D1/F1", "/F1", RepoFileType::File),
        item("/Vault/D1/D2", "/D2", RepoFileType::Dir),
        item("/Vault/D1/D2/F2", "/D2/F2", RepoFileType::File),
    ])
    .unwrap();

    assert_eq!(entries.len(), 3);
    assert_entry(&entries[0], "/Vault/D1/F1", "F1", RepoFileType::File, 52);
    assert_entry(&entries[1], "/Vault/D1/D2", "D2/", RepoFileType::Dir, 0);
    assert_entry(&entries[2], "/Vault/D1/D2/F2", "D2/F2", RepoFileType::File, 52);
}

#[test]
fn test_list_recursive_items_to_remote_zip_entries_remote_error() {
    let err = list_recursive_items_to_remote_zip_entries(vec![
        item("/Vault/D1", "/", RepoFileType::Dir),
        item("/Vault/D1/F1", "/F1", RepoFileType::File),
        RepoFilesListRecursiveItem::Error {
            mount_id: "m1".into(),
            remote_path: None,
            error: FilesListRecursiveItemError::RemoteError(RemoteError::HttpError {
                message: "invalid json".into(),
            }),
        },
    ])
    .unwrap_err();

    assert_eq!(err.user_error(), "invalid json");
}

#[test]
fn test_file_to_remote_zip_entry() {
    let file = repo_file("/Vault/F1", "/F1", RepoFileType::File);

    let entry = file_to_remote_zip_entry(&file).unwrap();

    assert_entry(&entry, "/Vault/F1", "F1", RepoFileType::File, 52);
}

#[test]
fn test_file_to_remote_zip_entry_decrypt_error() {
    let mut file = repo_file("/Vault/F1", "/F1", RepoFileType::File);
    file.name = RepoFileName::DecryptError {
        encrypted_name: "F1".into(),
        encrypted_name_lower: "f1".into(),
        error: decode_error(),
    };

    assert!(matches!(
        file_to_remote_zip_entry(&file).unwrap_err(),
        GetFilesReaderError::DecryptFilenameError(_)
    ));
}

#[test]
fn zip_size_estimate_counts_headers_names_and_sizes() {
    let entries = vec![
        RemoteZipEntry {
            mount_id: "m1".into(),
            remote_path: "/Vault/D".into(),
            repo_id: "r1".into(),
            filename: "D/".into(),
            modified: ZipDateTime::default_time(),
            typ: RepoFileType::Dir,
            size: 0,
        },
        RemoteZipEntry {
            mount_id: "m1".into(),
            remote_path: "/Vault/D/F".into(),
            repo_id: "r1".into(),
            filename: "D/F".into(),
            modified: ZipDateTime::default_time(),
            typ: RepoFileType::File,
            size: 100,
        },
    ];

    assert_eq!(zip_size_estimate(&entries), 98 + (30 + 2 + 46 + 2) + (66 + 3 + 100 + 66 + 3));
    assert_eq!(zip_size_estimate(&vec![]), 98);
}

#[test]
fn zip_date_time_from_millis_reads_the_utc_calendar() {
    assert_eq!(
        zip_date_time_from_millis(1700000000123),
        ZipDateTime { year: 2023, month: 11, day: 14, hour: 22, minute: 13, second: 20 }
    );
    assert_eq!(
        zip_date_time_from_millis(951782400000),
        ZipDateTime { year: 2000, month: 2, day: 29, hour: 0, minute: 0, second: 0 }
    );
}
