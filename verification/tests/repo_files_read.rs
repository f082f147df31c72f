use vault_core::repo_files::state::{FileCategory, RepoFile, RepoFileName, RepoFilePath, RepoFileType};
use vault_core::repo_files_read::selectors::select_files_zip_name;
use vault_core::repos::{Repo, RepoState};
use vault_core::store::State;

fn file(id: &str, path: &str, name: &str, typ: RepoFileType) -> RepoFile {
    RepoFile {
        id: id.into(),
        mount_id: "m1".into(),
        remote_path: format!("/Vault{}", path),
        repo_id: "r1".into(),
        encrypted_path: path.into(),
        path: RepoFilePath::Decrypted { path: path.into() },
        name: RepoFileName::Decrypted { name: name.into(), name_lower: name.to_lowercase() },
        ext: None,
        content_type: None,
        typ,
        size: None,
        modified: None,
        tags: None,
        unique_name: id.into(),
        remote_hash: None,
        category: FileCategory::Generic,
    }
}

fn example_state() -> State {
    let mut state = State::new();
    state.repos.repos_by_id.insert(
        "r1".into(),
        Repo {
            id: "r1".into(),
            name: "Vault".into(),
            mount_id: "m1".into(),
            path: "/Vault".into(),
            salt: None,
            added: 1,
            state: RepoState::Unlocked,
        },
    );
    let files = vec![
        file("r1:/", "/", "Vault", RepoFileType::Dir),
        file("r1:/D1", "/D1", "D1", RepoFileType::Dir),
        file("r1:/F1", "/F1", "F1", RepoFileType::File),
        file("r1:/F2", "/F2", "F2", RepoFileType::File),
        file("r1:/D1/F3", "/D1/F3", "F3", RepoFileType::File),
    ];
    for f in files {
        state.repo_files.files.insert(f.id.clone(), f);
    }
    state.repo_files.children.insert(
        "r1:/".into(),
        vec!["r1:/D1".to_string(), "r1:/F1".to_string(), "r1:/F2".to_string()],
    );
    state.repo_files.children.insert("r1:/D1".into(), vec!["r1:/D1/F3".to_string()]);
    state
}

fn get(state: &State, id: &str) -> RepoFile {
    state.repo_files.files.get(&id.to_string()).unwrap().copy()
}

#[test]
fn test_select_files_zip_name() {
    let state = example_state();
    let d1 = get(&state, "r1:/D1");
    let f1 = get(&state, "r1:/F1");
    let f2 = get(&state, "r1:/F2");
    let f3 = get(&state, "r1:/D1/F3");

    assert_eq!(select_files_zip_name(&state, &vec![d1.copy(), f1.copy(), f2.copy()]), "Vault.zip");
    assert_eq!(select_files_zip_name(&state, &vec![d1.copy(), f1.copy()]), "Vault-2-selected-items.zip");
    assert_eq!(select_files_zip_name(&state, &vec![d1.copy(), f1.copy()]), "Vault-2-selected-items.zip");
    assert_eq!(
        select_files_zip_name(&state, &vec![d1.copy(), f1.copy(), f2.copy(), f3.copy()]),
        "4-selected-items.zip"
    );
}

#[test]
fn zip_name_of_a_subfolder_uses_its_name() {
    let state = example_state();
    let f3 = get(&state, "r1:/D1/F3");

    assert_eq!(select_files_zip_name(&state, &vec![f3]), "D1.zip");
}

#[test]
fn zip_name_without_files_counts_zero() {
    let state = example_state();

    assert_eq!(select_files_zip_name(&state, &vec![]), "0-selected-items.zip");
}

#[test]
fn zip_name_of_an_unlisted_parent_counts_files() {
    let state = example_state();
    let mut f = get(&state, "r1:/F1");
    f.path = RepoFilePath::Decrypted { path: "/X/F1".into() };

    assert_eq!(select_files_zip_name(&state, &vec![f]), "1-selected-items.zip");
}
