use vault_core::common::{SortDirection, SortGrouping};
use vault_core::keymap::KeyMap;
use vault_core::repo_files::selectors::select_sorted_files;
use vault_core::repo_files::state::{
    FileCategory, RepoFile, RepoFileName, RepoFilePath, RepoFileSize, RepoFileType, RepoFilesSort,
    RepoFilesSortField,
};

fn create_repo_file(typ: RepoFileType, name: &str, size: Option<i64>, modified: Option<i64>) -> RepoFile {
    let id = format!("r1:/{}", name);
    let path = format!("/{}", name);

    RepoFile {
        id,
        mount_id: "m1".into(),
        remote_path: path.clone(),
        repo_id: "r1".into(),
        encrypted_path: path.clone(),
        path: RepoFilePath::Decrypted { path },
        name: RepoFileName::Decrypted { name: name.into(), name_lower: name.to_lowercase() },
        ext: None,
        content_type: None,
        typ,
        size: size.map(|size| RepoFileSize::Decrypted { size }),
        modified,
        tags: None,
        unique_name: name.into(),
        remote_hash: None,
        category: match typ {
            RepoFileType::Dir => FileCategory::Folder,
            RepoFileType::File => FileCategory::Generic,
        },
    }
}

fn example_files() -> Vec<RepoFile> {
    vec![
        create_repo_file(RepoFileType::File, "c.txt", Some(30), Some(30)),
        create_repo_file(RepoFileType::Dir, "z-dir", Some(50), Some(50)),
        create_repo_file(RepoFileType::File, "a.txt", Some(10), Some(10)),
        create_repo_file(RepoFileType::Dir, "a-dir", Some(40), Some(40)),
        create_repo_file(RepoFileType::File, "b.txt", Some(20), Some(20)),
    ]
}

fn sort_names(files: Vec<RepoFile>, sort: RepoFilesSort) -> Vec<String> {
    let file_ids: Vec<String> = files.iter().map(|f| f.id.clone()).collect();
    let mut files_map: KeyMap<String, RepoFile> = KeyMap::new();
    for f in files {
        files_map.insert(f.id.clone(), f);
    }

    select_sorted_files(&files_map, &file_ids, &sort)
        .into_iter()
        .map(|id| files_map.get(&id).unwrap().decrypted_name().unwrap().clone())
        .collect()
}

fn sort(field: RepoFilesSortField, direction: SortDirection, grouping: SortGrouping) -> RepoFilesSort {
    RepoFilesSort { field, direction, grouping }
}

#[test]
fn test_select_sorted_files_dirs_first_name() {
    let asc = sort_names(example_files(), sort(RepoFilesSortField::Name, SortDirection::Asc, SortGrouping::DirsFirst));
    let desc = sort_names(example_files(), sort(RepoFilesSortField::Name, SortDirection::Desc, SortGrouping::DirsFirst));

    assert_eq!(asc, vec!["a-dir", "z-dir", "a.txt", "b.txt", "c.txt"]);
    assert_eq!(desc, vec!["z-dir", "a-dir", "c.txt", "b.txt", "a.txt"]);
}

#[test]
fn test_select_sorted_files_dirs_first_size() {
    let asc = sort_names(example_files(), sort(RepoFilesSortField::Size, SortDirection::Asc, SortGrouping::DirsFirst));
    let desc = sort_names(example_files(), sort(RepoFilesSortField::Size, SortDirection::Desc, SortGrouping::DirsFirst));

    assert_eq!(asc, vec!["a-dir", "z-dir", "a.txt", "b.txt", "c.txt"]);
    assert_eq!(desc, vec!["a-dir", "z-dir", "c.txt", "b.txt", "a.txt"]);
}

#[test]
fn test_select_sorted_files_dirs_first_modified() {
    let asc = sort_names(example_files(), sort(RepoFilesSortField::Modified, SortDirection::Asc, SortGrouping::DirsFirst));
    let desc = sort_names(example_files(), sort(RepoFilesSortField::Modified, SortDirection::Desc, SortGrouping::DirsFirst));

    assert_eq!(asc, vec!["a-dir", "z-dir", "a.txt", "b.txt", "c.txt"]);
    assert_eq!(desc, vec!["a-dir", "z-dir", "c.txt", "b.txt", "a.txt"]);
}

#[test]
fn test_select_sorted_files_no_grouping_name() {
    let asc = sort_names(example_files(), sort(RepoFilesSortField::Name, SortDirection::Asc, SortGrouping::NoGrouping));
    let desc = sort_names(example_files(), sort(RepoFilesSortField::Name, SortDirection::Desc, SortGrouping::NoGrouping));

    assert_eq!(asc, vec!["a-dir", "a.txt", "b.txt", "c.txt", "z-dir"]);
    assert_eq!(desc, vec!["z-dir", "c.txt", "b.txt", "a.txt", "a-dir"]);
}

#[test]
fn test_select_sorted_files_no_grouping_size() {
    let asc = sort_names(example_files(), sort(RepoFilesSortField::Size, SortDirection::Asc, SortGrouping::NoGrouping));
    let desc = sort_names(example_files(), sort(RepoFilesSortField::Size, SortDirection::Desc, SortGrouping::NoGrouping));

    assert_eq!(asc, vec!["a.txt", "b.txt", "c.txt", "a-dir", "z-dir"]);
    assert_eq!(desc, vec!["z-dir", "a-dir", "c.txt", "b.txt", "a.txt"]);
}

#[test]
fn test_select_sorted_files_no_grouping_modified() {
    let asc = sort_names(example_files(), sort(RepoFilesSortField::Modified, SortDirection::Asc, SortGrouping::NoGrouping));
    let desc = sort_names(example_files(), sort(RepoFilesSortField::Modified, SortDirection::Desc, SortGrouping::NoGrouping));

    assert_eq!(asc, vec!["a.txt", "b.txt", "c.txt", "a-dir", "z-dir"]);
    assert_eq!(desc, vec!["z-dir", "a-dir", "c.txt", "b.txt", "a.txt"]);
}

#[test]
fn test_select_sorted_files_name_case_insensitive() {
    let files = vec![
        create_repo_file(RepoFileType::File, "c.txt", Some(1), Some(1)),
        create_repo_file(RepoFileType::File, "B.txt", Some(1), Some(1)),
        create_repo_file(RepoFileType::File, "a.txt", Some(1), Some(1)),
    ];

    let asc = sort_names(files, sort(RepoFilesSortField::Name, SortDirection::Asc, SortGrouping::NoGrouping));

    assert_eq!(asc, vec!["a.txt", "B.txt", "c.txt"]);
}

#[test]
fn test_select_sorted_files_name_numeric_prefix() {
    let files = vec![
        create_repo_file(RepoFileType::File, "2foo.txt", Some(1), Some(1)),
        create_repo_file(RepoFileType::File, "1foo.txt", Some(1), Some(1)),
        create_repo_file(RepoFileType::File, "19foo.txt", Some(1), Some(1)),
    ];

    let asc = sort_names(files, sort(RepoFilesSortField::Name, SortDirection::Asc, SortGrouping::NoGrouping));

    assert_eq!(asc, vec!["1foo.txt", "2foo.txt", "19foo.txt"]);
}

#[test]
fn test_select_sorted_files_name_numeric_prefix_with_space() {
    let files = vec![
        create_repo_file(RepoFileType::File, "2 foo.txt", Some(1), Some(1)),
        create_repo_file(RepoFileType::File, "1 foo.txt", Some(1), Some(1)),
        create_repo_file(RepoFileType::File, "19 foo.txt", Some(1), Some(1)),
    ];

    let asc = sort_names(files, sort(RepoFilesSortField::Name, SortDirection::Asc, SortGrouping::NoGrouping));

    assert_eq!(asc, vec!["1 foo.txt", "2 foo.txt", "19 foo.txt"]);
}

#[test]
fn test_select_sorted_files_name_numeric_suffix() {
    let files = vec![
        create_repo_file(RepoFileType::File, "foo2.txt", Some(1), Some(1)),
        create_repo_file(RepoFileType::File, "foo1.txt", Some(1), Some(1)),
        create_repo_file(RepoFileType::File, "foo19.txt", Some(1), Some(1)),
    ];

    let asc = sort_names(files, sort(RepoFilesSortField::Name, SortDirection::Asc, SortGrouping::NoGrouping));

    assert_eq!(asc, vec!["foo1.txt", "foo2.txt", "foo19.txt"]);
}

#[test]
fn test_select_sorted_files_name_numeric_suffix_with_space() {
    let files = vec![
        create_repo_file(RepoFileType::File, "foo 2.txt", Some(1), Some(1)),
        create_repo_file(RepoFileType::File, "foo 1.txt", Some(1), Some(1)),
        create_repo_file(RepoFileType::File, "foo 19.txt", Some(1), Some(1)),
    ];

    let asc = sort_names(files, sort(RepoFilesSortField::Name, SortDirection::Asc, SortGrouping::NoGrouping));

    assert_eq!(asc, vec!["foo 1.txt", "foo 2.txt", "foo 19.txt"]);
}

#[test]
fn select_sorted_files_keeps_the_order_of_ties() {
    let files = vec![
        create_repo_file(RepoFileType::File, "b.txt", Some(10), Some(10)),
        create_repo_file(RepoFileType::File, "c.txt", Some(20), Some(10)),
        create_repo_file(RepoFileType::File, "a.txt", Some(10), Some(10)),
    ];
    assert_eq!(
        sort_names(files, sort(RepoFilesSortField::Size, SortDirection::Asc, SortGrouping::NoGrouping)),
        vec!["b.txt", "a.txt", "c.txt"]
    );
    let files = vec![
        create_repo_file(RepoFileType::File, "b.txt", Some(10), Some(10)),
        create_repo_file(RepoFileType::File, "c.txt", Some(20), Some(10)),
        create_repo_file(RepoFileType::File, "a.txt", Some(10), Some(10)),
    ];
    assert_eq!(
        sort_names(files, sort(RepoFilesSortField::Modified, SortDirection::Desc, SortGrouping::DirsFirst)),
        vec!["b.txt", "c.txt", "a.txt"]
    );
}
