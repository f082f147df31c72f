use std::collections::HashMap;

use vault_core::keymap::KeyMap;
use vault_core::remote::RemoteFileTagsSetConditions;
use vault_core::remote_files_tags::set_tags::set_tags;
use vault_core::repo_files_tags::selectors::get_remote_file_tags_set_conditions;

fn tags_of(pairs: &[(&str, &[&str])]) -> KeyMap<String, Vec<String>> {
    let mut m = KeyMap::new();
    for (k, vs) in pairs {
        m.insert(k.to_string(), vs.iter().map(|v| v.to_string()).collect());
    }
    m
}

fn as_hash_map(m: &KeyMap<String, Vec<String>>) -> HashMap<String, Vec<String>> {
    let mut r = HashMap::new();
    for k in m.keys() {
        r.insert(k.clone(), m.get(&k).unwrap().clone());
    }
    r
}

fn hash_map_of(pairs: &[(&str, &[&str])]) -> HashMap<String, Vec<String>> {
    pairs
        .iter()
        .map(|(k, vs)| (k.to_string(), vs.iter().map(|v| v.to_string()).collect()))
        .collect()
}

fn example_tags() -> KeyMap<String, Vec<String>> {
    tags_of(&[("t1", &["v1", "v2"]), ("t2", &["v3"])])
}

fn example_hash_map() -> HashMap<String, Vec<String>> {
    hash_map_of(&[("t1", &["v1", "v2"]), ("t2", &["v3"])])
}

fn conditions(
    if_size: Option<i64>,
    if_modified: Option<i64>,
    if_hash: Option<&str>,
    if_old_tags: Option<KeyMap<String, Vec<String>>>,
) -> RemoteFileTagsSetConditions {
    RemoteFileTagsSetConditions {
        if_size,
        if_modified,
        if_hash: if_hash.map(|h| h.to_string()),
        if_old_tags,
    }
}

#[test]
fn test_set_tags() {
    let mut file_tags = KeyMap::new();

    set_tags(
        Some(1),
        Some(2),
        Some("h1"),
        &mut file_tags,
        example_tags(),
        &RemoteFileTagsSetConditions::none(),
    )
    .unwrap();
    assert_eq!(as_hash_map(&file_tags), example_hash_map());

    set_tags(
        Some(1),
        Some(2),
        Some("h1"),
        &mut file_tags,
        tags_of(&[("t2", &["v4"]), ("t3", &["v5"])]),
        &RemoteFileTagsSetConditions::none(),
    )
    .unwrap();
    assert_eq!(
        as_hash_map(&file_tags),
        hash_map_of(&[("t1", &["v1", "v2"]), ("t2", &["v4"]), ("t3", &["v5"])])
    );

    set_tags(
        Some(1),
        Some(2),
        Some("h1"),
        &mut file_tags,
        tags_of(&[("t1", &["v1", "v2"]), ("t3", &[])]),
        &RemoteFileTagsSetConditions::none(),
    )
    .unwrap();
    assert_eq!(
        as_hash_map(&file_tags),
        hash_map_of(&[("t1", &["v1", "v2"]), ("t2", &["v4"])])
    );

    set_tags(
        Some(1),
        Some(2),
        Some("h1"),
        &mut file_tags,
        tags_of(&[("t1", &[]), ("t2", &[]), ("t3", &[])]),
        &RemoteFileTagsSetConditions::none(),
    )
    .unwrap();
    assert_eq!(as_hash_map(&file_tags), HashMap::new());
}

#[test]
fn test_set_tags_conditions_if_size() {
    let mut file_tags = KeyMap::new();

    set_tags(
        Some(1),
        Some(2),
        Some("h1"),
        &mut file_tags,
        example_tags(),
        &conditions(Some(1), None, None, None),
    )
    .unwrap();
    assert_eq!(as_hash_map(&file_tags), example_hash_map());

    assert_eq!(
        set_tags(
            Some(1),
            Some(2),
            Some("h1"),
            &mut file_tags,
            example_tags(),
            &conditions(Some(10), None, None, None),
        )
        .unwrap_err(),
        "Set tags if size does not match".to_string()
    );

    assert_eq!(
        set_tags(
            None,
            Some(2),
            Some("h1"),
            &mut file_tags,
            example_tags(),
            &conditions(Some(10), None, None, None),
        )
        .unwrap_err(),
        "Set tags if size does not match".to_string()
    );
}

#[test]
fn test_set_tags_conditions_if_modified() {
    let mut file_tags = KeyMap::new();

    set_tags(
        Some(1),
        Some(2),
        Some("h1"),
        &mut file_tags,
        example_tags(),
        &conditions(None, Some(2), None, None),
    )
    .unwrap();
    assert_eq!(as_hash_map(&file_tags), example_hash_map());

    assert_eq!(
        set_tags(
            Some(1),
            Some(2),
            Some("h1"),
            &mut file_tags,
            example_tags(),
            &conditions(None, Some(20), None, None),
        )
        .unwrap_err(),
        "Set tags if modified does not match".to_string()
    );

    assert_eq!(
        set_tags(
            Some(1),
            None,
            Some("h1"),
            &mut file_tags,
            example_tags(),
            &conditions(None, Some(20), None, None),
        )
        .unwrap_err(),
        "Set tags if modified does not match".to_string()
    );
}

#[test]
fn test_set_tags_conditions_if_hash() {
    let mut file_tags = KeyMap::new();

    set_tags(
        Some(1),
        Some(2),
        Some("h1"),
        &mut file_tags,
        example_tags(),
        &conditions(None, None, Some("h1"), None),
    )
    .unwrap();
    assert_eq!(as_hash_map(&file_tags), example_hash_map());

    assert_eq!(
        set_tags(
            Some(1),
            Some(2),
            Some("h1"),
            &mut file_tags,
            example_tags(),
            &conditions(None, None, Some("h10"), None),
        )
        .unwrap_err(),
        "Set tags if hash does not match".to_string()
    );

    assert_eq!(
        set_tags(
            Some(1),
            Some(2),
            None,
            &mut file_tags,
            example_tags(),
            &conditions(None, None, Some("h10"), None),
        )
        .unwrap_err(),
        "Set tags if hash does not match".to_string()
    );
}

#[test]
fn test_set_tags_conditions_if_old_tags() {
    let mut file_tags = example_tags();

    set_tags(
        Some(1),
        Some(2),
        Some("h1"),
        &mut file_tags,
        tags_of(&[("t1", &["v1x", "v2x"])]),
        &conditions(None, None, None, Some(tags_of(&[("t1", &["v1", "v2"])]))),
    )
    .unwrap();
    assert_eq!(
        as_hash_map(&file_tags),
        hash_map_of(&[("t1", &["v1x", "v2x"]), ("t2", &["v3"])])
    );
}

#[test]
fn test_set_tags_conditions_if_old_tags_different_value() {
    let mut file_tags = example_tags();

    assert_eq!(
        set_tags(
            Some(1),
            Some(2),
            Some("h1"),
            &mut file_tags,
            tags_of(&[("t1", &["v1x", "v2x"])]),
            &conditions(None, None, None, Some(tags_of(&[("t1", &["v1y", "v2"])]))),
        )
        .unwrap_err(),
        "Set tags if old tags old value does not match the new value: t1".to_string()
    );
}

#[test]
fn test_set_tags_conditions_if_old_tags_more_old_tags() {
    let mut file_tags = example_tags();

    assert_eq!(
        set_tags(
            Some(1),
            Some(2),
            Some("h1"),
            &mut file_tags,
            tags_of(&[("t1", &["v1x"])]),
            &conditions(None, None, None, Some(tags_of(&[("t1", &["v1"])]))),
        )
        .unwrap_err(),
        "Set tags if old tags number of old tags does not match the expected tags: 2 != 1"
            .to_string()
    );
}

#[test]
fn test_set_tags_conditions_if_old_tags_less_old_tags() {
    let mut file_tags = example_tags();

    assert_eq!(
        set_tags(
            Some(1),
            Some(2),
            Some("h1"),
            &mut file_tags,
            tags_of(&[("t1", &["v1x"])]),
            &conditions(None, None, None, Some(tags_of(&[("t1", &["v1", "v2", "v3"])]))),
        )
        .unwrap_err(),
        "Set tags if old tags number of old tags does not match the expected tags: 2 != 3"
            .to_string()
    );
}

#[test]
fn test_set_tags_conditions_if_old_tags_zero_old_tags() {
    let mut file_tags = KeyMap::new();

    assert_eq!(
        set_tags(
            Some(1),
            Some(2),
            Some("h1"),
            &mut file_tags,
            tags_of(&[("t1", &["v1x"])]),
            &conditions(None, None, None, Some(tags_of(&[("t1", &["v1"])]))),
        )
        .unwrap_err(),
        "Set tags if old tags expected non-empty tags for key: t1".to_string()
    );
}

#[test]
fn test_set_tags_conditions_if_old_tags_expected_zero_tags() {
    let mut file_tags = example_tags();

    assert_eq!(
        set_tags(
            Some(1),
            Some(2),
            Some("h1"),
            &mut file_tags,
            tags_of(&[("t1", &["v1x"])]),
            &conditions(None, None, None, Some(tags_of(&[("t1", &[])]))),
        )
        .unwrap_err(),
        "Set tags if old tags expected empty tags for key: t1".to_string()
    );
}

#[test]
fn set_tags_failed_condition_keeps_tags() {
    let mut file_tags = example_tags();
    let r = set_tags(
        Some(1),
        None,
        None,
        &mut file_tags,
        tags_of(&[("t9", &["x"])]),
        &conditions(Some(2), None, None, None),
    );
    assert!(r.is_err());
    assert_eq!(as_hash_map(&file_tags), example_hash_map());
}

fn remote_file_with_tags(tags: KeyMap<String, Vec<String>>) -> vault_core::remote_files::state::RemoteFile {
    vault_core::remote_files::state::RemoteFile {
        id: "m1:/vault/f1".into(),
        mount_id: "m1".into(),
        path: "/Vault/F1".into(),
        name: "F1".into(),
        name_lower: "f1".into(),
        typ: vault_core::remote_files::state::RemoteFileType::File,
        size: Some(100),
        modified: Some(1),
        hash: Some("hash".into()),
        tags,
    }
}

#[test]
fn own_conditions_hold_for_a_remote_file() {
    let cases: [&[(&str, &[&str])]; 2] = [&[], &[("vault", &["a", "b"]), ("other", &["x"])]];
    for pairs in cases {
        let rf = remote_file_with_tags(tags_of(pairs));
        let conditions = get_remote_file_tags_set_conditions(&rf);
        let mut file_tags = tags_of(pairs);
        let r = set_tags(
            rf.size,
            rf.modified,
            rf.hash.as_deref(),
            &mut file_tags,
            tags_of(&[("vault", &["c"])]),
            &conditions,
        );
        assert_eq!(r, Ok(()));
        assert_eq!(file_tags.get(&"vault".to_string()), Some(&vec!["c".to_string()]));
    }
}

#[test]
fn own_conditions_fail_for_an_empty_repository_tag_list() {
    let rf = remote_file_with_tags(tags_of(&[("vault", &[])]));
    let conditions = get_remote_file_tags_set_conditions(&rf);
    let mut file_tags = tags_of(&[("vault", &[])]);
    let r = set_tags(rf.size, rf.modified, rf.hash.as_deref(), &mut file_tags, tags_of(&[]), &conditions);
    assert!(r.is_err());
}
