//! Setting the tags of a file on the storage service, under conditions.
use vstd::prelude::*;
use vstd::string::*;

use crate::keymap::{entries_map, keys_distinct, lemma_entries_map_at, KeyMap};
use crate::remote::RemoteFileTagsSetConditions;
use crate::remote_files::state::id_views;
use crate::strings::{concat, concat3, copy_str, spec_nat_decimal, str_eq, usize_to_string};

verus! {

/// The tags after `patch`: a key with values gets them, a key with no values
/// is dropped, and the keys that `patch` does not name stay as they were.
pub open spec fn apply_patch(
    tags: Map<Seq<char>, Vec<String>>,
    patch: Map<Seq<char>, Vec<String>>,
) -> Map<Seq<char>, Vec<String>> {
    Map::new(
        |k: Seq<char>|
            if patch.contains_key(k) {
                patch[k]@.len() > 0
            } else {
                tags.contains_key(k)
            },
        |k: Seq<char>|
            if patch.contains_key(k) {
                patch[k]
            } else {
                tags[k]
            },
    )
}

/// A condition on a number holds when it is absent or names the number.
pub open spec fn number_ok(cond: Option<i64>, value: Option<i64>) -> bool {
    match cond {
        Some(c) => value == Some(c),
        None => true,
    }
}

/// A condition on the hash holds when it is absent or names the hash.
pub open spec fn hash_ok(cond: Option<String>, hash: Option<&str>) -> bool {
    match cond {
        Some(c) => hash matches Some(h) && h@ == c@,
        None => true,
    }
}

/// The old tags of `key` are as expected: none when no values are expected,
/// else as many values as expected, each expected value among them.
pub open spec fn old_tag_ok(
    tags: Map<Seq<char>, Vec<String>>,
    key: Seq<char>,
    expected: Seq<Seq<char>>,
) -> bool {
    if expected.len() == 0 {
        !tags.contains_key(key)
    } else {
        &&& tags.contains_key(key)
        &&& tags[key]@.len() == expected.len()
        &&& forall|i: int| 0 <= i < expected.len() ==> id_views(tags[key]@).contains(expected[i])
    }
}

/// Every key of `expected` has the expected old tags.
pub open spec fn all_old_tags_ok(
    tags: Map<Seq<char>, Vec<String>>,
    expected: Map<Seq<char>, Vec<String>>,
) -> bool {
    forall|k: Seq<char>|
        #[trigger] expected.contains_key(k) ==> old_tag_ok(tags, k, id_views(expected[k]@))
}

/// Every key named by the old-tags condition has the expected old tags.
pub open spec fn old_tags_ok(
    tags: Map<Seq<char>, Vec<String>>,
    cond: Option<KeyMap<String, Vec<String>>>,
) -> bool {
    match cond {
        Some(m) => all_old_tags_ok(tags, m@),
        None => true,
    }
}

/// All the conditions hold.
pub open spec fn conditions_ok(
    file_size: Option<i64>,
    file_modified: Option<i64>,
    file_hash: Option<&str>,
    tags: Map<Seq<char>, Vec<String>>,
    conditions: RemoteFileTagsSetConditions,
) -> bool {
    &&& number_ok(conditions.if_size, file_size)
    &&& number_ok(conditions.if_modified, file_modified)
    &&& hash_ok(conditions.if_hash, file_hash)
    &&& old_tags_ok(tags, conditions.if_old_tags)
}

/// The message of a failed old-tags condition on `key`.
pub open spec fn old_tag_error(
    tags: Map<Seq<char>, Vec<String>>,
    key: Seq<char>,
    expected: Seq<Seq<char>>,
) -> Seq<char> {
    if expected.len() == 0 {
        "Set tags if old tags expected empty tags for key: "@ + key
    } else if !tags.contains_key(key) {
        "Set tags if old tags expected non-empty tags for key: "@ + key
    } else if tags[key]@.len() != expected.len() {
        "Set tags if old tags number of old tags does not match the expected tags: "@
            + spec_nat_decimal(tags[key]@.len()) + " != "@ + spec_nat_decimal(expected.len())
    } else {
        "Set tags if old tags old value does not match the new value: "@ + key
    }
}

/// Whether `values` holds `v`.
fn values_contain(values: &Vec<String>, v: &String) -> (r: bool)
    ensures
        r == id_views(values@).contains(v@),
{
    crate::remote_files::selectors::ids_contain(values, v)
}

/// Checks the old tags of one key.
fn check_old_tag(tags: &KeyMap<String, Vec<String>>, key: &String, expected: &Vec<String>) -> (r:
    Result<(), String>)
    ensures
        r is Ok <==> old_tag_ok(tags@, key@, id_views(expected@)),
        r matches Err(m) ==> m@ == old_tag_error(tags@, key@, id_views(expected@)),
{
    let old_values = tags.get(key);
    if expected.len() == 0 {
        if old_values.is_some() {
            let m = concat("Set tags if old tags expected empty tags for key: ", key.as_str());
            return Err(m);
        }
        Ok(())
    } else {
        match old_values {
            Some(old_values) => {
                if old_values.len() != expected.len() {
                    let a = usize_to_string(old_values.len());
                    let b = usize_to_string(expected.len());
                    let m1 = concat3(
                        "Set tags if old tags number of old tags does not match the expected tags: ",
                        a.as_str(),
                        " != ",
                    );
                    let m = concat(m1.as_str(), b.as_str());
                    proof {
                        assert(m@ =~= old_tag_error(tags@, key@, id_views(expected@)));
                    }
                    return Err(m);
                }
                let n = expected.len();
                let mut i: usize = 0;
                while i < n
                    invariant
                        n == expected@.len(),
                        n > 0,
                        tags@.contains_key(key@),
                        tags@[key@] == *old_values,
                        old_values@.len() == n,
                        i <= n,
                        forall|j: int|
                            0 <= j < i ==> id_views(old_values@).contains(id_views(expected@)[j]),
                    decreases n - i,
                {
                    if !values_contain(old_values, &expected[i]) {
                        assert(id_views(expected@)[i as int] == expected@[i as int]@);
                        let m = concat(
                            "Set tags if old tags old value does not match the new value: ",
                            key.as_str(),
                        );
                        return Err(m);
                    }
                    i = i + 1;
                }
                Ok(())
            },
            None => {
                let m = concat(
                    "Set tags if old tags expected non-empty tags for key: ",
                    key.as_str(),
                );
                Err(m)
            },
        }
    }
}

/// Checks the old tags of every key of the condition; the error is that of
/// a key whose check fails.
fn check_old_tags(tags: &KeyMap<String, Vec<String>>, cond: &KeyMap<String, Vec<String>>) -> (r:
    Result<(), String>)
    ensures
        r is Ok <==> all_old_tags_ok(tags@, cond@),
        r matches Err(m) ==> exists|k: Seq<char>|
            #[trigger] cond@.contains_key(k) && !old_tag_ok(tags@, k, id_views(cond@[k]@)) && m@
                == old_tag_error(tags@, k, id_views(cond@[k]@)),
{
    let keys = cond.keys();
    let n = keys.len();
    let mut i: usize = 0;
    while i < n
        invariant
            n == keys@.len(),
            i <= n,
            forall|a: int| 0 <= a < keys@.len() ==> cond@.contains_key(#[trigger] keys@[a]@),
            forall|k: Seq<char>|
                cond@.contains_key(k) ==> exists|a: int| 0 <= a < keys@.len() && keys@[a]@ == k,
            forall|a: int|
                0 <= a < i ==> old_tag_ok(tags@, #[trigger] keys@[a]@, id_views(cond@[keys@[a]@]@)),
        decreases n - i,
    {
        let expected = cond.get(&keys[i]).unwrap();
        match check_old_tag(tags, &keys[i], expected) {
            Ok(()) => {},
            Err(m) => {
                assert(cond@.contains_key(keys@[i as int]@));
                assert(!old_tag_ok(tags@, keys@[i as int]@, id_views(cond@[keys@[i as int]@]@)));
                return Err(m);
            },
        }
        i = i + 1;
    }
    proof {
        assert forall|k: Seq<char>| #[trigger] cond@.contains_key(k) implies old_tag_ok(
            tags@,
            k,
            id_views(cond@[k]@),
        ) by {
            let a = choose|a: int| 0 <= a < keys@.len() && keys@[a]@ == k;
            assert(old_tag_ok(tags@, keys@[a]@, id_views(cond@[keys@[a]@]@)));
        }
    }
    Ok(())
}

/// Sets the tags of a file under conditions: the file's size, modification
/// time and hash must be those that the conditions name, and the old tags of
/// each key that they name must be as expected. Then each key of `patch_tags`
/// gets its values, or is dropped when they are empty. When a condition
/// fails, the tags stay as they were and the error says which.
pub fn set_tags(
    file_size: Option<i64>,
    file_modified: Option<i64>,
    file_hash: Option<&str>,
    file_tags: &mut KeyMap<String, Vec<String>>,
    patch_tags: KeyMap<String, Vec<String>>,
    conditions: &RemoteFileTagsSetConditions,
) -> (r: Result<(), String>)
    ensures
        r is Ok <==> conditions_ok(file_size, file_modified, file_hash, old(file_tags)@, *conditions),
        r is Ok ==> final(file_tags)@ == apply_patch(old(file_tags)@, patch_tags@),
        r is Err ==> final(file_tags)@ == old(file_tags)@,
        !number_ok(conditions.if_size, file_size) ==> (r matches Err(m) && m@
            == "Set tags if size does not match"@),
        number_ok(conditions.if_size, file_size) && !number_ok(conditions.if_modified, file_modified)
            ==> (r matches Err(m) && m@ == "Set tags if modified does not match"@),
        number_ok(conditions.if_size, file_size) && number_ok(conditions.if_modified, file_modified)
            && !hash_ok(conditions.if_hash, file_hash) ==> (r matches Err(m) && m@
            == "Set tags if hash does not match"@),
        number_ok(conditions.if_size, file_size) && number_ok(conditions.if_modified, file_modified)
            && hash_ok(conditions.if_hash, file_hash) && !old_tags_ok(old(file_tags)@, conditions.if_old_tags)
            ==> (r matches Err(m) && exists|k: Seq<char>|
            #[trigger] conditions.if_old_tags->0@.contains_key(k) && !old_tag_ok(
                old(file_tags)@,
                k,
                id_views(conditions.if_old_tags->0@[k]@),
            ) && m@ == old_tag_error(old(file_tags)@, k, id_views(conditions.if_old_tags->0@[k]@))),
{
    match conditions.if_size {
        Some(if_size) => {
            if file_size != Some(if_size) {
                return Err(copy_str("Set tags if size does not match"));
            }
        },
        None => {},
    }
    match conditions.if_modified {
        Some(if_modified) => {
            if file_modified != Some(if_modified) {
                return Err(copy_str("Set tags if modified does not match"));
            }
        },
        None => {},
    }
    match &conditions.if_hash {
        Some(if_hash) => {
            let same = match file_hash {
                Some(h) => str_eq(h, if_hash.as_str()),
                None => false,
            };
            if !same {
                return Err(copy_str("Set tags if hash does not match"));
            }
        },
        None => {},
    }
    match &conditions.if_old_tags {
        Some(if_old_tags) => {
            check_old_tags(file_tags, if_old_tags)?;
        },
        None => {},
    }
    let ghost old_tags = file_tags@;
    let ghost patch = patch_tags@;
    let mut rest = patch_tags.into_pairs();
    let ghost pairs = rest@;
    let n = rest.len();
    let ghost mut done: Set<Seq<char>> = Set::empty();
    proof {
        assert(file_tags@ =~= apply_patch(old_tags, patch.restrict(done)));
    }
    while rest.len() > 0
        invariant
            keys_distinct(pairs),
            entries_map(pairs) == patch,
            n == pairs.len(),
            rest.len() <= n,
            rest@ == pairs.subrange(0, rest.len() as int),
            forall|k: Seq<char>|
                #[trigger] done.contains(k) <==> exists|j: int|
                    rest.len() <= j < n && pairs[j].0@ == k,
            file_tags@ == apply_patch(old_tags, patch.restrict(done)),
        decreases rest.len(),
    {
        let ghost before = file_tags@;
        let (key, values) = rest.pop().unwrap();
        let ghost j = rest.len() as int;
        proof {
            assert(pairs[j] == (key, values));
            lemma_entries_map_at(pairs, j);
            assert(!done.contains(key@)) by {
                if done.contains(key@) {
                    let j2 = choose|j2: int| rest.len() + 1 <= j2 < n && pairs[j2].0@ == key@;
                    assert(pairs[j2].0@ == pairs[j].0@);
                }
            }
        }
        if values.len() == 0 {
            file_tags.remove(&key);
        } else {
            file_tags.insert(key, values);
        }
        proof {
            let done2 = done.insert(pairs[j].0@);
            assert(file_tags@ =~= apply_patch(old_tags, patch.restrict(done2)));
            assert forall|k: Seq<char>| #[trigger] done2.contains(k) <==> exists|j3: int|
                rest.len() <= j3 < n && pairs[j3].0@ == k by {
                if done2.contains(k) && k != pairs[j].0@ {
                    let j3 = choose|j3: int| rest.len() + 1 <= j3 < n && pairs[j3].0@ == k;
                }
                if exists|j3: int| rest.len() <= j3 < n && pairs[j3].0@ == k {
                    let j3 = choose|j3: int| rest.len() <= j3 < n && pairs[j3].0@ == k;
                    if j3 != j {
                        assert(done.contains(k));
                    }
                }
            }
            done = done2;
        }
    }
    proof {
        assert(done =~= patch.dom()) by {
            assert forall|k: Seq<char>| done.contains(k) <==> patch.contains_key(k) by {
                if done.contains(k) {
                    let j3 = choose|j3: int| 0 <= j3 < n && pairs[j3].0@ == k;
                    lemma_entries_map_at(pairs, j3);
                }
                if patch.contains_key(k) {
                    let j3 = choose|j3: int| crate::keymap::has_key_at(pairs, j3, k);
                }
            }
        }
        assert(patch.restrict(done) =~= patch);
    }
    Ok(())
}

/// Setting the same tags twice leaves them as setting them once does.
pub proof fn law_patch_idempotent(
    tags: Map<Seq<char>, Vec<String>>,
    patch: Map<Seq<char>, Vec<String>>,
)
    ensures
        apply_patch(apply_patch(tags, patch), patch) == apply_patch(tags, patch),
{
    assert(apply_patch(apply_patch(tags, patch), patch) =~= apply_patch(tags, patch));
}

/// Setting no tags leaves the tags as they were.
pub proof fn law_empty_patch_keeps_tags(tags: Map<Seq<char>, Vec<String>>)
    ensures
        apply_patch(tags, Map::empty()) == tags,
{
    assert(apply_patch(tags, Map::empty()) =~= tags);
}

/// After setting tags, every key of the patch holds the patch's values when
/// they are not empty, and no values when they are.
pub proof fn law_patch_sets_named_keys(
    tags: Map<Seq<char>, Vec<String>>,
    patch: Map<Seq<char>, Vec<String>>,
    k: Seq<char>,
)
    requires
        patch.contains_key(k),
    ensures
        patch[k]@.len() > 0 ==> apply_patch(tags, patch).contains_key(k) && apply_patch(
            tags,
            patch,
        )[k] == patch[k],
        patch[k]@.len() == 0 ==> !apply_patch(tags, patch).contains_key(k),
{
}

} // verus!
