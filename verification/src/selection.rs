//! A set of selected item ids, as the lists of browsers and pickers keep it.
use vstd::prelude::*;

use crate::keymap::KeyMap;
use crate::remote_files::selectors::ids_contain;
use crate::remote_files::state::id_views;
use crate::strings::{copy_str, str_eq};

verus! {

/// The selected ids, and the id that was selected last (the anchor of a range).
#[derive(Debug)]
pub struct Selection {
    pub selection: KeyMap<String, ()>,
    pub last_selected: Option<String>,
}

/// How much of a list is selected.
#[derive(Clone, Copy, Debug, PartialEq, Eq, Structural)]
pub enum SelectionSummary {
    Empty,
    Partial,
    All,
}

impl Selection {
    /// Nothing selected.
    pub fn new() -> (r: Self)
        ensures
            r.selection@.dom() == Set::<Seq<char>>::empty(),
            r.last_selected is None,
    {
        let r = Selection { selection: KeyMap::new(), last_selected: None };
        assert(r.selection@.dom() =~= Set::<Seq<char>>::empty());
        r
    }

    /// The selected ids.
    pub open spec fn ids(&self) -> Set<Seq<char>> {
        self.selection@.dom()
    }
}

/// The summary of a selection of a list of `items_count` items.
pub open spec fn spec_selection_summary(selected: nat, items_count: nat) -> SelectionSummary {
    if selected == 0 {
        SelectionSummary::Empty
    } else if selected == items_count {
        SelectionSummary::All
    } else {
        SelectionSummary::Partial
    }
}

/// Nothing selected is an empty selection; every item of a non-empty list
/// selected is all of it; anything in between is a partial selection.
pub proof fn law_selection_summary(selected: nat, items_count: nat)
    ensures
        selected == 0 ==> spec_selection_summary(selected, items_count) == SelectionSummary::Empty,
        0 < selected && selected == items_count ==> spec_selection_summary(selected, items_count)
            == SelectionSummary::All,
        0 < selected && selected != items_count ==> spec_selection_summary(selected, items_count)
            == SelectionSummary::Partial,
{
}

pub fn select_selection_summary(selection: &Selection, items_count: usize) -> (r: SelectionSummary)
    ensures
        r == spec_selection_summary(selection.ids().len(), items_count as nat),
{
    let n = selection.selection.len();
    if n == 0 {
        SelectionSummary::Empty
    } else if n == items_count {
        SelectionSummary::All
    } else {
        SelectionSummary::Partial
    }
}

/// Selects nothing.
pub fn clear_selection(selection: &mut Selection)
    ensures
        final(selection).ids() == Set::<Seq<char>>::empty(),
        final(selection).last_selected is None,
{
    *selection = Selection::new();
}

/// The set of the ids of `ids`.
pub fn id_set(ids: &Vec<String>) -> (m: KeyMap<String, ()>)
    ensures
        m@.dom() == id_views(ids@).to_set(),
{
    let mut m: KeyMap<String, ()> = KeyMap::new();
    let n = ids.len();
    let mut i: usize = 0;
    while i < n
        invariant
            n == ids.len(),
            i <= n,
            forall|k: Seq<char>|
                #[trigger] m@.dom().contains(k) <==> id_views(ids@).take(i as int).contains(k),
        decreases n - i,
    {
        m.insert(copy_str(ids[i].as_str()), ());
        proof {
            let t = id_views(ids@).take(i as int);
            let t1 = id_views(ids@).take(i + 1);
            assert(t1 =~= t.push(ids@[i as int]@));
            assert forall|k: Seq<char>| #[trigger] m@.dom().contains(k) <==> t1.contains(k) by {
                if t.contains(k) {
                    let x = choose|x: int| 0 <= x < t.len() && t[x] == k;
                    assert(t1[x] == k);
                }
                if t1.contains(k) && k != ids@[i as int]@ {
                    let x = choose|x: int| 0 <= x < t1.len() && t1[x] == k;
                    assert(t[x] == k);
                }
                if k == ids@[i as int]@ {
                    assert(t1[i as int] == k);
                }
            }
        }
        i = i + 1;
    }
    proof {
        assert(id_views(ids@).take(n as int) =~= id_views(ids@));
        assert(m@.dom() =~= id_views(ids@).to_set());
    }
    m
}

/// Selects exactly the ids of `ids`.
pub fn set_selection(selection: &mut Selection, ids: Vec<String>)
    ensures
        final(selection).ids() == id_views(ids@).to_set(),
        final(selection).last_selected is None,
{
    let m = id_set(&ids);
    *selection = Selection { selection: m, last_selected: None };
}

/// Keeps only the selected ids that are among `item_ids`; says whether any left.
pub fn update_selection(selection: &mut Selection, item_ids: &Vec<String>) -> (changed: bool)
    ensures
        final(selection).ids() == old(selection).ids().intersect(id_views(item_ids@).to_set()),
        changed == (final(selection).ids() != old(selection).ids()),
        final(selection).last_selected == old(selection).last_selected,
{
    let keys = selection.selection.keys();
    let ghost start = selection.ids();
    let n = keys.len();
    let mut changed = false;
    let mut i: usize = 0;
    while i < n
        invariant
            n == keys.len(),
            i <= n,
            start == old(selection).ids(),
            forall|a: int| 0 <= a < keys.len() ==> start.contains(#[trigger] keys@[a]@),
            forall|k: Seq<char>|
                start.contains(k) ==> exists|a: int| 0 <= a < keys.len() && keys@[a]@ == k,
            forall|k: Seq<char>|
                #[trigger] selection.ids().contains(k) <==> (start.contains(k) && (id_views(
                    item_ids@,
                ).contains(k) || forall|a: int| 0 <= a < i ==> keys@[a]@ != k)),
            changed == (exists|a: int|
                0 <= a < i && !id_views(item_ids@).contains(#[trigger] keys@[a]@)),
            selection.last_selected == old(selection).last_selected,
        decreases n - i,
    {
        let ghost before = selection.ids();
        let keep = ids_contain(item_ids, &keys[i]);
        if !keep {
            selection.selection.remove(&keys[i]);
            changed = true;
        }
        proof {
            let ki = keys@[i as int]@;
            assert(start.contains(ki));
            assert forall|k: Seq<char>| #[trigger] selection.ids().contains(k) <==> (start.contains(
                k,
            ) && (id_views(item_ids@).contains(k) || forall|a: int|
                0 <= a < i + 1 ==> keys@[a]@ != k)) by {
                assert(before.contains(k) <==> (start.contains(k) && (id_views(item_ids@).contains(
                    k,
                ) || forall|a: int| 0 <= a < i ==> keys@[a]@ != k)));
                if k == ki {
                    assert(!(forall|a: int| 0 <= a < i + 1 ==> keys@[a]@ != k));
                    if keep {
                        assert(before.contains(k));
                    }
                } else {
                    if !(forall|a: int| 0 <= a < i ==> keys@[a]@ != k) {
                        let a = choose|a: int| 0 <= a < i && keys@[a]@ == k;
                        assert(!(forall|b: int| 0 <= b < i + 1 ==> keys@[b]@ != k));
                    } else {
                        assert forall|a: int| 0 <= a < i + 1 implies keys@[a]@ != k by {}
                    }
                }
            }
            if !keep {
                assert(!id_views(item_ids@).contains(keys@[i as int]@));
            }
        }
        i = i + 1;
    }
    proof {
        assert(selection.ids() =~= start.intersect(id_views(item_ids@).to_set()));
        if changed {
            let a = choose|a: int| 0 <= a < n && !id_views(item_ids@).contains(#[trigger] keys@[a]@);
            assert(!selection.ids().contains(keys@[a]@));
        } else {
            assert forall|k: Seq<char>| start.contains(k) implies selection.ids().contains(k) by {
                let a = choose|a: int| 0 <= a < keys.len() && keys@[a]@ == k;
                assert(id_views(item_ids@).contains(keys@[a]@));
            }
            assert(selection.ids() =~= start);
        }
    }
    changed
}

/// The position of `id` in `ids`, if it is there.
fn position_of(ids: &Vec<String>, id: &String) -> (r: Option<usize>)
    ensures
        match r {
            Some(i) => i < ids.len() && ids@[i as int]@ == id@,
            None => !id_views(ids@).contains(id@),
        },
{
    let n = ids.len();
    let mut i: usize = 0;
    while i < n
        invariant
            n == ids.len(),
            i <= n,
            forall|j: int| 0 <= j < i ==> ids@[j]@ != id@,
        decreases n - i,
    {
        if str_eq(ids[i].as_str(), id.as_str()) {
            return Some(i);
        }
        i = i + 1;
    }
    proof {
        if id_views(ids@).contains(id@) {
            let j = choose|j: int| 0 <= j < id_views(ids@).len() && id_views(ids@)[j] == id@;
            assert(ids@[j]@ == id@);
        }
    }
    None
}

/// The ids of `ids` from position `lo` to position `hi`, both included.
pub open spec fn ids_between(ids: Seq<Seq<char>>, lo: int, hi: int) -> Set<Seq<char>> {
    Set::new(|k: Seq<char>| exists|j: int| lo <= j <= hi && 0 <= j < ids.len() && ids[j] == k)
}

/// A click on `item_id` in a list of `item_ids`.
/// - With `range`, when the last selected id is in the list too, the ids from
///   it to `item_id` join the selection.
/// - Otherwise with `extend`, `item_id` is toggled.
/// - Otherwise `item_id` becomes the whole selection; a click on the only
///   selected item deselects it, unless `force`.
/// The clicked id becomes the last selected one.
pub fn select_item(
    selection: &mut Selection,
    item_ids: &Vec<String>,
    item_id: &String,
    extend: bool,
    range: bool,
    force: bool,
)
    ensures
        final(selection).last_selected matches Some(l) && l@ == item_id@,
        ({
            let ids = id_views(item_ids@);
            let old_ids = old(selection).ids();
            let new_ids = final(selection).ids();
            let ranged = range && (old(selection).last_selected matches Some(l) && ids.contains(
                l@,
            )) && ids.contains(item_id@);
            &&& ranged ==> exists|a: int, b: int|
                0 <= a < ids.len() && 0 <= b < ids.len() && ids[a] == old(selection).last_selected->0@ && ids[b] == item_id@ && new_ids == old_ids.union(
                    if a <= b {
                        ids_between(ids, a, b)
                    } else {
                        ids_between(ids, b, a)
                    },
                )
            &&& !ranged && extend ==> new_ids == (if old_ids.contains(item_id@) {
                old_ids.remove(item_id@)
            } else {
                old_ids.insert(item_id@)
            })
            &&& !ranged && !extend ==> new_ids == (if !force && old_ids == set![item_id@] {
                Set::<Seq<char>>::empty()
            } else {
                set![item_id@]
            })
        }),
{
    let ghost old_ids = selection.ids();
    let mut done = false;
    if range {
        let anchor = match &selection.last_selected {
            Some(l) => position_of(item_ids, l),
            None => None,
        };
        let target = position_of(item_ids, item_id);
        match (anchor, target) {
            (Some(a), Some(b)) => {
                let (lo, hi) = if a <= b {
                    (a, b)
                } else {
                    (b, a)
                };
                let ghost ids = id_views(item_ids@);
                let mut j = lo;
                while j <= hi
                    invariant
                        lo <= j <= hi + 1,
                        hi < item_ids.len(),
                        ids == id_views(item_ids@),
                        selection.ids() == old_ids.union(ids_between(ids, lo as int, j - 1)),
                    decreases hi + 1 - j,
                {
                    selection.selection.insert(copy_str(item_ids[j].as_str()), ());
                    proof {
                        assert(selection.ids() =~= old_ids.union(
                            ids_between(ids, lo as int, j as int),
                        )) by {
                            assert(ids[j as int] == item_ids@[j as int]@);
                        }
                    }
                    j = j + 1;
                }
                done = true;
                proof {
                    assert(ids[a as int] == old(selection).last_selected->0@);
                    assert(ids[b as int] == item_id@);
                    assert(ids.contains(item_id@));
                    assert(ids.contains(old(selection).last_selected->0@));
                }
            },
            _ => {
                proof {
                    if let Some(l) = old(selection).last_selected {
                        assert(!(id_views(item_ids@).contains(l@) && id_views(item_ids@).contains(
                            item_id@,
                        )));
                    }
                }
            },
        }
    }
    if !done {
        if extend {
            if selection.selection.contains_key(item_id) {
                selection.selection.remove(item_id);
                assert(selection.ids() =~= old_ids.remove(item_id@));
            } else {
                selection.selection.insert(copy_str(item_id.as_str()), ());
                assert(selection.ids() =~= old_ids.insert(item_id@));
            }
        } else {
            let only_this = selection.selection.len() == 1 && selection.selection.contains_key(
                item_id,
            );
            proof {
                if selection.ids().len() == 1 && selection.ids().contains(item_id@) {
                    vstd::set_lib::lemma_set_empty_equivalency_len(selection.ids().remove(item_id@));
                    assert(selection.ids() =~= set![item_id@]);
                }
                if old_ids == set![item_id@] {
                    assert(old_ids.len() == 1);
                }
            }
            let mut m: KeyMap<String, ()> = KeyMap::new();
            if force || !only_this {
                m.insert(copy_str(item_id.as_str()), ());
                assert(m@.dom() =~= set![item_id@]);
            }
            selection.selection = m;
        }
    }
    selection.last_selected = Some(copy_str(item_id.as_str()));
}

} // verus!
