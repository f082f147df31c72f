//! Changing the browsers: opening, loading, listing, selecting and sorting.
use vstd::prelude::*;

use crate::common::{announced_only, Event, Notify, SortDirection, Status};
use crate::remote::RemoteError;
use crate::remote_files::state::{id_views, RemoteFilesSort, RemoteFilesSortField, RemoteFilesState};
use crate::selection;
use crate::store::State;
use crate::strings::{copy_str, lowercase, str_eq, to_lowercase};

use super::selectors::{
    bookmarks_items_ok, files_items_ok, home_items_ok, select_bookmarks_items, select_files_items,
    select_home_items, select_is_root_loaded, select_shared_items, shared_items_ok, sort_items,
    sort_items_ok, spec_location_loaded,
};
use super::state::{
    location_eq, same_location, RemoteFilesBrowser, RemoteFilesBrowserItem,
    RemoteFilesBrowserItemId, RemoteFilesBrowserLocation, RemoteFilesBrowserOptions,
};

verus! {

/// The items that a browser at `location` lists, sorted by `sort`.
pub open spec fn spec_location_items(
    rf: RemoteFilesState,
    only_hosted_devices: bool,
    sort: RemoteFilesSort,
    location: Option<RemoteFilesBrowserLocation>,
    r: Seq<RemoteFilesBrowserItem>,
) -> bool {
    match location {
        None => r.len() == 0,
        Some(RemoteFilesBrowserLocation::Home) => home_items_ok(rf, only_hosted_devices, r),
        Some(RemoteFilesBrowserLocation::Bookmarks) => exists|src: Seq<RemoteFilesBrowserItem>|
            bookmarks_items_ok(rf, src) && #[trigger] sort_items_ok(src, sort, r),
        Some(RemoteFilesBrowserLocation::Files(l)) => exists|src: Seq<RemoteFilesBrowserItem>|
            files_items_ok(rf, l, src) && #[trigger] sort_items_ok(src, sort, r),
        Some(RemoteFilesBrowserLocation::Shared) => exists|src: Seq<RemoteFilesBrowserItem>|
            shared_items_ok(rf, src) && #[trigger] sort_items_ok(src, sort, r),
    }
}

/// The status of a browser that was just opened at `location`.
pub open spec fn spec_initial_status(
    state: State,
    location: Result<RemoteFilesBrowserLocation, RemoteError>,
    s: Status<RemoteError>,
) -> bool {
    match location {
        Ok(l) => s == Status::<RemoteError>::Loading { loaded: spec_location_loaded(state, l) },
        Err(e) => s matches Status::Error { error, loaded } && error == e && !loaded,
    }
}

fn get_initial_status(state: &State, location: &Result<RemoteFilesBrowserLocation, RemoteError>) -> (r:
    Status<RemoteError>)
    ensures
        spec_initial_status(*state, *location, r),
{
    match location {
        Ok(l) => Status::Loading { loaded: select_is_root_loaded(state, l) },
        Err(e) => Status::Error { error: e.clone(), loaded: false },
    }
}

/// The items that a browser lists now.
fn location_items(state: &State, browser: &RemoteFilesBrowser) -> (r: Vec<RemoteFilesBrowserItem>)
    ensures
        spec_location_items(
            state.remote_files,
            browser.options.only_hosted_devices,
            browser.sort,
            browser.location,
            r@,
        ),
{
    match &browser.location {
        None => Vec::new(),
        Some(RemoteFilesBrowserLocation::Home) => select_home_items(state, &browser.options),
        Some(RemoteFilesBrowserLocation::Bookmarks) => {
            let src = select_bookmarks_items(state);
            let ghost sv = src@;
            let r = sort_items(src, &browser.sort);
            assert(bookmarks_items_ok(state.remote_files, sv) && sort_items_ok(sv, browser.sort, r@));
            r
        },
        Some(RemoteFilesBrowserLocation::Files(l)) => {
            let src = select_files_items(state, l);
            let ghost sv = src@;
            let r = sort_items(src, &browser.sort);
            assert(files_items_ok(state.remote_files, *l, sv) && sort_items_ok(sv, browser.sort, r@));
            r
        },
        Some(RemoteFilesBrowserLocation::Shared) => {
            let src = select_shared_items(state);
            let ghost sv = src@;
            let r = sort_items(src, &browser.sort);
            assert(shared_items_ok(state.remote_files, sv) && sort_items_ok(sv, browser.sort, r@));
            r
        },
    }
}

/// The two items show the same thing.
pub open spec fn item_same(a: RemoteFilesBrowserItem, b: RemoteFilesBrowserItem) -> bool {
    &&& a.id@ == b.id@
    &&& a.name@ == b.name@
    &&& a.name_lower@ == b.name_lower@
    &&& a.size == b.size
    &&& a.modified == b.modified
}

fn items_same(a: &Vec<RemoteFilesBrowserItem>, b: &Vec<RemoteFilesBrowserItem>) -> (r: bool)
    ensures
        r == (a@.len() == b@.len() && forall|i: int|
            0 <= i < a@.len() ==> item_same(#[trigger] a@[i], b@[i])),
{
    if a.len() != b.len() {
        return false;
    }
    let n = a.len();
    let mut i: usize = 0;
    while i < n
        invariant
            n == a@.len(),
            n == b@.len(),
            i <= n,
            forall|j: int| 0 <= j < i ==> item_same(#[trigger] a@[j], b@[j]),
        decreases n - i,
    {
        let x = &a[i];
        let y = &b[i];
        if !(str_eq(x.id.as_str(), y.id.as_str()) && str_eq(x.name.as_str(), y.name.as_str())
            && str_eq(x.name_lower.as_str(), y.name_lower.as_str()) && x.size == y.size
            && x.modified == y.modified) {
            assert(!item_same(a@[i as int], b@[i as int]));
            return false;
        }
        i = i + 1;
    }
    true
}

/// The position of the first item whose lower-cased name is `lower`, or -1.
pub open spec fn first_name_match(s: Seq<RemoteFilesBrowserItem>, lower: Seq<char>) -> int
    decreases s.len(),
{
    if s.len() == 0 {
        -1
    } else {
        let p = first_name_match(s.drop_last(), lower);
        if p >= 0 {
            p
        } else if s.last().name_lower@ == lower {
            s.len() - 1
        } else {
            -1
        }
    }
}

proof fn lemma_first_name_match(s: Seq<RemoteFilesBrowserItem>, lower: Seq<char>, k: int)
    requires
        0 <= k <= s.len(),
        first_name_match(s.take(k), lower) >= 0,
    ensures
        first_name_match(s, lower) == first_name_match(s.take(k), lower),
    decreases s.len() - k,
{
    if k < s.len() {
        assert(s.take(k + 1).drop_last() =~= s.take(k));
        lemma_first_name_match(s, lower, k + 1);
    } else {
        assert(s.take(k) =~= s);
    }
}

proof fn lemma_first_name_match_range(s: Seq<RemoteFilesBrowserItem>, lower: Seq<char>)
    ensures
        -1 <= first_name_match(s, lower) < s.len(),
        first_name_match(s, lower) >= 0 ==> s[first_name_match(s, lower)].name_lower@ == lower,
        first_name_match(s, lower) == -1 ==> forall|i: int|
            0 <= i < s.len() ==> (#[trigger] s[i]).name_lower@ != lower,
    decreases s.len(),
{
    if s.len() > 0 {
        lemma_first_name_match_range(s.drop_last(), lower);
        if first_name_match(s, lower) == -1 {
            assert forall|i: int| 0 <= i < s.len() implies (#[trigger] s[i]).name_lower@
                != lower by {
                if i < s.len() - 1 {
                    assert(s[i] == s.drop_last()[i]);
                }
            }
        }
    }
}

/// The ids of some items.
pub open spec fn item_ids(items: Seq<RemoteFilesBrowserItem>) -> Seq<Seq<char>> {
    items.map_values(|it: RemoteFilesBrowserItem| it.id@)
}

fn copy_item_ids(items: &Vec<RemoteFilesBrowserItem>) -> (r: Vec<String>)
    ensures
        id_views(r@) == item_ids(items@),
{
    let mut r: Vec<String> = Vec::new();
    let n = items.len();
    let mut i: usize = 0;
    while i < n
        invariant
            n == items@.len(),
            i <= n,
            id_views(r@) == item_ids(items@.take(i as int)),
        decreases n - i,
    {
        let ghost before = r@;
        r.push(copy_str(items[i].id.as_str()));
        proof {
            assert(id_views(r@) =~= id_views(before).push(items@[i as int].id@));
            assert(item_ids(items@.take(i + 1)) =~= item_ids(items@.take(i as int)).push(
                items@[i as int].id@,
            ));
        }
        i = i + 1;
    }
    proof {
        assert(items@.take(n as int) =~= items@);
    }
    r
}

/// The browser after its items were brought up to date: it lists what its
/// location holds now; the name it waits for is selected once listed (and
/// forgotten once listed or once loading ended); otherwise the selection
/// keeps only listed ids.
pub open spec fn spec_updated(rf: RemoteFilesState, old_b: RemoteFilesBrowser, new_b: RemoteFilesBrowser) -> bool {
    let items = new_b.items@;
    let found = match old_b.options.select_name {
        Some(name) => first_name_match(items, lowercase(name@)) >= 0,
        None => false,
    };
    &&& spec_location_items(
        rf,
        old_b.options.only_hosted_devices,
        old_b.sort,
        old_b.location,
        items,
    )
    &&& new_b.location == old_b.location
    &&& new_b.sort == old_b.sort
    &&& new_b.status == old_b.status
    &&& new_b.options.only_hosted_devices == old_b.options.only_hosted_devices
    &&& match old_b.options.select_name {
        Some(name) => if found || old_b.status is Loaded {
            new_b.options.select_name is None
        } else {
            new_b.options.select_name == old_b.options.select_name
        },
        None => new_b.options.select_name is None,
    }
    &&& found ==> new_b.selection.ids() == set![
        items[first_name_match(items, lowercase(old_b.options.select_name->0@))].id@,
    ]
    &&& !found ==> new_b.selection.ids() == old_b.selection.ids().intersect(
        item_ids(items).to_set(),
    )
}

/// Brings the items of a browser up to date with what its location holds.
pub fn update_items(state: &mut State, notify: &mut Notify, browser_id: u32)
    ensures
        final(state).remote_files == old(state).remote_files,
        final(state).remote_files_browsers.next_id == old(state).remote_files_browsers.next_id,
        final(state).remote_files_browsers.browsers@.dom() == old(state).remote_files_browsers.browsers@.dom(),
        forall|id: u32|
            id != browser_id && #[trigger] old(state).remote_files_browsers.browsers@.contains_key(
                id,
            ) ==> final(state).remote_files_browsers.browsers@[id] == old(state).remote_files_browsers.browsers@[id],
        old(state).remote_files_browsers.browsers@.contains_key(browser_id) ==> spec_updated(
            final(state).remote_files,
            old(state).remote_files_browsers.browsers@[browser_id],
            final(state).remote_files_browsers.browsers@[browser_id],
        ),
        !old(state).remote_files_browsers.browsers@.contains_key(browser_id) ==> final(notify).events@ == old(notify).events@,
        announced_only(old(notify).events@, final(notify).events@, Event::RemoteFilesBrowsers),
{
    let items = match state.remote_files_browsers.browsers.get(&browser_id) {
        Some(browser) => location_items(state, browser),
        None => {
            return;
        },
    };
    let ids = copy_item_ids(&items);
    let mut browser = state.remote_files_browsers.browsers.remove(&browser_id).unwrap();
    let ghost old_b = browser;
    let ghost ev0 = notify.events@;
    if !items_same(&browser.items, &items) {
        notify.notify(Event::RemoteFilesBrowsers);
    }
    browser.items = items;
    let ghost its = browser.items@;
    let select_id: Option<String> = match &browser.options.select_name {
        Some(name) => {
            let lower = to_lowercase(name.as_str());
            let n = browser.items.len();
            let mut found: Option<usize> = None;
            let mut i: usize = 0;
            proof {
                assert(its.take(n as int) =~= its);
            }
            while i < n
                invariant_except_break
                    found is None,
                invariant
                    n == browser.items@.len(),
                    its == browser.items@,
                    its.take(n as int) == its,
                    i <= n,
                    found is None ==> first_name_match(its.take(i as int), lower@) == -1,
                ensures
                    match found {
                        Some(j) => j == first_name_match(its, lower@),
                        None => first_name_match(its, lower@) == -1,
                    },
                decreases n - i,
            {
                proof {
                    assert(its.take(i + 1).drop_last() =~= its.take(i as int));
                }
                if str_eq(browser.items[i].name_lower.as_str(), lower.as_str()) {
                    found = Some(i);
                    proof {
                        lemma_first_name_match(its, lower@, i + 1);
                    }
                    break;
                }
                i = i + 1;
            }
            proof {
                assert(its.take(n as int) =~= its);
                lemma_first_name_match_range(its, lower@);
            }
            match found {
                Some(j) => Some(copy_str(browser.items[j].id.as_str())),
                None => None,
            }
        },
        None => None,
    };
    let clear_name = match &browser.options.select_name {
        Some(_) => select_id.is_some() || browser.status.is_loaded(),
        None => false,
    };
    if clear_name {
        browser.options.select_name = None;
    }
    let ghost sel0 = browser.selection.ids();
    if selection::update_selection(&mut browser.selection, &ids) {
        notify.notify(Event::RemoteFilesBrowsers);
    }
    proof {
        assert(id_views(ids@).to_set() == item_ids(its).to_set());
    }
    match select_id {
        Some(item_id) => {
            notify.notify(Event::RemoteFilesBrowsers);
            selection::select_item(&mut browser.selection, &ids, &item_id, false, false, true);
        },
        None => {},
    }
    state.remote_files_browsers.browsers.insert(browser_id, browser);
    proof {
        assert(state.remote_files_browsers.browsers@.dom() =~= old(state).remote_files_browsers.browsers@.dom());
        assert(notify.events@.subrange(0, ev0.len() as int) =~= ev0);
    }
}

/// Opens a browser at `location` (or in error, when the location could not
/// be resolved), lists what is known there and returns the browser's id.
pub fn create(
    state: &mut State,
    notify: &mut Notify,
    options: RemoteFilesBrowserOptions,
    location: Result<RemoteFilesBrowserLocation, RemoteError>,
) -> (browser_id: u32)
    requires
        old(state).remote_files_browsers.next_id.value < u32::MAX,
    ensures
        browser_id == old(state).remote_files_browsers.next_id.value,
        final(state).remote_files_browsers.next_id.value == browser_id + 1,
        final(state).remote_files_browsers.browsers@.dom() == old(state).remote_files_browsers.browsers@.dom().insert(browser_id),
        ({
            let b = final(state).remote_files_browsers.browsers@[browser_id];
            &&& b.location == match location {
                Ok(l) => Some(l),
                Err(_) => None::<RemoteFilesBrowserLocation>,
            }
            &&& spec_initial_status(*old(state), location, b.status)
            &&& b.sort == RemoteFilesSort {
                field: RemoteFilesSortField::Name,
                direction: SortDirection::Asc,
            }
            &&& b.options.only_hosted_devices == options.only_hosted_devices
            &&& spec_location_items(
            final(state).remote_files,
                options.only_hosted_devices,
                b.sort,
                b.location,
                b.items@,
            )
        }),
        forall|id: u32|
            id != browser_id && #[trigger] old(state).remote_files_browsers.browsers@.contains_key(
                id,
            ) ==> final(state).remote_files_browsers.browsers@[id] == old(state).remote_files_browsers.browsers@[id],
        final(state).remote_files == old(state).remote_files,
        final(notify).events@.len() > old(notify).events@.len(),
        announced_only(old(notify).events@, final(notify).events@, Event::RemoteFilesBrowsers),
{
    notify.notify(Event::RemoteFilesBrowsers);
    let browser_id = state.remote_files_browsers.next_id.next();
    let status = get_initial_status(state, &location);
    let loc = match location {
        Ok(l) => Some(l),
        Err(_) => None,
    };
    let browser = RemoteFilesBrowser {
        options,
        location: loc,
        status,
        items: Vec::new(),
        selection: selection::Selection::new(),
        sort: RemoteFilesSort::default_sort(),
    };
    state.remote_files_browsers.browsers.insert(browser_id, browser);
    let ghost ev1 = notify.events@;
    let ghost mid = state.remote_files_browsers.browsers@;
    update_items(state, notify, browser_id);
    proof {
        assert forall|id: u32|
            id != browser_id && #[trigger] old(state).remote_files_browsers.browsers@.contains_key(id)
                implies state.remote_files_browsers.browsers@[id] == old(state).remote_files_browsers.browsers@[id] by {
            assert(mid.contains_key(id));
        }
        assert(notify.events@.subrange(0, ev1.len() as int) == ev1);
        assert(ev1.subrange(0, old(notify).events@.len() as int) == old(notify).events@);
        assert(notify.events@.subrange(0, old(notify).events@.len() as int) =~= old(notify).events@);
    }
    browser_id
}

/// Closes a browser.
pub fn destroy(state: &mut State, notify: &mut Notify, browser_id: u32)
    ensures
        final(state).remote_files_browsers.browsers@ == old(state).remote_files_browsers.browsers@.remove(browser_id),
        final(state).remote_files_browsers.next_id == old(state).remote_files_browsers.next_id,
        final(state).remote_files == old(state).remote_files,
        final(notify).events@ == old(notify).events@.push(Event::RemoteFilesBrowsers),
{
    notify.notify(Event::RemoteFilesBrowsers);
    state.remote_files_browsers.browsers.remove(&browser_id);
}

/// The status after a load of `location` ended with `res`.
pub open spec fn spec_loaded_status(
    old_status: Status<RemoteError>,
    res: Result<(), RemoteError>,
    s: Status<RemoteError>,
) -> bool {
    match res {
        Ok(()) => s is Loaded,
        Err(e) => s matches Status::Error { error, loaded } && error == e && loaded
            == old_status.spec_loaded(),
    }
}

/// Records the end of a load of `location`: the status follows the outcome
/// when the browser is still there, then the items are brought up to date.
pub fn loaded(
    state: &mut State,
    notify: &mut Notify,
    browser_id: u32,
    location: &RemoteFilesBrowserLocation,
    res: Result<(), RemoteError>,
)
    ensures
        !old(state).remote_files_browsers.browsers@.contains_key(browser_id) ==> *final(state)
            == *old(state) && final(notify).events@ == old(notify).events@,
        old(state).remote_files_browsers.browsers@.contains_key(browser_id) ==> {
            let ob = old(state).remote_files_browsers.browsers@[browser_id];
            let nb = final(state).remote_files_browsers.browsers@[browser_id];
            &&& final(state).remote_files_browsers.browsers@.contains_key(browser_id)
            &&& nb.location == ob.location
            &&& (ob.location matches Some(l) && same_location(l, *location)) ==> spec_loaded_status(
                ob.status,
                res,
                nb.status,
            )
            &&& !(ob.location matches Some(l) && same_location(l, *location)) ==> nb.status
                == ob.status
            &&& spec_location_items(
            final(state).remote_files,
                ob.options.only_hosted_devices,
                ob.sort,
                ob.location,
                nb.items@,
            )
        },
        final(state).remote_files == old(state).remote_files,
        announced_only(old(notify).events@, final(notify).events@, Event::RemoteFilesBrowsers),
{
    if !state.remote_files_browsers.browsers.contains_key(&browser_id) {
        return;
    }
    let mut browser = state.remote_files_browsers.browsers.remove(&browser_id).unwrap();
    notify.notify(Event::RemoteFilesBrowsers);
    let same = match &browser.location {
        Some(l) => location_eq(l, location),
        None => false,
    };
    if same {
        match res {
            Ok(()) => {
                browser.status = Status::Loaded;
            },
            Err(err) => {
                let was_loaded = browser.status.loaded();
                browser.status = Status::Error { error: err, loaded: was_loaded };
            },
        }
    }
    state.remote_files_browsers.browsers.insert(browser_id, browser);
    let ghost ev1 = notify.events@;
    update_items(state, notify, browser_id);
    proof {
        assert(notify.events@.subrange(0, old(notify).events@.len() as int) =~= old(notify).events@) by {
            assert(notify.events@.subrange(0, ev1.len() as int) == ev1);
        }
    }
}

/// A click on an item of a browser (see `selection::select_item`).
pub fn select_item(
    state: &mut State,
    notify: &mut Notify,
    browser_id: u32,
    item_id: &String,
    extend: bool,
    range: bool,
    force: bool,
)
    ensures
        !old(state).remote_files_browsers.browsers@.contains_key(browser_id) ==> *final(state)
            == *old(state) && final(notify).events@ == old(notify).events@,
        old(state).remote_files_browsers.browsers@.contains_key(browser_id) ==> {
            let ob = old(state).remote_files_browsers.browsers@[browser_id];
            let nb = final(state).remote_files_browsers.browsers@[browser_id];
            &&& final(state).remote_files_browsers.browsers@.contains_key(browser_id)
            &&& nb.items == ob.items
            &&& nb.location == ob.location
            &&& nb.sort == ob.sort
            &&& nb.selection.last_selected matches Some(l) && l@ == item_id@
            &&& (!range && !extend) ==> nb.selection.ids() == (if !force && ob.selection.ids()
                == set![item_id@] {
                Set::<Seq<char>>::empty()
            } else {
                set![item_id@]
            })
            &&& (!range && extend) ==> nb.selection.ids() == (if ob.selection.ids().contains(
                item_id@,
            ) {
                ob.selection.ids().remove(item_id@)
            } else {
                ob.selection.ids().insert(item_id@)
            })
            &&& final(notify).events@ == old(notify).events@.push(Event::RemoteFilesBrowsers)
        },
        final(state).remote_files == old(state).remote_files,
{
    if !state.remote_files_browsers.browsers.contains_key(&browser_id) {
        return;
    }
    let mut browser = state.remote_files_browsers.browsers.remove(&browser_id).unwrap();
    let ids = copy_item_ids(&browser.items);
    notify.notify(Event::RemoteFilesBrowsers);
    selection::select_item(&mut browser.selection, &ids, item_id, extend, range, force);
    state.remote_files_browsers.browsers.insert(browser_id, browser);
}

/// Selects every item of a browser.
pub fn select_all(state: &mut State, notify: &mut Notify, browser_id: u32)
    ensures
        !old(state).remote_files_browsers.browsers@.contains_key(browser_id) ==> *final(state)
            == *old(state) && final(notify).events@ == old(notify).events@,
        old(state).remote_files_browsers.browsers@.contains_key(browser_id) ==> {
            let ob = old(state).remote_files_browsers.browsers@[browser_id];
            let nb = final(state).remote_files_browsers.browsers@[browser_id];
            &&& final(state).remote_files_browsers.browsers@.contains_key(browser_id)
            &&& nb.items == ob.items
            &&& nb.selection.ids() == item_ids(ob.items@).to_set()
            &&& final(notify).events@ == old(notify).events@.push(Event::RemoteFilesBrowsers)
        },
        final(state).remote_files == old(state).remote_files,
{
    if !state.remote_files_browsers.browsers.contains_key(&browser_id) {
        return;
    }
    let mut browser = state.remote_files_browsers.browsers.remove(&browser_id).unwrap();
    notify.notify(Event::RemoteFilesBrowsers);
    let ids = copy_item_ids(&browser.items);
    selection::set_selection(&mut browser.selection, ids);
    state.remote_files_browsers.browsers.insert(browser_id, browser);
}

/// Selects exactly the given item ids in a browser.
pub fn set_selection(
    state: &mut State,
    notify: &mut Notify,
    browser_id: u32,
    selection: Vec<RemoteFilesBrowserItemId>,
)
    ensures
        !old(state).remote_files_browsers.browsers@.contains_key(browser_id) ==> *final(state)
            == *old(state) && final(notify).events@ == old(notify).events@,
        old(state).remote_files_browsers.browsers@.contains_key(browser_id) ==> {
            let ob = old(state).remote_files_browsers.browsers@[browser_id];
            let nb = final(state).remote_files_browsers.browsers@[browser_id];
            &&& final(state).remote_files_browsers.browsers@.contains_key(browser_id)
            &&& nb.items == ob.items
            &&& nb.selection.ids() == selection@.map_values(
                |i: RemoteFilesBrowserItemId| i.0@,
            ).to_set()
            &&& final(notify).events@ == old(notify).events@.push(Event::RemoteFilesBrowsers)
        },
        final(state).remote_files == old(state).remote_files,
{
    if !state.remote_files_browsers.browsers.contains_key(&browser_id) {
        return;
    }
    let mut browser = state.remote_files_browsers.browsers.remove(&browser_id).unwrap();
    notify.notify(Event::RemoteFilesBrowsers);
    let ghost sel = selection@;
    let mut ids: Vec<String> = Vec::new();
    let n = selection.len();
    let mut i: usize = 0;
    while i < n
        invariant
            n == selection@.len(),
            sel == selection@,
            i <= n,
            id_views(ids@) == sel.take(i as int).map_values(|i: RemoteFilesBrowserItemId| i.0@),
        decreases n - i,
    {
        let ghost before = ids@;
        ids.push(copy_str(selection[i].0.as_str()));
        proof {
            assert(id_views(ids@) =~= id_views(before).push(sel[i as int].0@));
            assert(sel.take(i + 1).map_values(|i: RemoteFilesBrowserItemId| i.0@) =~= sel.take(
                i as int,
            ).map_values(|i: RemoteFilesBrowserItemId| i.0@).push(sel[i as int].0@));
        }
        i = i + 1;
    }
    proof {
        assert(sel.take(n as int) =~= sel);
    }
    selection::set_selection(&mut browser.selection, ids);
    state.remote_files_browsers.browsers.insert(browser_id, browser);
}

/// Deselects everything in a browser.
pub fn clear_selection(state: &mut State, notify: &mut Notify, browser_id: u32)
    ensures
        !old(state).remote_files_browsers.browsers@.contains_key(browser_id) ==> *final(state)
            == *old(state) && final(notify).events@ == old(notify).events@,
        old(state).remote_files_browsers.browsers@.contains_key(browser_id) ==> {
            let ob = old(state).remote_files_browsers.browsers@[browser_id];
            let nb = final(state).remote_files_browsers.browsers@[browser_id];
            &&& final(state).remote_files_browsers.browsers@.contains_key(browser_id)
            &&& nb.items == ob.items
            &&& nb.selection.ids() == Set::<Seq<char>>::empty()
            &&& final(notify).events@ == old(notify).events@.push(Event::RemoteFilesBrowsers)
        },
        final(state).remote_files == old(state).remote_files,
{
    if !state.remote_files_browsers.browsers.contains_key(&browser_id) {
        return;
    }
    let mut browser = state.remote_files_browsers.browsers.remove(&browser_id).unwrap();
    notify.notify(Event::RemoteFilesBrowsers);
    selection::clear_selection(&mut browser.selection);
    state.remote_files_browsers.browsers.insert(browser_id, browser);
}

/// The sort after the user asked to sort by `field`: the given direction,
/// else the other direction when already sorting by `field`, else sizes and
/// dates descending and names ascending.
pub open spec fn spec_next_sort(
    sort: RemoteFilesSort,
    field: RemoteFilesSortField,
    direction: Option<SortDirection>,
) -> RemoteFilesSort {
    RemoteFilesSort {
        field,
        direction: match direction {
            Some(d) => d,
            None => if sort.field == field {
                sort.direction.spec_reverse()
            } else {
                match field {
                    RemoteFilesSortField::Name => SortDirection::Asc,
                    _ => SortDirection::Desc,
                }
            },
        },
    }
}

/// Sorts a browser by `field` and relists its items in the new order.
pub fn sort_by(
    state: &mut State,
    notify: &mut Notify,
    browser_id: u32,
    field: RemoteFilesSortField,
    direction: Option<SortDirection>,
)
    ensures
        !old(state).remote_files_browsers.browsers@.contains_key(browser_id) ==> *final(state)
            == *old(state) && final(notify).events@ == old(notify).events@,
        old(state).remote_files_browsers.browsers@.contains_key(browser_id) ==> {
            let ob = old(state).remote_files_browsers.browsers@[browser_id];
            let nb = final(state).remote_files_browsers.browsers@[browser_id];
            &&& final(state).remote_files_browsers.browsers@.contains_key(browser_id)
            &&& nb.sort == spec_next_sort(ob.sort, field, direction)
            &&& nb.location == ob.location
            &&& spec_location_items(
            final(state).remote_files,
                ob.options.only_hosted_devices,
                nb.sort,
                nb.location,
                nb.items@,
            )
        },
        final(state).remote_files == old(state).remote_files,
        announced_only(old(notify).events@, final(notify).events@, Event::RemoteFilesBrowsers),
{
    if !state.remote_files_browsers.browsers.contains_key(&browser_id) {
        return;
    }
    let mut browser = state.remote_files_browsers.browsers.remove(&browser_id).unwrap();
    notify.notify(Event::RemoteFilesBrowsers);
    let new_direction = match direction {
        Some(d) => d,
        None => if browser.sort.field == field {
            browser.sort.direction.reverse()
        } else {
            match field {
                RemoteFilesSortField::Name => SortDirection::Asc,
                _ => SortDirection::Desc,
            }
        },
    };
    browser.sort = RemoteFilesSort { field, direction: new_direction };
    state.remote_files_browsers.browsers.insert(browser_id, browser);
    let ghost ev1 = notify.events@;
    update_items(state, notify, browser_id);
    proof {
        assert(notify.events@.subrange(0, old(notify).events@.len() as int) =~= old(notify).events@) by {
            assert(notify.events@.subrange(0, ev1.len() as int) == ev1);
        }
    }
}

/// After the remote files changed: every browser relists its items.
pub fn handle_remote_files_mutation(state: &mut State, notify: &mut Notify)
    ensures
        final(state).remote_files == old(state).remote_files,
        final(state).remote_files_browsers.browsers@.dom() == old(state).remote_files_browsers.browsers@.dom(),
        forall|id: u32|
            #[trigger] final(state).remote_files_browsers.browsers@.contains_key(id) ==> {
                let b = final(state).remote_files_browsers.browsers@[id];
                spec_location_items(
            final(state).remote_files,
                    b.options.only_hosted_devices,
                    b.sort,
                    b.location,
                    b.items@,
                )
            },
        announced_only(old(notify).events@, final(notify).events@, Event::RemoteFilesBrowsers),
{
    let ids = state.remote_files_browsers.browsers.keys();
    let n = ids.len();
    let mut i: usize = 0;
    proof {
        assert forall|id: u32| old(state).remote_files_browsers.browsers@.contains_key(id) implies exists|a: int|
            0 <= a < n && ids@[a] == id by {
            assert(state.remote_files_browsers.browsers@.contains_key(id));
            let a = choose|a: int| 0 <= a < ids.len() && ids@[a]@ == id;
            assert(ids@[a] == id);
        }
        assert forall|a: int, b: int| 0 <= a < n && 0 <= b < n && a != b implies ids@[a] != ids@[b] by {
            assert(ids@[a]@ != ids@[b]@);
        }
    }
    while i < n
        invariant
            n == ids@.len(),
            i <= n,
            state.remote_files == old(state).remote_files,
            state.remote_files_browsers.browsers@.dom() == old(state).remote_files_browsers.browsers@.dom(),
            forall|id: u32|
                old(state).remote_files_browsers.browsers@.contains_key(id) ==> exists|a: int|
                    0 <= a < n && ids@[a] == id,
            forall|a: int, b: int| 0 <= a < n && 0 <= b < n && a != b ==> ids@[a] != ids@[b],
            forall|a: int|
                0 <= a < i && state.remote_files_browsers.browsers@.contains_key(#[trigger] ids@[a]) ==> {
                    let b = state.remote_files_browsers.browsers@[ids@[a]];
                    spec_location_items(
            state.remote_files,
                        b.options.only_hosted_devices,
                        b.sort,
                        b.location,
                        b.items@,
                    )
                },
            announced_only(old(notify).events@, notify.events@, Event::RemoteFilesBrowsers),
        decreases n - i,
    {
        let ghost ev0 = notify.events@;
        let ghost st0 = *state;
        update_items(state, notify, ids[i]);
        proof {
            assert(notify.events@.subrange(0, old(notify).events@.len() as int) =~= old(notify).events@) by {
                assert(notify.events@.subrange(0, ev0.len() as int) == ev0);
                assert(ev0.subrange(0, old(notify).events@.len() as int) == old(notify).events@);
            }
            assert forall|a: int| 0 <= a < i + 1 && state.remote_files_browsers.browsers@.contains_key(#[trigger] ids@[a]) implies {
                let b = state.remote_files_browsers.browsers@[ids@[a]];
                spec_location_items(
            state.remote_files,
                    b.options.only_hosted_devices,
                    b.sort,
                    b.location,
                    b.items@,
                )
            } by {
                if a < i {
                    assert(ids@[a] != ids@[i as int]);
                    assert(st0.remote_files_browsers.browsers@.contains_key(ids@[a]));
                }
            }
        }
        i = i + 1;
    }
    proof {
        assert forall|id: u32| #[trigger]
            state.remote_files_browsers.browsers@.contains_key(id) implies {
            let b = state.remote_files_browsers.browsers@[id];
            spec_location_items(
            state.remote_files, b.options.only_hosted_devices, b.sort, b.location, b.items@)
        } by {
            let a = choose|a: int| 0 <= a < n && ids@[a] == id;
        }
    }
}


/// Asking twice to sort by the field that a browser is already sorted by,
/// with no direction given, brings back the sort it had.
pub proof fn law_sort_by_twice_restores(sort: RemoteFilesSort, field: RemoteFilesSortField)
    requires
        sort.field == field,
    ensures
        spec_next_sort(spec_next_sort(sort, field, None), field, None) == sort,
        spec_next_sort(sort, field, None).direction == sort.direction.spec_reverse(),
{
}

} // verus!
