//! Changes to the browsers of repository folders: opening and closing them,
//! following their folder, the repository and the user's selection.
use vstd::prelude::*;

use crate::common::{announced_only, Event, Notify, SortDirection, Status};
use crate::paths::{join_path_name, spec_join_path_name};
use crate::remote_files::state::id_views;
use crate::repo_files::errors::LoadFilesError;
use crate::repo_files::selectors::{get_file_id, select_sorted_files, sorted_files_ok, spec_repo_file_id};
use crate::repo_files::state::{RepoFilesBreadcrumb, RepoFilesSort, RepoFilesSortField};
use crate::repo_files_details::mutations::same_repo_status;
use crate::repos::{RepoInfoError, RepoState};
use crate::selection;
use crate::selection::Selection;
use crate::store::State;
use crate::strings::{copy_str, str_eq};

use super::selectors::{select_file_ids, spec_browser, spec_folder_file_ids};
use super::state::{RepoFilesBrowser, RepoFilesBrowserLocation, RepoFilesBrowserOptions};

verus! {

/// What the cipher of a browser's repository gives for the browser: the
/// breadcrumbs of its folder with decrypted names, and the encrypted form of
/// the name that the browser is to select.
#[derive(Debug)]
pub struct RepoFilesBrowserDecryption {
    pub breadcrumbs: Vec<RepoFilesBreadcrumb>,
    pub encrypted_select_name: Option<String>,
}

/// Whether the repository of a browser's folder is locked.
pub open spec fn spec_browser_locked(state: State, loc: Option<RepoFilesBrowserLocation>) -> bool {
    loc matches Some(l) && state.repos.repos_by_id@.contains_key(l.repo_id@)
        && state.repos.repos_by_id@[l.repo_id@].state == RepoState::Locked
}

/// The id of the file that a browser is to select, when it has a name to
/// select and the cipher encrypted it.
pub open spec fn spec_select_target(b: RepoFilesBrowser, dec: Option<RepoFilesBrowserDecryption>) -> Option<
    Seq<char>,
> {
    match (b.options.select_name, dec, b.location) {
        (Some(_), Some(d), Some(l)) => match d.encrypted_select_name {
            Some(enc) => Some(spec_repo_file_id(l.repo_id@, spec_join_path_name(l.path@, enc@))),
            None => None,
        },
        _ => None,
    }
}

/// Whether the name to select was looked for: the cipher could encrypt it.
pub open spec fn spec_select_tried(b: RepoFilesBrowser, dec: Option<RepoFilesBrowserDecryption>) -> bool {
    b.options.select_name is Some && (dec matches Some(d) && d.encrypted_select_name is Some)
}

/// A browser `nb` is `b` brought up to date with the state: its sorted file
/// ids, its breadcrumbs, the name it was to select, its selection, and its
/// repository's status and lock. `dec` is what the repository's cipher gave,
/// when the repository is unlocked.
pub open spec fn spec_browser_updated(
    state: State,
    b: RepoFilesBrowser,
    nb: RepoFilesBrowser,
    repo_status: Status<RepoInfoError>,
    dec: Option<RepoFilesBrowserDecryption>,
) -> bool {
    let rs = if b.location is Some {
        repo_status
    } else {
        Status::Initial
    };
    let d = if b.location is Some {
        dec
    } else {
        None
    };
    let locked = spec_browser_locked(state, b.location);
    let ids = id_views(nb.file_ids@);
    let target = spec_select_target(b, d);
    let found = target matches Some(t) && ids.contains(t);
    &&& nb.id == b.id
    &&& nb.location == b.location
    &&& nb.status == b.status
    &&& nb.sort == b.sort
    &&& match b.location {
        Some(l) => sorted_files_ok(state.repo_files.files@, spec_folder_file_ids(state, l.repo_id@, l.path@), b.sort, ids),
        None => ids.len() == 0,
    }
    &&& nb.breadcrumbs == match (b.breadcrumbs, d) {
        (None, Some(x)) => Some(x.breadcrumbs),
        (Some(_), None) => None,
        _ => b.breadcrumbs,
    }
    &&& nb.options.select_name == if spec_select_tried(b, d) && (b.status is Loaded || found) {
        None
    } else {
        b.options.select_name
    }
    &&& if found {
        nb.selection.ids() == set![target.unwrap()] && (nb.selection.last_selected matches Some(x) && x@
            == target.unwrap())
    } else {
        &&& nb.selection.ids() == if locked {
            b.selection.ids()
        } else {
            b.selection.ids().intersect(ids.to_set())
        }
        &&& nb.selection.last_selected == b.selection.last_selected
    }
    &&& nb.repo_status == if same_repo_status(b.repo_status, rs) {
        b.repo_status
    } else {
        rs
    }
    &&& nb.is_locked == locked
}

fn is_locked_of(state: &State, loc: Option<&RepoFilesBrowserLocation>) -> (r: bool)
    ensures
        r == spec_browser_locked(
            *state,
            match loc {
                Some(l) => Some(*l),
                None => None,
            },
        ),
{
    match loc {
        Some(l) => match state.repos.repos_by_id.get(&l.repo_id) {
            Some(repo) => repo.state.is_locked(),
            None => false,
        },
        None => false,
    }
}

fn ids_eq(a: &Vec<String>, b: &Vec<String>) -> (r: bool)
    ensures
        r == (id_views(a@) == id_views(b@)),
{
    if a.len() != b.len() {
        proof {
            assert(id_views(a@).len() != id_views(b@).len());
        }
        return false;
    }
    let n = a.len();
    let mut i: usize = 0;
    while i < n
        invariant
            n == a@.len(),
            n == b@.len(),
            i <= n,
            forall|j: int| 0 <= j < i ==> a@[j]@ == b@[j]@,
        decreases n - i,
    {
        if !str_eq(a[i].as_str(), b[i].as_str()) {
            proof {
                assert(id_views(a@)[i as int] != id_views(b@)[i as int]);
            }
            return false;
        }
        i = i + 1;
    }
    assert(id_views(a@) =~= id_views(b@));
    true
}

fn contains_id(ids: &Vec<String>, id: &str) -> (r: bool)
    ensures
        r == id_views(ids@).contains(id@),
{
    let n = ids.len();
    let mut i: usize = 0;
    while i < n
        invariant
            n == ids@.len(),
            i <= n,
            forall|j: int| 0 <= j < i ==> ids@[j]@ != id@,
        decreases n - i,
    {
        if str_eq(ids[i].as_str(), id) {
            assert(id_views(ids@)[i as int] == id@);
            return true;
        }
        i = i + 1;
    }
    proof {
        if id_views(ids@).contains(id@) {
            let j = choose|j: int| 0 <= j < id_views(ids@).len() && id_views(ids@)[j] == id@;
            assert(ids@[j]@ == id@);
        }
    }
    false
}

fn repo_status_same(a: &Status<RepoInfoError>, b: &Status<RepoInfoError>) -> (r: bool)
    ensures
        r == same_repo_status(*a, *b),
{
    match (a, b) {
        (Status::Initial, Status::Initial) => true,
        (Status::Loading { loaded: x }, Status::Loading { loaded: y }) => *x == *y,
        (Status::Loaded, Status::Loaded) => true,
        (Status::Error { error: e1, loaded: x }, Status::Error { error: e2, loaded: y }) => *x == *y && match (
            e1,
            e2,
        ) {
            (RepoInfoError::RepoNotFound(_), RepoInfoError::RepoNotFound(_)) => true,
            (RepoInfoError::RemoteError(r1), RepoInfoError::RemoteError(r2)) => match (r1, r2) {
                (
                    crate::remote::RemoteError::ApiError { code: c1, message: m1 },
                    crate::remote::RemoteError::ApiError { code: c2, message: m2 },
                ) => *c1 == *c2 && str_eq(m1.as_str(), m2.as_str()),
                (
                    crate::remote::RemoteError::HttpError { message: m1 },
                    crate::remote::RemoteError::HttpError { message: m2 },
                ) => str_eq(m1.as_str(), m2.as_str()),
                _ => false,
            },
            _ => false,
        },
        _ => false,
    }
}

/// Brings a browser up to date with the state (see `spec_browser_updated`).
pub fn update_browser(
    state: &mut State,
    notify: &mut Notify,
    browser_id: u32,
    repo_status: Status<RepoInfoError>,
    dec: Option<RepoFilesBrowserDecryption>,
)
    ensures
        spec_browser(*old(state), browser_id) is None ==> *final(state) == *old(state) && final(notify).events@
            == old(notify).events@,
        spec_browser(*old(state), browser_id) matches Some(b) ==> {
            &&& only_browser_changed_but_browsers(*old(state), *final(state), browser_id)
            &&& spec_browser(*final(state), browser_id) matches Some(nb) && spec_browser_updated(
                *old(state),
                b,
                nb,
                repo_status,
                dec,
            )
        },
        announced_only(old(notify).events@, final(notify).events@, Event::RepoFilesBrowsers),
{
    if !state.repo_files_browsers.browsers.contains_key(&browser_id) {
        return;
    }
    let mut browser = state.repo_files_browsers.browsers.remove(&browser_id).unwrap();
    let ghost b = browser;
    let is_locked = is_locked_of(state, browser.location.as_ref());
    let (rs, dec) = if browser.location.is_some() {
        (repo_status, dec)
    } else {
        (Status::Initial, None)
    };
    let mut dirty = false;
    let (dec_breadcrumbs, encrypted_select_name, has_dec) = match dec {
        Some(d) => (Some(d.breadcrumbs), d.encrypted_select_name, true),
        None => (None, None, false),
    };
    if browser.breadcrumbs.is_none() && has_dec {
        browser.breadcrumbs = dec_breadcrumbs;
        dirty = true;
    } else if browser.breadcrumbs.is_some() && !has_dec {
        browser.breadcrumbs = None;
        dirty = true;
    }
    let (file_ids, folder_ids) = match &browser.location {
        Some(loc) => {
            let folder_ids = select_file_ids(state, loc.repo_id.as_str(), loc.path.as_str());
            (select_sorted_files(&state.repo_files.files, &folder_ids, &browser.sort), folder_ids)
        },
        None => {
            let e: Vec<String> = Vec::new();
            let f: Vec<String> = Vec::new();
            assert(id_views(e@) =~= Seq::<Seq<char>>::empty());
            (e, f)
        },
    };
    if !ids_eq(&browser.file_ids, &file_ids) {
        browser.file_ids = file_ids;
        dirty = true;
    }
    let tried = browser.options.select_name.is_some() && encrypted_select_name.is_some();
    let select_target = if tried {
        match (&browser.location, &encrypted_select_name) {
            (Some(loc), Some(enc)) => {
                let path = join_path_name(loc.path.as_str(), enc.as_str());
                let file_id = get_file_id(loc.repo_id.as_str(), path.as_str());
                if contains_id(&browser.file_ids, file_id.as_str()) {
                    Some(file_id)
                } else {
                    None
                }
            },
            _ => None,
        }
    } else {
        None
    };
    if tried && (browser.status.is_loaded() || select_target.is_some()) {
        browser.options.select_name = None;
    }
    if !is_locked {
        if selection::update_selection(&mut browser.selection, &browser.file_ids) {
            dirty = true;
        }
    }
    if !repo_status_same(&browser.repo_status, &rs) {
        browser.repo_status = rs;
        dirty = true;
    }
    if browser.is_locked != is_locked {
        browser.is_locked = is_locked;
        dirty = true;
    }
    match select_target {
        Some(file_id) => {
            notify.notify(Event::RepoFilesBrowsers);
            selection::select_item(&mut browser.selection, &folder_ids, &file_id, false, false, true);
            dirty = true;
        },
        None => {},
    }
    state.repo_files_browsers.browsers.insert(browser_id, browser);
    if dirty {
        notify.notify(Event::RepoFilesBrowsers);
    }
}

/// All but the browser `id` is unchanged, which stays.
pub open spec fn only_browser_changed_but_browsers(a: State, b: State, id: u32) -> bool {
    &&& b.remote_files == a.remote_files
    &&& b.remote_files_browsers == a.remote_files_browsers
    &&& b.dir_pickers == a.dir_pickers
    &&& b.repos == a.repos
    &&& b.repo_files == a.repo_files
    &&& b.repo_creates == a.repo_creates
    &&& b.repo_config_backups == a.repo_config_backups
    &&& b.repo_files_details == a.repo_files_details
    &&& b.file_types == a.file_types
    &&& b.repo_files_move == a.repo_files_move
    &&& b.repo_files_browsers.next_id == a.repo_files_browsers.next_id
    &&& b.repo_files_browsers.last_sort == a.repo_files_browsers.last_sort
    &&& b.repo_files_browsers.browsers@.dom() == a.repo_files_browsers.browsers@.dom()
    &&& forall|k: u32| k != id && #[trigger] a.repo_files_browsers.browsers@.contains_key(k)
        ==> b.repo_files_browsers.browsers@[k] == a.repo_files_browsers.browsers@[k]
}

/// The status a new browser starts with: loading (loaded when its folder
/// was listed before), or the error of its location.
pub open spec fn spec_initial_status(state: State, location: Result<RepoFilesBrowserLocation, LoadFilesError>) -> Status<
    LoadFilesError,
> {
    match location {
        Ok(l) => Status::Loading {
            loaded: state.repo_files.loaded_roots@.contains_key(spec_repo_file_id(l.repo_id@, l.path@)),
        },
        Err(e) => Status::Error { error: e, loaded: false },
    }
}

/// Opens a browser on a folder of a repository and returns its id; it starts
/// with the last sort chosen. `repo_status` and `dec` are as for
/// `update_browser`.
pub fn create(
    state: &mut State,
    notify: &mut Notify,
    options: RepoFilesBrowserOptions,
    location: Result<RepoFilesBrowserLocation, LoadFilesError>,
    repo_status: Status<RepoInfoError>,
    dec: Option<RepoFilesBrowserDecryption>,
) -> (browser_id: u32)
    requires
        old(state).repo_files_browsers.next_id.value < u32::MAX,
    ensures
        browser_id == old(state).repo_files_browsers.next_id.value,
        final(state).repo_files_browsers.next_id.value == browser_id + 1,
        final(state).repo_files_browsers.browsers@.dom() == old(state).repo_files_browsers.browsers@.dom().insert(
            browser_id,
        ),
        forall|k: u32| k != browser_id && #[trigger] old(state).repo_files_browsers.browsers@.contains_key(k)
            ==> final(state).repo_files_browsers.browsers@[k] == old(state).repo_files_browsers.browsers@[k],
        final(state).repo_files == old(state).repo_files,
        final(state).repos == old(state).repos,
        exists|b0: RepoFilesBrowser| #[trigger] initial_browser(*old(state), b0, browser_id, options, location)
            && spec_browser_updated(
            *old(state),
            b0,
            final(state).repo_files_browsers.browsers@[browser_id],
            repo_status,
            dec,
        ),
        final(notify).events@.len() > old(notify).events@.len(),
        announced_only(old(notify).events@, final(notify).events@, Event::RepoFilesBrowsers),
{
    notify.notify(Event::RepoFilesBrowsers);
    let browser_id = state.repo_files_browsers.next_id.next();
    let status = match &location {
        Ok(l) => {
            let id = get_file_id(l.repo_id.as_str(), l.path.as_str());
            Status::Loading { loaded: state.repo_files.loaded_roots.contains_key(&id) }
        },
        Err(e) => Status::Error { error: e.clone(), loaded: false },
    };
    let loc = match location {
        Ok(l) => Some(l),
        Err(_) => None,
    };
    let browser = RepoFilesBrowser {
        id: browser_id,
        options,
        location: loc,
        status,
        breadcrumbs: None,
        file_ids: Vec::new(),
        selection: Selection::new(),
        sort: state.repo_files_browsers.last_sort,
        repo_status: Status::Initial,
        is_locked: false,
    };
    state.repo_files_browsers.browsers.insert(browser_id, browser);
    let ghost ev1 = notify.events@;
    let ghost b0 = state.repo_files_browsers.browsers@[browser_id];
    let ghost st1 = *state;
    update_browser(state, notify, browser_id, repo_status, dec);
    proof {
        assert(initial_browser(*old(state), b0, browser_id, options, location));
        assert forall|k: u32| k != browser_id && #[trigger] old(state).repo_files_browsers.browsers@.contains_key(k)
            implies state.repo_files_browsers.browsers@[k] == old(state).repo_files_browsers.browsers@[k] by {
            assert(st1.repo_files_browsers.browsers@.contains_key(k));
            assert(st1.repo_files_browsers.browsers@[k] == old(state).repo_files_browsers.browsers@[k]);
        }
        assert(state.repo_files_browsers.browsers@.dom() =~= old(state).repo_files_browsers.browsers@.dom().insert(
            browser_id,
        ));
        assert forall|i: int| old(notify).events@.len() <= i < notify.events@.len() implies notify.events@[i]
            == Event::RepoFilesBrowsers by {
            if i < ev1.len() {
                assert(ev1[i] == Event::RepoFilesBrowsers);
            }
        }
    }
    browser_id
}

/// A browser as `create` makes it, before it is brought up to date.
pub open spec fn initial_browser(
    state: State,
    b: RepoFilesBrowser,
    id: u32,
    options: RepoFilesBrowserOptions,
    location: Result<RepoFilesBrowserLocation, LoadFilesError>,
) -> bool {
    &&& b.id == id
    &&& b.options == options
    &&& b.location == match location {
        Ok(l) => Some(l),
        Err(_) => None,
    }
    &&& b.status == spec_initial_status(state, location)
    &&& b.breadcrumbs is None
    &&& b.file_ids@.len() == 0
    &&& b.selection.ids() == Set::<Seq<char>>::empty()
    &&& b.selection.last_selected is None
    &&& b.sort == state.repo_files_browsers.last_sort
    &&& b.repo_status is Initial
    &&& !b.is_locked
}

/// The browser `id` replaced by `nb`; everything else unchanged.
pub open spec fn browser_replaced(a: State, b: State, id: u32, nb: RepoFilesBrowser) -> bool {
    &&& only_browser_changed_but_browsers(a, b, id)
    &&& b.repo_files_browsers.browsers@.contains_key(id)
    &&& b.repo_files_browsers.browsers@[id] == nb
}

/// Closes a browser.
pub fn destroy(state: &mut State, notify: &mut Notify, browser_id: u32)
    ensures
        final(notify).events@ == old(notify).events@.push(Event::RepoFilesBrowsers),
        final(state).repo_files_browsers.browsers@ == old(state).repo_files_browsers.browsers@.remove(browser_id),
        final(state).repo_files_browsers.next_id == old(state).repo_files_browsers.next_id,
        final(state).repo_files_browsers.last_sort == old(state).repo_files_browsers.last_sort,
        final(state).repo_files == old(state).repo_files,
{
    notify.notify(Event::RepoFilesBrowsers);
    state.repo_files_browsers.browsers.remove(&browser_id);
}

/// Marks a browser as loading its folder, keeping whether it loaded before.
pub fn loading(state: &mut State, notify: &mut Notify, browser_id: u32)
    ensures
        match spec_browser(*old(state), browser_id) {
            None => *final(state) == *old(state) && final(notify).events@ == old(notify).events@,
            Some(b) => if b.status == (Status::<LoadFilesError>::Loading { loaded: b.status.spec_loaded() }) {
                *final(state) == *old(state) && final(notify).events@ == old(notify).events@
            } else {
                &&& browser_replaced(
                    *old(state),
                    *final(state),
                    browser_id,
                    RepoFilesBrowser { status: Status::Loading { loaded: b.status.spec_loaded() }, ..b },
                )
                &&& final(notify).events@ == old(notify).events@.push(Event::RepoFilesBrowsers)
            },
        },
{
    match state.repo_files_browsers.browsers.get(&browser_id) {
        Some(b) => if let Status::Loading { .. } = b.status {
            return;
        },
        None => {
            return;
        },
    }
    let mut browser = state.repo_files_browsers.browsers.remove(&browser_id).unwrap();
    notify.notify(Event::RepoFilesBrowsers);
    browser.status = Status::Loading { loaded: browser.status.loaded() };
    state.repo_files_browsers.browsers.insert(browser_id, browser);
    proof {
        assert(state.repo_files_browsers.browsers@.dom() =~= old(state).repo_files_browsers.browsers@.dom());
    }
}

/// Records the end of loading a folder in a browser that shows it, then
/// brings the browser up to date.
pub fn loaded(
    state: &mut State,
    notify: &mut Notify,
    browser_id: u32,
    repo_id: &str,
    path: &str,
    error: Option<&LoadFilesError>,
    repo_status: Status<RepoInfoError>,
    dec: Option<RepoFilesBrowserDecryption>,
)
    ensures
        spec_browser(*old(state), browser_id) is None ==> *final(state) == *old(state) && final(notify).events@
            == old(notify).events@,
        spec_browser(*old(state), browser_id) matches Some(b) ==> {
            let shows = b.location matches Some(l) && l.repo_id@ == repo_id@ && l.path@ == path@;
            let b1 = if shows {
                RepoFilesBrowser {
                    status: match error {
                        Some(e) => Status::Error { error: *e, loaded: b.status.spec_loaded() },
                        None => Status::Loaded,
                    },
                    ..b
                }
            } else {
                b
            };
            &&& only_browser_changed_but_browsers(*old(state), *final(state), browser_id)
            &&& spec_browser(*final(state), browser_id) matches Some(nb) && spec_browser_updated(
                *old(state),
                b1,
                nb,
                repo_status,
                dec,
            )
        },
        announced_only(old(notify).events@, final(notify).events@, Event::RepoFilesBrowsers),
{
    if !state.repo_files_browsers.browsers.contains_key(&browser_id) {
        return;
    }
    let shows = match &state.repo_files_browsers.browsers.get(&browser_id).unwrap().location {
        Some(loc) => str_eq(loc.repo_id.as_str(), repo_id) && str_eq(loc.path.as_str(), path),
        None => false,
    };
    let ghost st0 = *state;
    if shows {
        let mut browser = state.repo_files_browsers.browsers.remove(&browser_id).unwrap();
        notify.notify(Event::RepoFilesBrowsers);
        browser.status = match error {
            Some(e) => Status::Error { error: e.clone(), loaded: browser.status.loaded() },
            None => Status::Loaded,
        };
        state.repo_files_browsers.browsers.insert(browser_id, browser);
        proof {
            assert(state.repo_files_browsers.browsers@.dom() =~= old(state).repo_files_browsers.browsers@.dom());
        }
    }
    let ghost st1 = *state;
    let ghost ev1 = notify.events@;
    update_browser(state, notify, browser_id, repo_status, dec);
    proof {
        assert forall|k: u32| k != browser_id && #[trigger] old(state).repo_files_browsers.browsers@.contains_key(k)
            implies state.repo_files_browsers.browsers@[k] == old(state).repo_files_browsers.browsers@[k] by {
            assert(st1.repo_files_browsers.browsers@.contains_key(k));
        }
        assert forall|i: int| old(notify).events@.len() <= i < notify.events@.len() implies notify.events@[i]
            == Event::RepoFilesBrowsers by {
            if i < ev1.len() {
                assert(ev1[i] == Event::RepoFilesBrowsers);
            }
        }
    }
}

/// A click on a file of a browser (see `selection::select_item`); the
/// clicks range over the folder's files in the order the tree keeps them.
pub fn select_file(
    state: &mut State,
    notify: &mut Notify,
    browser_id: u32,
    file_id: &String,
    extend: bool,
    range: bool,
    force: bool,
)
    ensures
        spec_browser(*old(state), browser_id) is None ==> *final(state) == *old(state) && final(notify).events@
            == old(notify).events@,
        spec_browser(*old(state), browser_id) matches Some(b) ==> {
            &&& only_browser_changed_but_browsers(*old(state), *final(state), browser_id)
            &&& spec_browser(*final(state), browser_id) matches Some(nb) && nb == (RepoFilesBrowser {
                selection: nb.selection,
                ..b
            }) && (nb.selection.last_selected matches Some(l) && l@ == file_id@) && ((!range && !extend)
                ==> nb.selection.ids() == (if !force && b.selection.ids() == set![file_id@] {
                Set::<Seq<char>>::empty()
            } else {
                set![file_id@]
            })) && ((!range && extend) ==> nb.selection.ids() == (if b.selection.ids().contains(file_id@) {
                b.selection.ids().remove(file_id@)
            } else {
                b.selection.ids().insert(file_id@)
            }))
            &&& final(notify).events@ == old(notify).events@.push(Event::RepoFilesBrowsers)
        },
{
    if !state.repo_files_browsers.browsers.contains_key(&browser_id) {
        return;
    }
    let items = match &state.repo_files_browsers.browsers.get(&browser_id).unwrap().location {
        Some(loc) => select_file_ids(state, loc.repo_id.as_str(), loc.path.as_str()),
        None => Vec::new(),
    };
    let mut browser = state.repo_files_browsers.browsers.remove(&browser_id).unwrap();
    notify.notify(Event::RepoFilesBrowsers);
    selection::select_item(&mut browser.selection, &items, file_id, extend, range, force);
    state.repo_files_browsers.browsers.insert(browser_id, browser);
    proof {
        assert(state.repo_files_browsers.browsers@.dom() =~= old(state).repo_files_browsers.browsers@.dom());
    }
}

/// Selects all the files of a browser's folder.
pub fn select_all(state: &mut State, notify: &mut Notify, browser_id: u32)
    ensures
        spec_browser(*old(state), browser_id) is None ==> *final(state) == *old(state) && final(notify).events@
            == old(notify).events@,
        spec_browser(*old(state), browser_id) matches Some(b) ==> {
            &&& only_browser_changed_but_browsers(*old(state), *final(state), browser_id)
            &&& spec_browser(*final(state), browser_id) matches Some(nb) && nb == (RepoFilesBrowser {
                selection: nb.selection,
                ..b
            }) && nb.selection.ids() == match b.location {
                Some(l) => spec_folder_file_ids(*old(state), l.repo_id@, l.path@).to_set(),
                None => Set::<Seq<char>>::empty(),
            } && nb.selection.last_selected is None
            &&& final(notify).events@ == old(notify).events@.push(Event::RepoFilesBrowsers)
        },
{
    if !state.repo_files_browsers.browsers.contains_key(&browser_id) {
        return;
    }
    let items = match &state.repo_files_browsers.browsers.get(&browser_id).unwrap().location {
        Some(loc) => select_file_ids(state, loc.repo_id.as_str(), loc.path.as_str()),
        None => {
            let e: Vec<String> = Vec::new();
            assert(id_views(e@).to_set() =~= Set::<Seq<char>>::empty());
            e
        },
    };
    let mut browser = state.repo_files_browsers.browsers.remove(&browser_id).unwrap();
    notify.notify(Event::RepoFilesBrowsers);
    selection::set_selection(&mut browser.selection, items);
    state.repo_files_browsers.browsers.insert(browser_id, browser);
    proof {
        assert(state.repo_files_browsers.browsers@.dom() =~= old(state).repo_files_browsers.browsers@.dom());
    }
}

/// Selects nothing in a browser.
pub fn clear_selection(state: &mut State, notify: &mut Notify, browser_id: u32)
    ensures
        spec_browser(*old(state), browser_id) is None ==> *final(state) == *old(state) && final(notify).events@
            == old(notify).events@,
        spec_browser(*old(state), browser_id) matches Some(b) ==> {
            &&& only_browser_changed_but_browsers(*old(state), *final(state), browser_id)
            &&& spec_browser(*final(state), browser_id) matches Some(nb) && nb == (RepoFilesBrowser {
                selection: nb.selection,
                ..b
            }) && nb.selection.ids() == Set::<Seq<char>>::empty() && nb.selection.last_selected is None
            &&& final(notify).events@ == old(notify).events@.push(Event::RepoFilesBrowsers)
        },
{
    if !state.repo_files_browsers.browsers.contains_key(&browser_id) {
        return;
    }
    let mut browser = state.repo_files_browsers.browsers.remove(&browser_id).unwrap();
    notify.notify(Event::RepoFilesBrowsers);
    selection::clear_selection(&mut browser.selection);
    state.repo_files_browsers.browsers.insert(browser_id, browser);
    proof {
        assert(state.repo_files_browsers.browsers@.dom() =~= old(state).repo_files_browsers.browsers@.dom());
    }
}

/// Selects exactly the files `ids` in a browser.
pub fn set_selection(state: &mut State, notify: &mut Notify, browser_id: u32, ids: Vec<String>)
    ensures
        spec_browser(*old(state), browser_id) is None ==> *final(state) == *old(state) && final(notify).events@
            == old(notify).events@,
        spec_browser(*old(state), browser_id) matches Some(b) ==> {
            &&& only_browser_changed_but_browsers(*old(state), *final(state), browser_id)
            &&& spec_browser(*final(state), browser_id) matches Some(nb) && nb == (RepoFilesBrowser {
                selection: nb.selection,
                ..b
            }) && nb.selection.ids() == id_views(ids@).to_set() && nb.selection.last_selected is None
            &&& final(notify).events@ == old(notify).events@.push(Event::RepoFilesBrowsers)
        },
{
    if !state.repo_files_browsers.browsers.contains_key(&browser_id) {
        return;
    }
    let mut browser = state.repo_files_browsers.browsers.remove(&browser_id).unwrap();
    notify.notify(Event::RepoFilesBrowsers);
    selection::set_selection(&mut browser.selection, ids);
    state.repo_files_browsers.browsers.insert(browser_id, browser);
    proof {
        assert(state.repo_files_browsers.browsers@.dom() =~= old(state).repo_files_browsers.browsers@.dom());
    }
}

/// The sort after the user asked to sort by `field`: the given direction,
/// else the other direction when already sorting by `field`, else sizes and
/// dates descending and names ascending; the grouping stays.
pub open spec fn spec_next_sort(
    sort: RepoFilesSort,
    field: RepoFilesSortField,
    direction: Option<SortDirection>,
) -> RepoFilesSort {
    RepoFilesSort {
        field,
        direction: match direction {
            Some(d) => d,
            None => if sort.field == field {
                sort.direction.spec_reverse()
            } else {
                match field {
                    RepoFilesSortField::Size | RepoFilesSortField::Modified => SortDirection::Desc,
                    _ => SortDirection::Asc,
                }
            },
        },
        ..sort
    }
}

/// Sorts a browser by `field`, remembers the sort for new browsers, and
/// brings the browser up to date.
pub fn sort_by(
    state: &mut State,
    notify: &mut Notify,
    browser_id: u32,
    field: RepoFilesSortField,
    direction: Option<SortDirection>,
    repo_status: Status<RepoInfoError>,
    dec: Option<RepoFilesBrowserDecryption>,
)
    ensures
        spec_browser(*old(state), browser_id) is None ==> *final(state) == *old(state) && final(notify).events@
            == old(notify).events@,
        spec_browser(*old(state), browser_id) matches Some(b) ==> {
            let sort = spec_next_sort(b.sort, field, direction);
            &&& final(state).repo_files_browsers.last_sort == sort
            &&& final(state).repo_files == old(state).repo_files
            &&& final(state).repo_files_browsers.browsers@.dom() == old(state).repo_files_browsers.browsers@.dom()
            &&& forall|k: u32| k != browser_id && #[trigger] old(state).repo_files_browsers.browsers@.contains_key(k)
                ==> final(state).repo_files_browsers.browsers@[k] == old(state).repo_files_browsers.browsers@[k]
            &&& spec_browser(*final(state), browser_id) matches Some(nb) && spec_browser_updated(
                *old(state),
                RepoFilesBrowser { sort, ..b },
                nb,
                repo_status,
                dec,
            )
            &&& final(notify).events@.len() > old(notify).events@.len()
        },
        announced_only(old(notify).events@, final(notify).events@, Event::RepoFilesBrowsers),
{
    if !state.repo_files_browsers.browsers.contains_key(&browser_id) {
        return;
    }
    let mut browser = state.repo_files_browsers.browsers.remove(&browser_id).unwrap();
    notify.notify(Event::RepoFilesBrowsers);
    let new_direction = match direction {
        Some(d) => d,
        None => if browser.sort.field == field {
            browser.sort.direction.reverse()
        } else {
            match field {
                RepoFilesSortField::Size | RepoFilesSortField::Modified => SortDirection::Desc,
                _ => SortDirection::Asc,
            }
        },
    };
    browser.sort = RepoFilesSort { field, direction: new_direction, grouping: browser.sort.grouping };
    state.repo_files_browsers.last_sort = browser.sort;
    state.repo_files_browsers.browsers.insert(browser_id, browser);
    let ghost st1 = *state;
    let ghost ev1 = notify.events@;
    proof {
        assert(state.repo_files_browsers.browsers@.dom() =~= old(state).repo_files_browsers.browsers@.dom());
    }
    update_browser(state, notify, browser_id, repo_status, dec);
    proof {
        assert forall|k: u32| k != browser_id && #[trigger] old(state).repo_files_browsers.browsers@.contains_key(k)
            implies state.repo_files_browsers.browsers@[k] == old(state).repo_files_browsers.browsers@[k] by {
            assert(st1.repo_files_browsers.browsers@.contains_key(k));
        }
        assert forall|i: int| old(notify).events@.len() <= i < notify.events@.len() implies notify.events@[i]
            == Event::RepoFilesBrowsers by {
            if i < ev1.len() {
                assert(ev1[i] == Event::RepoFilesBrowsers);
            }
        }
    }
}

/// Sorting twice by the field already sorted by, with no direction given,
/// restores the sort.
pub proof fn law_sort_by_twice_restores(sort: RepoFilesSort, field: RepoFilesSortField)
    requires
        sort.field == field,
    ensures
        spec_next_sort(spec_next_sort(sort, field, None), field, None) == sort,
        spec_next_sort(sort, field, None).direction == sort.direction.spec_reverse(),
{
}

/// After an update, a browser of an unlocked repository selects only files
/// that it lists.
pub proof fn law_updated_selection_is_listed(
    state: State,
    b: RepoFilesBrowser,
    nb: RepoFilesBrowser,
    repo_status: Status<RepoInfoError>,
    dec: Option<RepoFilesBrowserDecryption>,
)
    requires
        spec_browser_updated(state, b, nb, repo_status, dec),
        !spec_browser_locked(state, b.location),
    ensures
        nb.selection.ids().subset_of(id_views(nb.file_ids@).to_set()),
{
    let d = if b.location is Some {
        dec
    } else {
        None
    };
    let target = spec_select_target(b, d);
    if target is Some && id_views(nb.file_ids@).contains(target.unwrap()) {
        assert forall|k: Seq<char>| nb.selection.ids().contains(k) implies id_views(nb.file_ids@).to_set().contains(k) by {
            assert(k == target.unwrap());
        }
    }
}

/// What a browser is brought up to date with: its repository's status and
/// what the repository's cipher gives for it (see `update_browser`).
#[derive(Debug)]
pub struct RepoFilesBrowserUpdate {
    pub repo_status: Status<RepoInfoError>,
    pub dec: Option<RepoFilesBrowserDecryption>,
}

/// Brings every browser that has an entry in `updates` up to date (see
/// `update_browser`); the others stay as they are.
pub fn handle_mutation(state: &mut State, notify: &mut Notify, updates: crate::keymap::KeyMap<u32, RepoFilesBrowserUpdate>)
    ensures
        final(state).repo_files == old(state).repo_files,
        final(state).repos == old(state).repos,
        final(state).repo_files_browsers.browsers@.dom() == old(state).repo_files_browsers.browsers@.dom(),
        forall|k: u32| #[trigger] old(state).repo_files_browsers.browsers@.contains_key(k) ==> if updates@.contains_key(k) {
            spec_browser_updated(
                *old(state),
                old(state).repo_files_browsers.browsers@[k],
                final(state).repo_files_browsers.browsers@[k],
                updates@[k].repo_status,
                updates@[k].dec,
            )
        } else {
            final(state).repo_files_browsers.browsers@[k] == old(state).repo_files_browsers.browsers@[k]
        },
        announced_only(old(notify).events@, final(notify).events@, Event::RepoFilesBrowsers),
{
    let ghost old_updates = updates@;
    let mut updates = updates;
    let keys = state.repo_files_browsers.browsers.keys();
    let ghost old_browsers = state.repo_files_browsers.browsers@;
    let n = keys.len();
    let mut i: usize = 0;
    proof {
        assert forall|k: u32| old_browsers.contains_key(k) implies exists|a: int| 0 <= a < n && keys@[a] == k by {
            let a = choose|a: int| 0 <= a < keys.len() && keys@[a]@ == k;
            assert(keys@[a] == k);
        }
        assert forall|a: int, b: int| 0 <= a < n && 0 <= b < n && a != b implies keys@[a] != keys@[b] by {
            assert(keys@[a]@ != keys@[b]@);
        }
    }
    while i < n
        invariant
            n == keys@.len(),
            i <= n,
            forall|k: u32| old_browsers.contains_key(k) ==> exists|a: int| 0 <= a < n && keys@[a] == k,
            forall|a: int, b: int| 0 <= a < n && 0 <= b < n && a != b ==> keys@[a] != keys@[b],
            old_browsers == old(state).repo_files_browsers.browsers@,
            state.repo_files == old(state).repo_files,
            state.repos == old(state).repos,
            state.repo_files_browsers.browsers@.dom() == old_browsers.dom(),
            forall|a: int| 0 <= a < i && old_browsers.contains_key(#[trigger] keys@[a]) ==> if old_updates.contains_key(keys@[a]) {
                spec_browser_updated(
                    *old(state),
                    old_browsers[keys@[a]],
                    state.repo_files_browsers.browsers@[keys@[a]],
                    old_updates[keys@[a]].repo_status,
                    old_updates[keys@[a]].dec,
                )
            } else {
                state.repo_files_browsers.browsers@[keys@[a]] == old_browsers[keys@[a]]
            },
            forall|a: int| i <= a < n && old_browsers.contains_key(#[trigger] keys@[a]) ==> state.repo_files_browsers.browsers@[keys@[a]] == old_browsers[keys@[a]],
            forall|a: int| i <= a < n ==> updates@.contains_key(#[trigger] keys@[a]) == old_updates.contains_key(keys@[a])
                && (old_updates.contains_key(keys@[a]) ==> updates@[keys@[a]] == old_updates[keys@[a]]),
            announced_only(old(notify).events@, notify.events@, Event::RepoFilesBrowsers),
        decreases n - i,
    {
        let k = keys[i];
        let ghost st0 = *state;
        let ghost ev0 = notify.events@;
        match updates.remove(&k) {
            Some(u) => {
                update_browser(state, notify, k, u.repo_status, u.dec);
            },
            None => {},
        }
        proof {
            assert forall|a: int| i + 1 <= a < n && old_browsers.contains_key(#[trigger] keys@[a]) implies state.repo_files_browsers.browsers@[keys@[a]]
                == old_browsers[keys@[a]] by {
                assert(keys@[a] != keys@[i as int]);
                assert(st0.repo_files_browsers.browsers@.contains_key(keys@[a]));
            }
            assert forall|a: int| i + 1 <= a < n implies updates@.contains_key(#[trigger] keys@[a]) == old_updates.contains_key(keys@[a])
                && (old_updates.contains_key(keys@[a]) ==> updates@[keys@[a]] == old_updates[keys@[a]]) by {
                assert(keys@[a] != keys@[i as int]);
            }
            assert forall|a: int| 0 <= a < i + 1 && old_browsers.contains_key(#[trigger] keys@[a]) implies if old_updates.contains_key(keys@[a]) {
                spec_browser_updated(
                    *old(state),
                    old_browsers[keys@[a]],
                    state.repo_files_browsers.browsers@[keys@[a]],
                    old_updates[keys@[a]].repo_status,
                    old_updates[keys@[a]].dec,
                )
            } else {
                state.repo_files_browsers.browsers@[keys@[a]] == old_browsers[keys@[a]]
            } by {
                if a < i {
                    assert(keys@[a] != keys@[i as int]);
                }
            }
            assert forall|j: int| old(notify).events@.len() <= j < notify.events@.len() implies notify.events@[j]
                == Event::RepoFilesBrowsers by {
                if j < ev0.len() {
                    assert(ev0[j] == Event::RepoFilesBrowsers);
                }
            }
        }
        i = i + 1;
    }
    proof {
        assert forall|k: u32| #[trigger] old_browsers.contains_key(k) implies if old_updates.contains_key(k) {
            spec_browser_updated(
                *old(state),
                old_browsers[k],
                state.repo_files_browsers.browsers@[k],
                old_updates[k].repo_status,
                old_updates[k].dec,
            )
        } else {
            state.repo_files_browsers.browsers@[k] == old_browsers[k]
        } by {
            let a = choose|a: int| 0 <= a < n && keys@[a] == k;
            assert(old_browsers.contains_key(keys@[a]));
        }
    }
}

} // verus!
