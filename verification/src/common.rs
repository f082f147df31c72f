//! Load status, change events and id counters shared by all parts of the state.
use vstd::prelude::*;

verus! {

/// The load status of a piece of state. `loaded` says whether data was
/// loaded at some earlier point, so that stale data can still be shown.
#[derive(Debug)]
pub enum Status<E> {
    Initial,
    Loading { loaded: bool },
    Loaded,
    Error { error: E, loaded: bool },
}

impl<E> Status<E> {
    pub open spec fn spec_loaded(&self) -> bool {
        match self {
            Status::Initial => false,
            Status::Loading { loaded } => *loaded,
            Status::Loaded => true,
            Status::Error { loaded, .. } => *loaded,
        }
    }

    /// Whether data was loaded at some point.
    pub fn loaded(&self) -> (r: bool)
        ensures
            r == self.spec_loaded(),
    {
        match self {
            Status::Initial => false,
            Status::Loading { loaded } => *loaded,
            Status::Loaded => true,
            Status::Error { loaded, .. } => *loaded,
        }
    }

    pub fn is_loading(&self) -> (r: bool)
        ensures
            r == (*self is Loading),
    {
        match self {
            Status::Loading { .. } => true,
            _ => false,
        }
    }

    pub fn is_loaded(&self) -> (r: bool)
        ensures
            r == (*self is Loaded),
    {
        match self {
            Status::Loaded => true,
            _ => false,
        }
    }

    pub fn is_error(&self) -> (r: bool)
        ensures
            r == (*self is Error),
    {
        match self {
            Status::Error { .. } => true,
            _ => false,
        }
    }
}

/// What part of the state changed; listeners subscribe to these.
#[derive(Clone, Copy, Debug, PartialEq, Eq, Structural)]
pub enum Event {
    RemoteFiles,
    RemoteFilesBrowsers,
    RepoConfigBackup,
    RepoCreate,
    RepoFiles,
    RepoFilesBrowsers,
    RepoFilesDetails,
    RepoFilesDetailsContentData,
    RepoFilesMove,
}

/// The events that one mutation announced, in order.
#[derive(Debug)]
pub struct Notify {
    pub events: Vec<Event>,
}

impl Notify {
    pub fn new() -> (n: Self)
        ensures
            n.events@ == Seq::<Event>::empty(),
    {
        Notify { events: Vec::new() }
    }

    /// Announces that `event`'s part of the state changed.
    pub fn notify(&mut self, event: Event)
        ensures
            final(self).events@ == old(self).events@.push(event),
    {
        self.events.push(event);
    }
}

/// The events announced are those before and then `e`, zero or more times.
pub open spec fn announced_only(old_events: Seq<Event>, new_events: Seq<Event>, e: Event) -> bool {
    &&& old_events.len() <= new_events.len()
    &&& forall|i: int| 0 <= i < old_events.len() ==> new_events[i] == old_events[i]
    &&& forall|i: int| old_events.len() <= i < new_events.len() ==> new_events[i] == e
}

/// Hands out increasing ids, starting at 0.
#[derive(Debug)]
pub struct NextId {
    pub value: u32,
}

impl NextId {
    pub fn new() -> (r: Self)
        ensures
            r.value == 0,
    {
        NextId { value: 0 }
    }

    /// Returns the current id and moves past it.
    pub fn next(&mut self) -> (id: u32)
        requires
            old(self).value < u32::MAX,
        ensures
            id == old(self).value,
            final(self).value == old(self).value + 1,
    {
        let id = self.value;
        self.value = self.value + 1;
        id
    }
}

/// The direction of a sort.
#[derive(Clone, Copy, Debug, PartialEq, Eq, Structural)]
pub enum SortDirection {
    Asc,
    Desc,
}

impl SortDirection {
    pub open spec fn spec_reverse(self) -> SortDirection {
        match self {
            SortDirection::Asc => SortDirection::Desc,
            SortDirection::Desc => SortDirection::Asc,
        }
    }

    /// The other direction.
    pub fn reverse(self) -> (r: SortDirection)
        ensures
            r == self.spec_reverse(),
    {
        match self {
            SortDirection::Asc => SortDirection::Desc,
            SortDirection::Desc => SortDirection::Asc,
        }
    }

    pub open spec fn spec_ordering(self, o: int) -> int {
        match self {
            SortDirection::Asc => o,
            SortDirection::Desc => -o,
        }
    }

    /// Applies the direction to the outcome of a comparison (-1, 0 or 1).
    pub fn ordering(self, o: i8) -> (r: i8)
        requires
            -1 <= o <= 1,
        ensures
            r as int == self.spec_ordering(o as int),
    {
        match self {
            SortDirection::Asc => o,
            SortDirection::Desc => -o,
        }
    }
}

/// Whether folders are listed before files.
#[derive(Clone, Copy, Debug, PartialEq, Eq, Structural)]
pub enum SortGrouping {
    DirsFirst,
    NoGrouping,
}

} // verus!
