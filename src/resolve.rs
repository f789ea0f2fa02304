//! The search for a live socket, starting from a hint path and falling back to
//! the other sockets of the hint's directory, removing dead ones on the way.
//!
//! The search does no I/O itself: it is a machine that, fed the outcome of each
//! action it asks for, decides the next one. Its caller connects, removes files
//! and lists the directory, then hands back what happened.

use vstd::prelude::*;
use crate::classify::{is_like_vscode_ipc_socket, looks_like_endpoint};

verus! {

/// The directory that holds a path, where it has one (`Path::parent`).
pub uninterp spec fn parent_of(path: Seq<char>) -> Option<Seq<char>>;

/// Relies on `Path::parent`: the path without its final component, if any. The
/// parent of a `&str` path is valid Unicode, so `Path::to_str` only converts.
#[verifier::external_body]
fn parent(path: &str) -> (r: Option<String>)
    ensures
        match r {
            Some(dir) => parent_of(path@) == Some(dir@),
            None => parent_of(path@) is None,
        },
{
    std::path::Path::new(path).parent().and_then(|d| d.to_str()).map(|d| d.to_string())
}

/// Where the search stands.
#[derive(Clone, Copy, Debug, PartialEq, Eq, Structural)]
pub enum Stage {
    /// Waiting to hear whether the hint accepted a connection.
    Hint,
    /// The hint is dead: its removal was asked for.
    HintDead,
    /// Waiting for the entries of the hint's directory.
    Listing,
    /// Waiting to hear whether the entry at this index accepted a connection.
    Entry(usize),
    /// The entry at this index is dead: its removal was asked for.
    EntryDead(usize),
    /// The search has ended.
    Done,
}

/// What the search asks its caller to do next.
#[derive(Debug)]
pub enum Action {
    /// Try to connect to the socket at this path.
    Connect(String),
    /// Remove the file at this path; whether that works does not matter.
    Remove(String),
    /// List the entries of this directory, as full paths.
    ReadDir(String),
    /// The search ended on this live socket.
    Found(String),
    /// The search ended without a live socket.
    NotFound,
    /// The search ended because the directory could not be listed.
    Failed,
}

/// What happened when the caller did the last action.
#[derive(Debug)]
pub enum Event {
    Connected,
    Refused,
    Removed,
    Listed(Vec<String>),
    ListFailed,
}

pub ghost enum ActionView {
    Connect(Seq<char>),
    Remove(Seq<char>),
    ReadDir(Seq<char>),
    Found(Seq<char>),
    NotFound,
    Failed,
}

pub ghost enum EventView {
    Connected,
    Refused,
    Removed,
    Listed(Seq<Seq<char>>),
    ListFailed,
}

pub open spec fn paths(v: Seq<String>) -> Seq<Seq<char>> {
    v.map_values(|s: String| s@)
}

impl View for Action {
    type V = ActionView;

    open spec fn view(&self) -> ActionView {
        match self {
            Action::Connect(p) => ActionView::Connect(p@),
            Action::Remove(p) => ActionView::Remove(p@),
            Action::ReadDir(d) => ActionView::ReadDir(d@),
            Action::Found(p) => ActionView::Found(p@),
            Action::NotFound => ActionView::NotFound,
            Action::Failed => ActionView::Failed,
        }
    }
}

impl View for Event {
    type V = EventView;

    open spec fn view(&self) -> EventView {
        match self {
            Event::Connected => EventView::Connected,
            Event::Refused => EventView::Refused,
            Event::Removed => EventView::Removed,
            Event::Listed(v) => EventView::Listed(paths(v@)),
            Event::ListFailed => EventView::ListFailed,
        }
    }
}

impl ActionView {
    /// An action after which the search asks for nothing more.
    pub open spec fn is_final(self) -> bool {
        self is Found || self is NotFound || self is Failed
    }
}

pub ghost struct SearchView {
    pub hint: Seq<char>,
    pub stage: Stage,
    pub entries: Seq<Seq<char>>,
}

/// A search for a live socket, begun at a hint path.
pub struct Search {
    hint: String,
    stage: Stage,
    entries: Vec<String>,
}

impl View for Search {
    type V = SearchView;

    closed spec fn view(&self) -> SearchView {
        SearchView { hint: self.hint@, stage: self.stage, entries: paths(self.entries@) }
    }
}

impl SearchView {
    /// An entry index held by the stage lies within the entries.
    pub open spec fn wf(self) -> bool {
        match self.stage {
            Stage::Entry(j) => j < self.entries.len(),
            Stage::EntryDead(j) => j < self.entries.len(),
            _ => true,
        }
    }

    pub open spec fn with(self, stage: Stage) -> SearchView {
        SearchView { stage, ..self }
    }
}

/// The index of the first entry at or after `i` that follows the naming
/// convention, or the number of entries where none does.
pub open spec fn first_candidate(entries: Seq<Seq<char>>, i: int) -> int
    decreases entries.len() - i,
{
    if i >= entries.len() {
        entries.len() as int
    } else if looks_like_endpoint(entries[i]) {
        i
    } else {
        first_candidate(entries, i + 1)
    }
}

/// Going on with the entries from index `i`: probe the next candidate, or end.
pub open spec fn scan_from(s: SearchView, i: int) -> (SearchView, ActionView) {
    let j = first_candidate(s.entries, i);
    if j < s.entries.len() {
        (s.with(Stage::Entry(j as usize)), ActionView::Connect(s.entries[j]))
    } else {
        (s.with(Stage::Done), ActionView::NotFound)
    }
}

/// Once the hint is ruled out: list its directory, or end where it has none.
pub open spec fn after_hint(s: SearchView) -> (SearchView, ActionView) {
    match parent_of(s.hint) {
        Some(dir) => (s.with(Stage::Listing), ActionView::ReadDir(dir)),
        None => (s.with(Stage::Done), ActionView::NotFound),
    }
}

/// How a search begins: the hint is probed first, if it follows the convention.
pub open spec fn start(hint: Seq<char>) -> (SearchView, ActionView) {
    let s = SearchView { hint, stage: Stage::Hint, entries: Seq::empty() };
    if looks_like_endpoint(hint) {
        (s, ActionView::Connect(hint))
    } else {
        after_hint(s)
    }
}

/// One step of the search: from where it stands and what just happened, where
/// it stands next and what it asks for.
pub open spec fn next(s: SearchView, e: EventView) -> (SearchView, ActionView) {
    match s.stage {
        Stage::Hint => if e is Connected {
            (s.with(Stage::Done), ActionView::Found(s.hint))
        } else {
            (s.with(Stage::HintDead), ActionView::Remove(s.hint))
        },
        Stage::HintDead => after_hint(s),
        Stage::Listing => match e {
            EventView::Listed(v) => scan_from(SearchView { entries: v, ..s }, 0),
            _ => (s.with(Stage::Done), ActionView::Failed),
        },
        Stage::Entry(j) => if e is Connected {
            (s.with(Stage::Done), ActionView::Found(s.entries[j as int]))
        } else {
            (s.with(Stage::EntryDead(j)), ActionView::Remove(s.entries[j as int]))
        },
        Stage::EntryDead(j) => scan_from(s, j + 1),
        Stage::Done => (s, ActionView::NotFound),
    }
}

proof fn lemma_first_candidate_skips(entries: Seq<Seq<char>>, i: int, k: int)
    requires
        0 <= i <= k <= entries.len(),
        forall|m: int| i <= m < k ==> !looks_like_endpoint(#[trigger] entries[m]),
    ensures
        first_candidate(entries, i) == first_candidate(entries, k),
    decreases k - i,
{
    if i < k {
        lemma_first_candidate_skips(entries, i + 1, k);
    }
}

/// Begins a search for a live socket at `socket_path`: returns the search and
/// the first thing it asks for. A hint that follows the naming convention is
/// probed first; any other goes straight to its directory.
pub fn find_best_match_and_clean(socket_path: &str) -> (r: (Search, Action))
    ensures
        r.0@.wf(),
        (r.0@, r.1@) == start(socket_path@),
{
    let mut search = Search { hint: socket_path.to_string(), stage: Stage::Hint, entries: Vec::new() };
    proof {
        assert(search@.entries =~= Seq::empty());
    }
    if is_like_vscode_ipc_socket(socket_path) {
        let a = Action::Connect(socket_path.to_string());
        (search, a)
    } else {
        let a = search.leave_hint();
        (search, a)
    }
}

impl Search {
    fn leave_hint(&mut self) -> (a: Action)
        ensures
            (final(self)@, a@) == after_hint(old(self)@),
    {
        match parent(self.hint.as_str()) {
            Some(dir) => {
                self.stage = Stage::Listing;
                Action::ReadDir(dir)
            },
            None => {
                self.stage = Stage::Done;
                Action::NotFound
            },
        }
    }

    fn scan(&mut self, from: usize) -> (a: Action)
        requires
            from <= old(self).entries.len(),
        ensures
            final(self)@.wf(),
            (final(self)@, a@) == scan_from(old(self)@, from as int),
    {
        let mut i: usize = from;
        while i < self.entries.len()
            invariant
                from <= i <= self.entries.len(),
                self@ == old(self)@,
                forall|m: int| from <= m < i ==> !looks_like_endpoint(#[trigger] self@.entries[m]),
            decreases self.entries.len() - i,
        {
            if is_like_vscode_ipc_socket(self.entries[i].as_str()) {
                proof {
                    lemma_first_candidate_skips(self@.entries, from as int, i as int);
                }
                self.stage = Stage::Entry(i);
                return Action::Connect(self.entries[i].clone());
            }
            i = i + 1;
        }
        proof {
            lemma_first_candidate_skips(self@.entries, from as int, i as int);
        }
        self.stage = Stage::Done;
        Action::NotFound
    }

    /// Whether the search has ended.
    pub fn is_done(&self) -> (r: bool)
        ensures
            r == (self@.stage is Done),
    {
        matches!(self.stage, Stage::Done)
    }

    /// Takes the outcome of the last action and returns the next one.
    pub fn advance(&mut self, event: Event) -> (a: Action)
        requires
            old(self)@.wf(),
            !(old(self)@.stage is Done),
        ensures
            final(self)@.wf(),
            (final(self)@, a@) == next(old(self)@, event@),
    {
        match self.stage {
            Stage::Hint => match event {
                Event::Connected => {
                    self.stage = Stage::Done;
                    Action::Found(self.hint.clone())
                },
                _ => {
                    self.stage = Stage::HintDead;
                    Action::Remove(self.hint.clone())
                },
            },
            Stage::HintDead => self.leave_hint(),
            Stage::Listing => match event {
                Event::Listed(v) => {
                    self.entries = v;
                    self.scan(0)
                },
                _ => {
                    self.stage = Stage::Done;
                    Action::Failed
                },
            },
            Stage::Entry(j) => match event {
                Event::Connected => {
                    self.stage = Stage::Done;
                    Action::Found(self.entries[j].clone())
                },
                _ => {
                    self.stage = Stage::EntryDead(j);
                    Action::Remove(self.entries[j].clone())
                },
            },
            Stage::EntryDead(j) => {
                let n = self.entries.len();
                assert(self@.entries.len() == n);
                self.scan(j + 1)
            },
            Stage::Done => Action::NotFound,
        }
    }
}

} // verus!
