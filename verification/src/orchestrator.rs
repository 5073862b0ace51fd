//! The decisions of one sync run.
//!
//! The orchestrator performs no request itself. It is handed what happened
//! to the request it asked for last and answers with the next one: list the
//! media, fetch a file, delete a file that was just fetched, or stop. Files
//! are visited in catalog order, one at a time. A file whose fetch failed is
//! left on the camera and the walk goes on with the next file; how a delete
//! ended does not change the walk. A listing that failed ends the run before
//! any file is touched.

use vstd::prelude::*;

use crate::catalog::remote_views;
use crate::catalog::Catalog;
use crate::catalog::CatalogView;
use crate::catalog::RemoteFile;
use crate::catalog::RemoteFileView;

verus! {

/// Where a run stands.
#[derive(Clone, Copy, PartialEq, Eq, Structural, Debug)]
pub enum Phase {
    /// Nothing was asked for yet.
    Idle,
    /// The listing was asked for.
    Listing,
    /// The fetch of the current file was asked for.
    Fetching,
    /// The delete of the current file was asked for.
    Deleting,
    /// Every file was visited.
    Done,
    /// The listing failed.
    Failed,
}

/// What happened to the request asked for last.
#[derive(Clone, Debug, PartialEq, Eq)]
pub enum Event {
    /// The run is to begin.
    Start,
    /// The listing arrived.
    Listed(Catalog),
    /// The listing could not be had.
    ListFailed,
    /// The current file is stored locally.
    Fetched,
    /// The current file could not be stored.
    FetchFailed,
    /// The delete request went through.
    Deleted,
    /// The delete request did not go through.
    DeleteFailed,
}

/// What is to be done next.
#[derive(Clone, Debug, PartialEq, Eq)]
pub enum Action {
    /// Ask the camera for its listing.
    List,
    /// Download this file.
    Fetch(RemoteFile),
    /// Delete this file on the camera.
    Delete(RemoteFile),
    /// The walk is over.
    Complete,
    /// The run ends without a walk.
    Abort,
}

/// An event as the contracts see it.
pub enum EventView {
    Start,
    Listed(CatalogView),
    ListFailed,
    Fetched,
    FetchFailed,
    Deleted,
    DeleteFailed,
}

/// An action as the contracts see it.
pub enum ActionView {
    List,
    Fetch(RemoteFileView),
    Delete(RemoteFileView),
    Complete,
    Abort,
}

impl View for Event {
    type V = EventView;

    open spec fn view(&self) -> EventView {
        match self {
            Event::Start => EventView::Start,
            Event::Listed(catalog) => EventView::Listed(catalog@),
            Event::ListFailed => EventView::ListFailed,
            Event::Fetched => EventView::Fetched,
            Event::FetchFailed => EventView::FetchFailed,
            Event::Deleted => EventView::Deleted,
            Event::DeleteFailed => EventView::DeleteFailed,
        }
    }
}

impl View for Action {
    type V = ActionView;

    open spec fn view(&self) -> ActionView {
        match self {
            Action::List => ActionView::List,
            Action::Fetch(file) => ActionView::Fetch(file@),
            Action::Delete(file) => ActionView::Delete(file@),
            Action::Complete => ActionView::Complete,
            Action::Abort => ActionView::Abort,
        }
    }
}

/// The view of an action that may be absent.
pub open spec fn action_view(action: Option<Action>) -> Option<ActionView> {
    match action {
        Some(a) => Some(a@),
        None => None,
    }
}

/// A run as the contracts see it: the phase, the files of the walk in
/// order, and the position of the current file among them.
pub struct State {
    pub phase: Phase,
    pub files: Seq<RemoteFileView>,
    pub cursor: nat,
}

impl State {
    /// The state before anything was asked for.
    pub open spec fn initial() -> State {
        State { phase: Phase::Idle, files: Seq::empty(), cursor: 0 }
    }

    /// The states a run can be in: a current file exists while one is being
    /// fetched or deleted, the walk is known only once the listing arrived,
    /// and it is done only past its last file.
    pub open spec fn wf(self) -> bool {
        match self.phase {
            Phase::Idle | Phase::Listing | Phase::Failed => self.files.len() == 0 && self.cursor == 0,
            Phase::Fetching | Phase::Deleting => self.cursor < self.files.len(),
            Phase::Done => self.cursor == self.files.len(),
        }
    }

    /// The file being fetched or deleted.
    pub open spec fn current(self) -> RemoteFileView {
        self.files[self.cursor as int]
    }

    /// Turns to the file at `cursor`: asks for its fetch, or ends the walk
    /// when the files are used up.
    pub open spec fn visit(files: Seq<RemoteFileView>, cursor: nat) -> (State, Option<ActionView>) {
        if cursor < files.len() {
            (
                State { phase: Phase::Fetching, files, cursor },
                Some(ActionView::Fetch(files[cursor as int])),
            )
        } else {
            (State { phase: Phase::Done, files, cursor: files.len() }, Some(ActionView::Complete))
        }
    }

    /// The state after `event` and the action it calls for. An event that
    /// does not answer what was asked for last changes nothing and calls for
    /// nothing.
    pub open spec fn step(self, event: EventView) -> (State, Option<ActionView>) {
        match (self.phase, event) {
            (Phase::Idle, EventView::Start) => (
                State { phase: Phase::Listing, ..self },
                Some(ActionView::List),
            ),
            (Phase::Listing, EventView::Listed(catalog)) => State::visit(
                catalog.remote_files(),
                0,
            ),
            (Phase::Listing, EventView::ListFailed) => (
                State { phase: Phase::Failed, ..self },
                Some(ActionView::Abort),
            ),
            (Phase::Fetching, EventView::Fetched) => (
                State { phase: Phase::Deleting, ..self },
                Some(ActionView::Delete(self.current())),
            ),
            (Phase::Fetching, EventView::FetchFailed) => State::visit(self.files, self.cursor + 1),
            (Phase::Deleting, EventView::Deleted) => State::visit(self.files, self.cursor + 1),
            (Phase::Deleting, EventView::DeleteFailed) => State::visit(self.files, self.cursor + 1),
            _ => (self, None),
        }
    }
}

/// A step never leaves the states a run can be in.
pub proof fn law_step_keeps_wf(s: State, event: EventView)
    requires
        s.wf(),
    ensures
        s.step(event).0.wf(),
{
}

/// In whatever state and on whatever event, a delete is called for only by
/// the news that the current file was fetched, and it is the delete of that
/// file.
pub proof fn law_delete_is_gated(s: State, event: EventView)
    requires
        s.step(event).1 matches Some(ActionView::Delete(_)),
    ensures
        s.phase == Phase::Fetching,
        event == EventView::Fetched,
        s.step(event).1 == Some(ActionView::Delete(s.current())),
        s.step(event).0 == (State { phase: Phase::Deleting, ..s }),
{
}

/// A fetch that failed and a delete that ended, either way, lead on alike:
/// to the fetch of the file after the current one, or to the end of the
/// walk when there is none.
pub proof fn law_walk_goes_on(s: State)
    requires
        s.wf(),
        s.phase == Phase::Fetching || s.phase == Phase::Deleting,
    ensures
        ({
            let failed = (State { phase: Phase::Fetching, ..s }).step(EventView::FetchFailed);
            let deleted = (State { phase: Phase::Deleting, ..s }).step(EventView::Deleted);
            let undeleted = (State { phase: Phase::Deleting, ..s }).step(EventView::DeleteFailed);
            &&& failed == deleted
            &&& failed == undeleted
            &&& failed.1 == if s.cursor + 1 < s.files.len() {
                Some(ActionView::Fetch(s.files[s.cursor as int + 1]))
            } else {
                Some(ActionView::Complete)
            }
        }),
{
}

/// The state machine of one sync run.
pub struct Orchestrator {
    phase: Phase,
    files: Vec<RemoteFile>,
    cursor: usize,
}

impl View for Orchestrator {
    type V = State;

    closed spec fn view(&self) -> State {
        State { phase: self.phase, files: remote_views(self.files@), cursor: self.cursor as nat }
    }
}

impl Orchestrator {
    #[verifier::type_invariant]
    spec fn inv(self) -> bool {
        self@.wf()
    }

    /// A run that has not begun.
    pub fn new() -> (run: Orchestrator)
        ensures
            run@ == State::initial(),
    {
        let run = Orchestrator { phase: Phase::Idle, files: Vec::new(), cursor: 0 };
        assert(run@.files == Seq::<RemoteFileView>::empty());
        run
    }

    /// The phase the run is in.
    pub fn phase(&self) -> (phase: Phase)
        ensures
            phase == self@.phase,
    {
        self.phase
    }

    fn visit(files: Vec<RemoteFile>, cursor: usize) -> (next: (Orchestrator, Option<Action>))
        requires
            cursor <= files@.len(),
        ensures
            (next.0@, action_view(next.1)) == State::visit(remote_views(files@), cursor as nat),
    {
        if cursor < files.len() {
            let file = files[cursor].duplicate();
            (Orchestrator { phase: Phase::Fetching, files, cursor }, Some(Action::Fetch(file)))
        } else {
            let end = files.len();
            (Orchestrator { phase: Phase::Done, files, cursor: end }, Some(Action::Complete))
        }
    }

    /// Takes in what happened to the request asked for last and says what is
    /// to be done next. `None` is the answer to an event that the run was not
    /// waiting for; the run is then unchanged.
    pub fn step(self, event: Event) -> (next: (Orchestrator, Option<Action>))
        ensures
            (next.0@, action_view(next.1)) == self@.step(event@),
            next.0@.wf(),
    {
        proof {
            use_type_invariant(&self);
        }
        assert(self@.files.len() == self.files.len());
        match self.phase {
            Phase::Idle => match event {
                Event::Start => (
                    Orchestrator { phase: Phase::Listing, files: self.files, cursor: self.cursor },
                    Some(Action::List),
                ),
                _ => (self, None),
            },
            Phase::Listing => match event {
                Event::Listed(catalog) => {
                    let files = catalog.remote_files();
                    Orchestrator::visit(files, 0)
                },
                Event::ListFailed => (
                    Orchestrator { phase: Phase::Failed, files: self.files, cursor: self.cursor },
                    Some(Action::Abort),
                ),
                _ => (self, None),
            },
            Phase::Fetching => match event {
                Event::Fetched => {
                    let file = self.files[self.cursor].duplicate();
                    (
                        Orchestrator {
                            phase: Phase::Deleting,
                            files: self.files,
                            cursor: self.cursor,
                        },
                        Some(Action::Delete(file)),
                    )
                },
                Event::FetchFailed => Orchestrator::visit(self.files, self.cursor + 1),
                _ => (self, None),
            },
            Phase::Deleting => match event {
                Event::Deleted => Orchestrator::visit(self.files, self.cursor + 1),
                Event::DeleteFailed => Orchestrator::visit(self.files, self.cursor + 1),
                _ => (self, None),
            },
            Phase::Done => (self, None),
            Phase::Failed => (self, None),
        }
    }
}

} // verus!
