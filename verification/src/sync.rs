//! One synchronisation pass, step by step.
//!
//! A pass loads the stored index, fetches again each comic that failed in an
//! earlier pass, asks the archive how far it now extends, fetches the comics
//! that the index does not hold yet, and stores the result. The
//! [`Synchronizer`] decides what is to be done next; the caller does it and
//! reports what came of it. Nothing is stored before every comic has been
//! tried, and nothing at all when the stored index could not be read.
//!
//! A comic that fails is never given up for good: it is pending, and every
//! later pass tries it again, once. Why it failed in the present pass is kept
//! beside it, so that the caller can tell the comics that the archive
//! answered for without serving them from those that could not be asked for.

use vstd::prelude::*;
use crate::error::IndexError;
use crate::item::{comic_views, Comic, ComicView};
use crate::remote::outcome_view;

verus! {

/// How far a pass has got.
#[derive(Clone, Copy, Debug, PartialEq, Eq, Structural)]
pub enum Phase {
    /// The stored index is awaited.
    Loading,
    /// The comics that failed in earlier passes are fetched again.
    Repairing,
    /// The archive's extent is awaited.
    Bounding,
    /// The comics that the index does not hold yet are fetched.
    Discovering,
    /// The index is being stored.
    Saving,
    /// The pass is complete and the index stored.
    Finished,
    /// The pass was given up for this reason.
    Failed(IndexError),
}

/// What the caller is to do next.
#[derive(Clone, Copy, Debug, PartialEq, Eq, Structural)]
pub enum Action {
    /// Read the stored index, after creating it empty where it does not
    /// exist yet, and report [`Event::Loaded`] or [`Event::Unreadable`].
    Load,
    /// Fetch the comic with this identifier and report [`Event::Resolved`].
    Resolve(u64),
    /// Ask the archive for its latest comic and report [`Event::UpperBound`].
    FetchLatest,
    /// Store the snapshot and the pending identifiers as they now are, and
    /// report [`Event::Saved`] or [`Event::SaveFailed`].
    Persist,
    /// Nothing: the pass is complete.
    Finish,
    /// Nothing: the pass was given up.
    Abort(IndexError),
}

/// What the caller reports.
#[derive(Debug)]
pub enum Event {
    /// The stored index was read and holds these comics and these
    /// identifiers of comics still to fetch.
    Loaded { snapshot: Vec<Comic>, pending: Vec<u64> },
    /// The stored index could not be read as what it should hold.
    Unreadable,
    /// The comic asked for was fetched, or was not.
    Resolved(Result<Comic, IndexError>),
    /// The archive extends to this identifier, or did not say.
    UpperBound(Result<u64, IndexError>),
    /// The index was stored.
    Saved,
    /// The index could not be stored.
    SaveFailed,
}

/// The mathematical value of an [`Event`].
pub enum EventView {
    Loaded { snapshot: Seq<ComicView>, pending: Seq<u64> },
    Unreadable,
    Resolved(Result<ComicView, IndexError>),
    UpperBound(Result<u64, IndexError>),
    Saved,
    SaveFailed,
}

impl View for Event {
    type V = EventView;

    open spec fn view(&self) -> EventView {
        match self {
            Event::Loaded { snapshot, pending } => EventView::Loaded {
                snapshot: comic_views(snapshot@),
                pending: pending@,
            },
            Event::Unreadable => EventView::Unreadable,
            Event::Resolved(outcome) => EventView::Resolved(outcome_view(*outcome)),
            Event::UpperBound(bound) => EventView::UpperBound(*bound),
            Event::Saved => EventView::Saved,
            Event::SaveFailed => EventView::SaveFailed,
        }
    }
}

/// The identifiers from `first` to `last`, both included, in rising order.
pub open spec fn id_range(first: int, last: int) -> Seq<u64> {
    Seq::new((if first <= last { last - first + 1 } else { 0 }) as nat, |k: int| (first + k) as u64)
}

/// The state of a pass.
pub struct PassState {
    pub phase: Phase,
    /// The comics held so far, in the order in which they were stored or
    /// fetched.
    pub snapshot: Seq<ComicView>,
    /// The identifiers of the comics that failed in this pass.
    pub pending: Seq<u64>,
    /// Why each of them failed, in the same order.
    pub causes: Seq<IndexError>,
    /// The identifiers still to fetch in the present phase, the next one
    /// first.
    pub todo: Seq<u64>,
}

impl PassState {
    /// The state in which every pass begins.
    pub open spec fn start() -> PassState {
        PassState {
            phase: Phase::Loading,
            snapshot: Seq::empty(),
            pending: Seq::empty(),
            causes: Seq::empty(),
            todo: Seq::empty(),
        }
    }

    /// There is something to fetch exactly in the two phases that fetch,
    /// each failure has its cause, and only a failure of the store ends a
    /// pass.
    pub open spec fn wf(self) -> bool {
        &&& (self.phase is Repairing || self.phase is Discovering) <==> self.todo.len() > 0
        &&& self.causes.len() == self.pending.len()
        &&& self.phase matches Phase::Failed(error) ==> error.is_fatal()
    }

    /// What the caller is to do in this state.
    pub open spec fn awaited(self) -> Action {
        match self.phase {
            Phase::Loading => Action::Load,
            Phase::Repairing => Action::Resolve(self.todo[0]),
            Phase::Bounding => Action::FetchLatest,
            Phase::Discovering => Action::Resolve(self.todo[0]),
            Phase::Saving => Action::Persist,
            Phase::Finished => Action::Finish,
            Phase::Failed(error) => Action::Abort(error),
        }
    }

    /// The number of comics accounted for: those held and those pending.
    pub open spec fn count(self) -> nat {
        self.snapshot.len() + self.pending.len()
    }

    /// The state after the stored index has arrived. The identifiers that
    /// were pending are now to be fetched again, in their stored order, and
    /// none is pending until it fails anew.
    pub open spec fn loaded(self, snapshot: Seq<ComicView>, pending: Seq<u64>) -> PassState {
        PassState {
            phase: if pending.len() > 0 {
                Phase::Repairing
            } else {
                Phase::Bounding
            },
            snapshot,
            pending: Seq::empty(),
            causes: Seq::empty(),
            todo: pending,
        }
    }

    /// The state after the comic asked for has been fetched or has failed. A
    /// comic that was fetched joins the snapshot at its end; the identifier
    /// of one that failed joins the pending ones at their end, whatever the
    /// failure was, and the failure is kept as its cause. No failure ends the
    /// pass.
    pub open spec fn resolved(self, outcome: Result<ComicView, IndexError>) -> PassState {
        let rest = self.todo.drop_first();
        PassState {
            phase: if rest.len() > 0 {
                self.phase
            } else if self.phase is Repairing {
                Phase::Bounding
            } else {
                Phase::Saving
            },
            snapshot: match outcome {
                Ok(comic) => self.snapshot.push(comic),
                Err(_) => self.snapshot,
            },
            pending: match outcome {
                Ok(_) => self.pending,
                Err(_) => self.pending.push(self.todo[0]),
            },
            causes: match outcome {
                Ok(_) => self.causes,
                Err(error) => self.causes.push(error),
            },
            todo: rest,
        }
    }

    /// The state after the archive has told its extent, or has not. The
    /// comics to fetch are those from the number accounted for, plus one, up
    /// to the archive's latest. Where the archive did not say, none is.
    pub open spec fn bounded(self, bound: Result<u64, IndexError>) -> PassState {
        let todo = match bound {
            Ok(latest) => id_range(self.count() as int + 1, latest as int),
            Err(_) => Seq::empty(),
        };
        PassState {
            phase: if todo.len() > 0 {
                Phase::Discovering
            } else {
                Phase::Saving
            },
            todo,
            ..self
        }
    }

    /// The state after an event. An event that does not answer what was
    /// asked for changes nothing.
    pub open spec fn step(self, event: EventView) -> PassState {
        match (self.phase, event) {
            (Phase::Loading, EventView::Loaded { snapshot, pending }) => self.loaded(
                snapshot,
                pending,
            ),
            (Phase::Loading, EventView::Unreadable) => PassState {
                phase: Phase::Failed(IndexError::StoreCorrupt),
                ..self
            },
            (Phase::Repairing, EventView::Resolved(outcome)) => self.resolved(outcome),
            (Phase::Bounding, EventView::UpperBound(bound)) => self.bounded(bound),
            (Phase::Discovering, EventView::Resolved(outcome)) => self.resolved(outcome),
            (Phase::Saving, EventView::Saved) => PassState { phase: Phase::Finished, ..self },
            (Phase::Saving, EventView::SaveFailed) => PassState {
                phase: Phase::Failed(IndexError::StoreUnwritable),
                ..self
            },
            _ => self,
        }
    }
}

/// Every step leaves the state well formed.
pub proof fn step_keeps_wf(state: PassState, event: EventView)
    requires
        state.wf(),
    ensures
        state.step(event).wf(),
{
}

/// A synchronisation pass in progress.
#[derive(Debug)]
pub struct Synchronizer {
    phase: Phase,
    snapshot: Vec<Comic>,
    pending: Vec<u64>,
    causes: Vec<IndexError>,
    retry: Vec<u64>,
    cursor: usize,
    next: u64,
    last: u64,
}

impl View for Synchronizer {
    type V = PassState;

    closed spec fn view(&self) -> PassState {
        PassState {
            phase: self.phase,
            snapshot: comic_views(self.snapshot@),
            pending: self.pending@,
            causes: self.causes@,
            todo: match self.phase {
                Phase::Repairing => self.retry@.skip(self.cursor as int),
                Phase::Discovering => id_range(self.next as int, self.last as int),
                _ => Seq::empty(),
            },
        }
    }
}

impl Synchronizer {
    #[verifier::type_invariant]
    spec fn work_at_hand(self) -> bool {
        &&& self.phase is Repairing ==> self.cursor < self.retry.len()
        &&& self.phase is Discovering ==> self.next <= self.last
        &&& self.causes.len() == self.pending.len()
        &&& self.phase matches Phase::Failed(error) ==> error.is_fatal()
    }

    /// Begins a pass. The stored index is to be read first.
    pub fn start() -> (sync: Synchronizer)
        ensures
            sync@ == PassState::start(),
    {
        let sync = Synchronizer {
            phase: Phase::Loading,
            snapshot: Vec::new(),
            pending: Vec::new(),
            causes: Vec::new(),
            retry: Vec::new(),
            cursor: 0,
            next: 0,
            last: 0,
        };
        assert(sync@.snapshot =~= Seq::empty());
        sync
    }

    /// How far the pass has got.
    pub fn phase(&self) -> (phase: Phase)
        ensures
            phase == self@.phase,
    {
        self.phase
    }

    /// The comics held so far.
    pub fn snapshot(&self) -> (snapshot: &Vec<Comic>)
        ensures
            comic_views(snapshot@) == self@.snapshot,
    {
        &self.snapshot
    }

    /// The identifiers of the comics that failed in this pass.
    pub fn pending(&self) -> (pending: &Vec<u64>)
        ensures
            pending@ == self@.pending,
    {
        &self.pending
    }

    /// Why each of the pending comics failed in this pass, in the order of
    /// [`Synchronizer::pending`]. A comic that fails with
    /// [`IndexError::Parse`] was answered for, but not with a comic: the
    /// archive may never serve it. One that fails otherwise was not answered
    /// for at all, and may arrive in a later pass. All are tried again in
    /// the next pass, once each.
    pub fn causes(&self) -> (causes: &Vec<IndexError>)
        ensures
            causes@ == self@.causes,
            causes@.len() == self@.pending.len(),
    {
        proof {
            use_type_invariant(self);
        }
        &self.causes
    }

    /// Gives up the state for the comics held.
    pub fn into_snapshot(self) -> (snapshot: Vec<Comic>)
        ensures
            comic_views(snapshot@) == self@.snapshot,
    {
        self.snapshot
    }

    /// What the caller is to do now.
    pub fn awaited(&self) -> (action: Action)
        ensures
            self@.wf(),
            action == self@.awaited(),
    {
        proof {
            use_type_invariant(self);
        }
        match self.phase {
            Phase::Loading => Action::Load,
            Phase::Repairing => Action::Resolve(self.retry[self.cursor]),
            Phase::Bounding => Action::FetchLatest,
            Phase::Discovering => Action::Resolve(self.next),
            Phase::Saving => Action::Persist,
            Phase::Finished => Action::Finish,
            Phase::Failed(error) => Action::Abort(error),
        }
    }

    /// Puts the result of fetching `id` where it belongs.
    fn record(
        snapshot: &mut Vec<Comic>,
        pending: &mut Vec<u64>,
        causes: &mut Vec<IndexError>,
        id: u64,
        outcome: Result<Comic, IndexError>,
    )
        ensures
            final(causes)@ == (match outcome {
                Ok(_) => old(causes)@,
                Err(error) => old(causes)@.push(error),
            }),
            comic_views(final(snapshot)@) == (match outcome_view(outcome) {
                Ok(comic) => comic_views(old(snapshot)@).push(comic),
                Err(_) => comic_views(old(snapshot)@),
            }),
            final(pending)@ == (match outcome {
                Ok(_) => old(pending)@,
                Err(_) => old(pending)@.push(id),
            }),
    {
        match outcome {
            Ok(comic) => {
                snapshot.push(comic);
            },
            Err(error) => {
                pending.push(id);
                causes.push(error);
            },
        }
    }

    /// The first identifier that the index does not account for, where it
    /// is one that a comic can have.
    fn first_unknown(held: usize, pending: usize) -> (first: Option<u64>)
        ensures
            match first {
                Some(first) => first == held + pending + 1,
                None => held + pending + 1 > u64::MAX,
            },
    {
        match (held as u64).checked_add(pending as u64) {
            Some(count) => count.checked_add(1),
            None => None,
        }
    }

    /// Takes what the caller reports and decides what is to be done next.
    pub fn step(self, event: Event) -> (after: (Synchronizer, Action))
        ensures
            after.0@ == self@.step(event@),
            after.0@.wf(),
            after.1 == after.0@.awaited(),
    {
        proof {
            use_type_invariant(&self);
        }
        let ghost expected = self@.step(event@);
        let after = match (self.phase, event) {
            (Phase::Loading, Event::Loaded { snapshot, pending }) => {
                Synchronizer {
                    phase: if pending.len() > 0 {
                        Phase::Repairing
                    } else {
                        Phase::Bounding
                    },
                    snapshot,
                    pending: Vec::new(),
                    causes: Vec::new(),
                    retry: pending,
                    cursor: 0,
                    ..self
                }
            },
            (Phase::Loading, Event::Unreadable) => Synchronizer {
                phase: Phase::Failed(IndexError::StoreCorrupt),
                ..self
            },
            (Phase::Repairing, Event::Resolved(outcome)) => {
                let mut snapshot = self.snapshot;
                let mut pending = self.pending;
                let mut causes = self.causes;
                let cursor = self.cursor;
                Self::record(&mut snapshot, &mut pending, &mut causes, self.retry[cursor], outcome);
                Synchronizer {
                    phase: if cursor + 1 < self.retry.len() {
                        Phase::Repairing
                    } else {
                        Phase::Bounding
                    },
                    snapshot,
                    pending,
                    causes,
                    cursor: cursor + 1,
                    ..self
                }
            },
            (Phase::Bounding, Event::UpperBound(Ok(latest))) => {
                match Self::first_unknown(self.snapshot.len(), self.pending.len()) {
                    Some(first) if first <= latest => Synchronizer {
                        phase: Phase::Discovering,
                        next: first,
                        last: latest,
                        ..self
                    },
                    _ => Synchronizer { phase: Phase::Saving, ..self },
                }
            },
            (Phase::Bounding, Event::UpperBound(Err(_))) => Synchronizer {
                phase: Phase::Saving,
                ..self
            },
            (Phase::Discovering, Event::Resolved(outcome)) => {
                let mut snapshot = self.snapshot;
                let mut pending = self.pending;
                let mut causes = self.causes;
                let next = self.next;
                Self::record(&mut snapshot, &mut pending, &mut causes, next, outcome);
                if next < self.last {
                    Synchronizer { snapshot, pending, causes, next: next + 1, ..self }
                } else {
                    Synchronizer { phase: Phase::Saving, snapshot, pending, causes, ..self }
                }
            },
            (Phase::Saving, Event::Saved) => Synchronizer { phase: Phase::Finished, ..self },
            (Phase::Saving, Event::SaveFailed) => Synchronizer {
                phase: Phase::Failed(IndexError::StoreUnwritable),
                ..self
            },
            _ => self,
        };
        assert(after@.todo =~= expected.todo);
        let action = after.awaited();
        (after, action)
    }
}

} // verus!
