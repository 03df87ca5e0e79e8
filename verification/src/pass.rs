//! What a whole pass comes to.
//!
//! The [`Synchronizer`](crate::sync::Synchronizer) moves one step at a time
//! and knows nothing of what answers it. Here the other side is given a
//! shape, a [`World`] that answers every action in one fixed way, and the
//! pass is followed from its first step to its last. What is proved of it
//! holds of every program that drives the synchroniser and reports
//! truthfully.

use vstd::prelude::*;
use crate::error::IndexError;
use crate::item::ComicView;
use crate::remote::{upper_bound_of, Remote, Request, MAX_ATTEMPTS};
use crate::sync::{id_range, Action, EventView, PassState, Phase};

verus! {

/// What fetching each comic comes to.
pub type Outcomes = spec_fn(u64) -> Result<ComicView, IndexError>;

/// The comic `id` can be fetched.
pub open spec fn fetches(outcome: Outcomes) -> spec_fn(u64) -> bool {
    |id: u64| outcome(id) is Ok
}

/// The comic `id` cannot be fetched.
pub open spec fn fails(outcome: Outcomes) -> spec_fn(u64) -> bool {
    |id: u64| outcome(id) is Err
}

/// The comic that fetching `id` gives.
pub open spec fn comic_at(outcome: Outcomes) -> spec_fn(u64) -> ComicView {
    |id: u64| outcome(id)->Ok_0
}

/// The comics that fetching `ids` one after the other gives: one for each
/// identifier that can be fetched, in the order of `ids`.
pub open spec fn fetched(outcome: Outcomes, ids: Seq<u64>) -> Seq<ComicView> {
    ids.filter(fetches(outcome)).map_values(comic_at(outcome))
}

/// The identifiers among `ids` that cannot be fetched, in the order of `ids`.
pub open spec fn failed(outcome: Outcomes, ids: Seq<u64>) -> Seq<u64> {
    ids.filter(fails(outcome))
}

/// Why the comic `id` cannot be fetched.
pub open spec fn cause_at(outcome: Outcomes) -> spec_fn(u64) -> IndexError {
    |id: u64| outcome(id)->Err_0
}

/// Why each of the identifiers among `ids` that cannot be fetched fails.
pub open spec fn causes_of(outcome: Outcomes, ids: Seq<u64>) -> Seq<IndexError> {
    failed(outcome, ids).map_values(cause_at(outcome))
}

/// What the store holds.
pub struct Stored {
    pub snapshot: Seq<ComicView>,
    pub pending: Seq<u64>,
}

/// Everything outside the synchroniser, as it is during one pass.
pub struct World {
    /// What the store holds, or `None` where it cannot be read.
    pub stored: Option<Stored>,
    /// What fetching each comic comes to.
    pub outcome: Outcomes,
    /// What the archive says of its extent.
    pub latest: Result<u64, IndexError>,
    /// Whether the store can be written.
    pub writable: bool,
}

impl World {
    /// The world in which the remote side answers each request in one fixed
    /// way.
    pub open spec fn of(stored: Option<Stored>, remote: Remote, writable: bool) -> World {
        World {
            stored,
            outcome: |id: u64| remote.outcome(id),
            latest: upper_bound_of(remote.latest),
            writable,
        }
    }

    /// The identifiers that a pass fetches, in the order in which it does:
    /// those that were pending, then those found missing.
    pub open spec fn workload(self) -> Seq<u64> {
        self.stored->0.pending + self.discovered()
    }

    /// The report that answers an action. Where nothing is asked for, the
    /// report does not matter: a pass that has ended stays as it is.
    pub open spec fn respond(self, action: Action) -> EventView {
        match action {
            Action::Load => match self.stored {
                Some(stored) => EventView::Loaded {
                    snapshot: stored.snapshot,
                    pending: stored.pending,
                },
                None => EventView::Unreadable,
            },
            Action::Resolve(id) => EventView::Resolved((self.outcome)(id)),
            Action::FetchLatest => EventView::UpperBound(self.latest),
            Action::Persist => if self.writable {
                EventView::Saved
            } else {
                EventView::SaveFailed
            },
            Action::Finish => EventView::Saved,
            Action::Abort(_) => EventView::SaveFailed,
        }
    }

    /// The state that follows `state` when the action it asks for is done.
    pub open spec fn next(self, state: PassState) -> PassState {
        state.step(self.respond(state.awaited()))
    }

    /// The state after `steps` actions, or after fewer where the pass has
    /// ended before.
    pub open spec fn run(self, state: PassState, steps: nat) -> PassState
        decreases steps,
    {
        if steps == 0 || state.at_rest() {
            state
        } else {
            self.run(self.next(state), (steps - 1) as nat)
        }
    }

    /// The actions that are done in the first `steps` steps from `state` on.
    pub open spec fn actions(self, state: PassState, steps: nat) -> Seq<Action>
        decreases steps,
    {
        if steps == 0 || state.at_rest() {
            Seq::empty()
        } else {
            seq![state.awaited()] + self.actions(self.next(state), (steps - 1) as nat)
        }
    }

    /// The identifiers that a pass finds missing: those above the number of
    /// comics that the store accounts for, up to the archive's latest.
    pub open spec fn discovered(self) -> Seq<u64> {
        match (self.stored, self.latest) {
            (Some(stored), Ok(latest)) => id_range(
                (stored.snapshot.len() + stored.pending.len()) as int + 1,
                latest as int,
            ),
            _ => Seq::empty(),
        }
    }

    /// The comics held at the end of a pass: those stored, then those that
    /// were pending and could now be fetched, then those newly found that
    /// could be fetched.
    pub open spec fn snapshot_after(self) -> Seq<ComicView> {
        self.stored->0.snapshot + fetched(self.outcome, self.stored->0.pending) + fetched(
            self.outcome,
            self.discovered(),
        )
    }

    /// The identifiers pending at the end of a pass: those that were pending
    /// and failed again, then those newly found that failed.
    pub open spec fn pending_after(self) -> Seq<u64> {
        failed(self.outcome, self.stored->0.pending) + failed(self.outcome, self.discovered())
    }

    /// Why each identifier pending at the end of a pass failed.
    pub open spec fn causes_after(self) -> Seq<IndexError> {
        causes_of(self.outcome, self.stored->0.pending) + causes_of(
            self.outcome,
            self.discovered(),
        )
    }

    /// The state in which a pass ends.
    pub open spec fn end(self) -> PassState {
        match self.stored {
            Some(_) => PassState {
                phase: if self.writable {
                    Phase::Finished
                } else {
                    Phase::Failed(IndexError::StoreUnwritable)
                },
                snapshot: self.snapshot_after(),
                pending: self.pending_after(),
                causes: self.causes_after(),
                todo: Seq::empty(),
            },
            None => PassState {
                phase: Phase::Failed(IndexError::StoreCorrupt),
                ..PassState::start()
            },
        }
    }

    /// The state in which the pass ends that the synchroniser makes, step by
    /// step, when this world answers it. It is [`World::end`]: see
    /// [`pass_runs_its_course`].
    pub open spec fn outcome_of_pass(self) -> PassState {
        self.run(PassState::start(), self.length())
    }

    /// The number of actions that a pass takes.
    pub open spec fn length(self) -> nat {
        match self.stored {
            Some(stored) => 3 + stored.pending.len() + self.discovered().len(),
            None => 1,
        }
    }

    /// The actions of a pass, in their order.
    pub open spec fn course(self) -> Seq<Action> {
        match self.stored {
            Some(stored) => seq![Action::Load] + resolve_each(stored.pending) + seq![
                Action::FetchLatest,
            ] + resolve_each(self.discovered()) + seq![Action::Persist],
            None => seq![Action::Load],
        }
    }
}

impl PassState {
    /// The pass has ended: nothing more is asked for.
    pub open spec fn at_rest(self) -> bool {
        self.phase is Finished || self.phase is Failed
    }
}

/// The actions that fetch `ids` one after the other.
pub open spec fn resolve_each(ids: Seq<u64>) -> Seq<Action> {
    ids.map_values(|id: u64| Action::Resolve(id))
}

/// What fetching a list of identifiers gives, in terms of its first and its
/// rest.
proof fn fetch_first(outcome: Outcomes, ids: Seq<u64>)
    requires
        ids.len() > 0,
    ensures
        fetched(outcome, ids) == (match outcome(ids[0]) {
            Ok(comic) => seq![comic],
            Err(_) => Seq::empty(),
        }) + fetched(outcome, ids.drop_first()),
        failed(outcome, ids) == (match outcome(ids[0]) {
            Ok(_) => Seq::empty(),
            Err(_) => seq![ids[0]],
        }) + failed(outcome, ids.drop_first()),
        causes_of(outcome, ids) == (match outcome(ids[0]) {
            Ok(_) => Seq::empty(),
            Err(error) => seq![error],
        }) + causes_of(outcome, ids.drop_first()),
{
    let rest = ids.drop_first();
    assert(ids =~= seq![ids[0]] + rest);
    rest.lemma_filter_prepend(ids[0], fetches(outcome));
    rest.lemma_filter_prepend(ids[0], fails(outcome));
}

/// Fetching nothing gives nothing.
proof fn fetch_none(outcome: Outcomes)
    ensures
        fetched(outcome, Seq::empty()) == Seq::<ComicView>::empty(),
        failed(outcome, Seq::empty()) == Seq::<u64>::empty(),
        causes_of(outcome, Seq::empty()) == Seq::<IndexError>::empty(),
{
    reveal(Seq::filter);
}

/// Every identifier fetched either gives a comic or fails.
pub proof fn fetched_or_failed(outcome: Outcomes, ids: Seq<u64>)
    ensures
        fetched(outcome, ids).len() + failed(outcome, ids).len() == ids.len(),
    decreases ids.len(),
{
    if ids.len() == 0 {
        fetch_none(outcome);
    } else {
        fetch_first(outcome, ids);
        fetched_or_failed(outcome, ids.drop_first());
    }
}

/// Steps add up.
proof fn run_in_two(world: World, state: PassState, first: nat, then: nat)
    ensures
        world.run(state, first + then) == world.run(world.run(state, first), then),
        world.actions(state, first + then) == world.actions(state, first) + world.actions(
            world.run(state, first),
            then,
        ),
    decreases first,
{
    if first > 0 && !state.at_rest() {
        run_in_two(world, world.next(state), (first - 1) as nat, then);
    }
}

/// A pass that has ended stays as it is.
proof fn run_at_rest(world: World, state: PassState, steps: nat)
    requires
        state.at_rest() || steps == 0,
    ensures
        world.run(state, steps) == state,
        world.actions(state, steps) == Seq::<Action>::empty(),
{
}

/// A phase that fetches goes through its identifiers one by one, puts each
/// comic or failure where it belongs, and then gives way to the next phase.
proof fn run_fetches(world: World, state: PassState)
    requires
        state.wf(),
        state.phase is Repairing || state.phase is Discovering,
    ensures
        world.run(state, state.todo.len()) == (PassState {
            phase: if state.phase is Repairing {
                Phase::Bounding
            } else {
                Phase::Saving
            },
            snapshot: state.snapshot + fetched(world.outcome, state.todo),
            pending: state.pending + failed(world.outcome, state.todo),
            causes: state.causes + causes_of(world.outcome, state.todo),
            todo: Seq::empty(),
        }),
        world.actions(state, state.todo.len()) == resolve_each(state.todo),
    decreases state.todo.len(),
{
    let after = world.next(state);
    let rest = state.todo.drop_first();
    fetch_first(world.outcome, state.todo);
    if rest.len() == 0 {
        fetch_none(world.outcome);
        run_at_rest(world, after, 0);
        assert(after.snapshot =~= state.snapshot + fetched(world.outcome, state.todo));
        assert(after.pending =~= state.pending + failed(world.outcome, state.todo));
        assert(after.causes =~= state.causes + causes_of(world.outcome, state.todo));
        assert(after.todo =~= Seq::empty());
    } else {
        run_fetches(world, after);
        let end = world.run(after, rest.len());
        assert(end.snapshot =~= state.snapshot + fetched(world.outcome, state.todo));
        assert(end.pending =~= state.pending + failed(world.outcome, state.todo));
        assert(end.causes =~= state.causes + causes_of(world.outcome, state.todo));
    }
}

/// A pass, from its first step to its last.
///
/// Whatever the store holds and whatever the remote side answers, a pass
/// takes [`World::length`] actions, in the order that [`World::course`]
/// gives, and ends in the state [`World::end`]. So each identifier that was
/// pending is fetched once, then the archive's extent is asked for once, then
/// each identifier found missing is fetched once, and only then the index is
/// stored, once. A comic that fails never ends the pass. Where the store
/// cannot be read, nothing is fetched and nothing stored.
pub proof fn pass_runs_its_course(world: World)
    ensures
        world.run(PassState::start(), world.length()) == world.end(),
        world.outcome_of_pass() == world.end(),
        world.actions(PassState::start(), world.length()) == world.course(),
        world.end().at_rest(),
{
    let start = PassState::start();
    let loaded = world.next(start);
    match world.stored {
        None => {
            run_at_rest(world, loaded, 0);
        },
        Some(stored) => {
            let repairs = stored.pending.len();
            let finds = world.discovered().len();
            fetched_or_failed(world.outcome, stored.pending);
            // The repairs.
            let repaired = world.run(loaded, repairs);
            if repairs > 0 {
                run_fetches(world, loaded);
            } else {
                fetch_none(world.outcome);
                run_at_rest(world, loaded, 0);
            }
            assert(repaired.phase is Bounding);
            assert(repaired.snapshot =~= stored.snapshot + fetched(world.outcome, stored.pending));
            assert(repaired.pending =~= failed(world.outcome, stored.pending));
            // The archive's extent.
            let bounded = world.next(repaired);
            assert(bounded.todo == world.discovered());
            // The discoveries.
            let discovered = world.run(bounded, finds);
            if finds > 0 {
                run_fetches(world, bounded);
            } else {
                fetch_none(world.outcome);
                run_at_rest(world, bounded, 0);
                assert(world.discovered() =~= Seq::empty());
            }
            assert(discovered.phase is Saving);
            // The storing.
            let saved = world.next(discovered);
            assert(saved == world.end());
            run_at_rest(world, saved, 0);
            // All of it.
            run_in_two(world, bounded, finds, 1);
            run_in_two(world, loaded, repairs, 1 + (finds + 1));
        },
    }
}

/// Nothing happens after the end of a pass, however long one waits.
pub proof fn pass_stays_ended(world: World, steps: nat)
    requires
        steps >= world.length(),
    ensures
        world.run(PassState::start(), steps) == world.end(),
        world.actions(PassState::start(), steps) == world.course(),
{
    pass_runs_its_course(world);
    let extra = (steps - world.length()) as nat;
    run_in_two(world, PassState::start(), world.length(), extra);
    run_at_rest(world, world.end(), extra);
}

/// A store that cannot be read ends the pass at once, with
/// [`IndexError::StoreCorrupt`]. Nothing is fetched, and the store is never
/// asked to be written: what it holds stays as it is.
pub proof fn unreadable_store_is_left_alone(world: World, steps: nat)
    requires
        world.stored is None,
    ensures
        world.end().phase == Phase::Failed(IndexError::StoreCorrupt),
        world.end().awaited() == Action::Abort(IndexError::StoreCorrupt),
        !world.actions(PassState::start(), steps).contains(Action::Persist),
        forall|id: u64| !world.actions(PassState::start(), steps).contains(Action::Resolve(id)),
{
    if steps >= 1 {
        pass_stays_ended(world, steps);
    }
}

/// The store is written at most once in a pass, and only as the last thing
/// that is done: until every comic has been tried, what the store holds stays
/// as it is.
pub proof fn store_is_written_last(world: World, steps: nat, k: int)
    requires
        0 <= k < world.actions(PassState::start(), steps).len(),
        world.actions(PassState::start(), steps)[k] == Action::Persist,
    ensures
        world.stored is Some,
        k == world.length() - 1,
{
    let start = PassState::start();
    if steps >= world.length() {
        pass_stays_ended(world, steps);
        persist_ends_course(world, k);
    } else {
        let extra = (world.length() - steps) as nat;
        pass_runs_its_course(world);
        run_in_two(world, start, steps, extra);
        persist_ends_course(world, k);
    }
}

/// Only the last action of a pass stores the index.
proof fn persist_ends_course(world: World, k: int)
    requires
        0 <= k < world.course().len(),
        world.course()[k] == Action::Persist,
    ensures
        world.stored is Some,
        k == world.length() - 1,
{
}

/// A pass only appends: the comics that were stored are held afterwards, in
/// their order and before all others.
pub proof fn snapshot_only_grows(world: World)
    requires
        world.stored is Some,
    ensures
        world.stored->0.snapshot.is_prefix_of(world.snapshot_after()),
{
}

/// Repair convergence. A comic that was pending and can now be fetched is
/// held after one pass, and is pending no longer.
pub proof fn repair_converges(world: World, id: u64)
    requires
        world.stored is Some,
        world.stored->0.pending.contains(id),
        (world.outcome)(id) is Ok,
    ensures
        world.snapshot_after().contains((world.outcome)(id)->Ok_0),
        !world.pending_after().contains(id),
        world.outcome_of_pass().snapshot.contains((world.outcome)(id)->Ok_0),
        !world.outcome_of_pass().pending.contains(id),
{
    pass_runs_its_course(world);
    let pending = world.stored->0.pending;
    fetched_holds(world.outcome, pending, id);
    failed_holds_failures(world.outcome, pending, id);
    failed_holds_failures(world.outcome, world.discovered(), id);
    let comic = (world.outcome)(id)->Ok_0;
    let repaired = fetched(world.outcome, pending);
    let k = choose|k: int| 0 <= k < repaired.len() && repaired[k] == comic;
    assert(world.snapshot_after()[world.stored->0.snapshot.len() + k] == comic);
}

/// A comic that can be fetched is among those that fetching a list with its
/// identifier gives.
pub proof fn fetched_holds(outcome: Outcomes, ids: Seq<u64>, id: u64)
    requires
        ids.contains(id),
        outcome(id) is Ok,
    ensures
        fetched(outcome, ids).contains(outcome(id)->Ok_0),
{
    let at = choose|at: int| 0 <= at < ids.len() && ids[at] == id;
    ids.lemma_filter_contains(fetches(outcome), at);
    let kept = ids.filter(fetches(outcome));
    let k = choose|k: int| 0 <= k < kept.len() && kept[k] == id;
    assert(fetched(outcome, ids)[k] == outcome(id)->Ok_0);
}

/// Only identifiers that cannot be fetched are among the failed ones, and
/// each of them comes from the list that was fetched.
pub proof fn failed_holds_failures(outcome: Outcomes, ids: Seq<u64>, id: u64)
    ensures
        failed(outcome, ids).contains(id) ==> outcome(id) is Err && ids.contains(id),
{
    if failed(outcome, ids).contains(id) {
        let k = choose|k: int| 0 <= k < failed(outcome, ids).len() && failed(outcome, ids)[k] == id;
        ids.lemma_filter_pred(fails(outcome), k);
        ids.lemma_filter_contains_rev(fails(outcome), id);
    }
}

/// Fetching again what has just failed, from a remote side that has not
/// changed, fails again: nothing is gained and nothing lost.
pub proof fn failures_fail_again(outcome: Outcomes, ids: Seq<u64>)
    ensures
        fetched(outcome, failed(outcome, ids)) == Seq::<ComicView>::empty(),
        failed(outcome, failed(outcome, ids)) == failed(outcome, ids),
    decreases ids.len(),
{
    reveal(Seq::filter);
    if ids.len() == 0 {
        fetch_none(outcome);
    } else {
        let front = ids.drop_last();
        let before = failed(outcome, front);
        failures_fail_again(outcome, front);
        if outcome(ids.last()) is Err {
            assert(before.push(ids.last()).drop_last() =~= before);
        }
    }
}

/// What the store holds after a pass.
pub open spec fn stored_after(world: World) -> Stored {
    Stored { snapshot: world.snapshot_after(), pending: world.pending_after() }
}

/// Idempotence. A second pass that follows a pass at once, with the remote
/// side unchanged, ends as the first pass did: with the same comics in the
/// same order, the same identifiers pending, and for the same reasons. This
/// holds whether or not identifiers were pending before the first pass.
pub proof fn second_pass_changes_nothing(world: World)
    requires
        world.stored is Some,
    ensures
        (World { stored: Some(stored_after(world)), ..world }).snapshot_after()
            == world.snapshot_after(),
        (World { stored: Some(stored_after(world)), ..world }).pending_after()
            == world.pending_after(),
        (World { stored: Some(stored_after(world)), ..world }).end() == world.end(),
        (World { stored: Some(stored_after(world)), ..world }).outcome_of_pass()
            == world.outcome_of_pass(),
{
    let again = World { stored: Some(stored_after(world)), ..world };
    pass_runs_its_course(world);
    pass_runs_its_course(again);
    let stored = world.stored->0;
    let found = world.discovered();
    let outcome = world.outcome;
    // What was pending after the first pass fails again.
    Seq::filter_distributes_over_add(
        failed(outcome, stored.pending),
        failed(outcome, found),
        fails(outcome),
    );
    Seq::filter_distributes_over_add(
        failed(outcome, stored.pending),
        failed(outcome, found),
        fetches(outcome),
    );
    failures_fail_again(outcome, stored.pending);
    failures_fail_again(outcome, found);
    assert(fetched(outcome, world.pending_after()) =~= Seq::<ComicView>::empty());
    assert(causes_of(outcome, world.pending_after()) =~= world.causes_after());
    // Nothing is left to discover.
    fetched_or_failed(outcome, stored.pending);
    fetched_or_failed(outcome, found);
    fetch_none(outcome);
}

/// A comic that the pass fetches and that fails is pending afterwards, and
/// what is pending afterwards has failed in this pass.
pub proof fn failures_are_kept_pending(world: World, id: u64)
    requires
        world.stored is Some,
    ensures
        world.pending_after().contains(id) <==> world.workload().contains(id) && (world.outcome)(
            id,
        ) is Err,
{
    let pending = world.stored->0.pending;
    let found = world.discovered();
    failed_holds_failures(world.outcome, pending, id);
    failed_holds_failures(world.outcome, found, id);
    failed_holds(world.outcome, pending, id);
    failed_holds(world.outcome, found, id);
    joined_holds(pending, found, id);
    joined_holds(failed(world.outcome, pending), failed(world.outcome, found), id);
}

/// An identifier that cannot be fetched is among the failed ones of a list
/// that holds it.
proof fn failed_holds(outcome: Outcomes, ids: Seq<u64>, id: u64)
    ensures
        ids.contains(id) && outcome(id) is Err ==> failed(outcome, ids).contains(id),
{
    if ids.contains(id) && outcome(id) is Err {
        let at = choose|at: int| 0 <= at < ids.len() && ids[at] == id;
        ids.lemma_filter_contains(fails(outcome), at);
    }
}

/// What two lists hold when put together.
proof fn joined_holds(a: Seq<u64>, b: Seq<u64>, id: u64)
    ensures
        (a + b).contains(id) <==> a.contains(id) || b.contains(id),
{
    if a.contains(id) {
        let k = choose|k: int| 0 <= k < a.len() && a[k] == id;
        assert((a + b)[k] == id);
    }
    if b.contains(id) {
        let k = choose|k: int| 0 <= k < b.len() && b[k] == id;
        assert((a + b)[a.len() + k] == id);
    }
}

/// Retry bound. Let the remote side answer each request in one fixed way, and
/// let no request for the metadata of a comic get through. Then fetching the
/// comic takes exactly [`MAX_ATTEMPTS`] requests, all for its metadata, and
/// if the pass fetches the comic at all, the comic is pending afterwards.
pub proof fn unreachable_comic_is_kept_pending(
    stored: Stored,
    remote: Remote,
    writable: bool,
    id: u64,
)
    requires
        (remote.info)(id) is Failed,
        World::of(Some(stored), remote, writable).workload().contains(id),
    ensures
        remote.requests(id) == seq![Request::Info(id), Request::Info(id), Request::Info(id)],
        remote.requests(id).len() == MAX_ATTEMPTS,
        remote.outcome(id) == Err::<ComicView, IndexError>(IndexError::FetchFailed(id)),
        World::of(Some(stored), remote, writable).pending_after().contains(id),
{
    let world = World::of(Some(stored), remote, writable);
    failures_are_kept_pending(world, id);
}

} // verus!
