//! The index accounts for every comic of the archive exactly once.
//!
//! The comics that are held and the identifiers that are pending together
//! stand for the archive from its first comic up to some extent, each comic
//! in one place only. A pass takes this for granted when it counts how far
//! the index reaches, and hands it on: this module says so, and proves it.

use vstd::prelude::*;
use vstd::multiset::group_multiset_axioms;
use vstd::seq_lib::{group_to_multiset_ensures, lemma_multiset_commutative};
use crate::item::{ids_of, ComicView};
use crate::pass::{failed, fetched, fetched_or_failed, fetches, Outcomes, World};
use crate::sync::id_range;

verus! {

/// The identifiers that an index accounts for: those of the comics held,
/// then those pending.
pub open spec fn accounted(snapshot: Seq<ComicView>, pending: Seq<u64>) -> Seq<u64> {
    ids_of(snapshot) + pending
}

/// The index accounts for each identifier from 1 up to the number of its
/// entries, for each once, and for no other.
pub open spec fn consistent(snapshot: Seq<ComicView>, pending: Seq<u64>) -> bool {
    &&& accounted(snapshot, pending).no_duplicates()
    &&& forall|id: u64|
        accounted(snapshot, pending).contains(id) <==> 1 <= id <= snapshot.len() + pending.len()
}

/// The remote side answers for the comic it was asked for: a comic that is
/// fetched carries the identifier under which it was requested.
pub open spec fn faithful(outcome: Outcomes) -> bool {
    forall|id: u64| (#[trigger] outcome(id)) is Ok ==> outcome(id)->Ok_0.id == id
}

impl World {
    /// How far the index reaches after a pass: as far as the archive, or as
    /// far as the index reached before where that is further or where the
    /// archive did not say.
    pub open spec fn extent(self) -> int {
        let before = self.stored->0.snapshot.len() + self.stored->0.pending.len();
        match self.latest {
            Ok(latest) => if latest > before {
                latest as int
            } else {
                before as int
            },
            Err(_) => before as int,
        }
    }
}

/// How often `id` stands in `ids`.
spec fn count(ids: Seq<u64>, id: u64) -> nat {
    ids.to_multiset().count(id)
}

proof fn count_joined(a: Seq<u64>, b: Seq<u64>, id: u64)
    ensures
        count(a + b, id) == count(a, id) + count(b, id),
{
    broadcast use group_multiset_axioms;

    lemma_multiset_commutative(a, b);
}

/// Each identifier of a list is among those fetched or among those failed,
/// as often as it stands in the list.
proof fn count_split(outcome: Outcomes, ids: Seq<u64>, id: u64)
    ensures
        count(ids.filter(fetches(outcome)), id) + count(failed(outcome, ids), id) == count(ids, id),
    decreases ids.len(),
{
    broadcast use group_multiset_axioms;
    broadcast use group_to_multiset_ensures;

    reveal(Seq::filter);
    if ids.len() > 0 {
        let front = ids.drop_last();
        count_split(outcome, front, id);
        assert(ids =~= front.push(ids.last()));
    }
}

/// A list without repetitions holds each of its members once.
proof fn count_of_distinct(ids: Seq<u64>, id: u64)
    requires
        ids.no_duplicates(),
    ensures
        count(ids, id) == if ids.contains(id) {
            1nat
        } else {
            0nat
        },
{
    broadcast use group_multiset_axioms;
    broadcast use group_to_multiset_ensures;

    ids.lemma_multiset_has_no_duplicates();
}

/// The comics fetched from a faithful remote side carry the identifiers that
/// could be fetched.
proof fn ids_of_fetched(outcome: Outcomes, ids: Seq<u64>)
    requires
        faithful(outcome),
    ensures
        ids_of(fetched(outcome, ids)) == ids.filter(fetches(outcome)),
{
    let kept = ids.filter(fetches(outcome));
    assert forall|k: int| 0 <= k < kept.len() implies ids_of(fetched(outcome, ids))[k]
        == kept[k] by {
        ids.lemma_filter_pred(fetches(outcome), k);
    }
}

/// A range of identifiers holds each of them once.
proof fn count_of_range(first: int, last: u64, id: u64)
    requires
        1 <= first,
    ensures
        count(id_range(first, last as int), id) == if first <= id <= last {
            1nat
        } else {
            0nat
        },
{
    let range = id_range(first, last as int);
    if first <= id <= last {
        assert(range[id - first] == id);
    }
    count_of_distinct(range, id);
}

/// The index accounts for each comic of the archive once. This is handed on
/// from pass to pass.
///
/// Let the stored index account for each identifier from 1 up to the number
/// of its entries once, and let the remote side answer each request with the
/// comic asked for. Then after the pass the index reaches as far as the
/// archive does, and again accounts for each identifier up to there once: no
/// comic is both held and pending, none is held twice, and none is missing.
/// Where the archive reaches less far than the index, or does not tell its
/// extent, the index reaches as far as before.
pub proof fn pass_keeps_index_consistent(world: World)
    requires
        world.stored is Some,
        consistent(world.stored->0.snapshot, world.stored->0.pending),
        faithful(world.outcome),
    ensures
        consistent(world.snapshot_after(), world.pending_after()),
        world.snapshot_after().len() + world.pending_after().len() == world.extent(),
        consistent(world.outcome_of_pass().snapshot, world.outcome_of_pass().pending),
{
    broadcast use group_multiset_axioms;
    broadcast use group_to_multiset_ensures;

    crate::pass::pass_runs_its_course(world);
    let stored = world.stored->0;
    let outcome = world.outcome;
    let found = world.discovered();
    let before = accounted(stored.snapshot, stored.pending);
    let after = accounted(world.snapshot_after(), world.pending_after());
    let reach = stored.snapshot.len() + stored.pending.len();
    fetched_or_failed(outcome, stored.pending);
    fetched_or_failed(outcome, found);
    ids_of_fetched(outcome, stored.pending);
    ids_of_fetched(outcome, found);
    let repaired = stored.pending.filter(fetches(outcome));
    let gained = found.filter(fetches(outcome));
    assert(ids_of(world.snapshot_after()) =~= ids_of(stored.snapshot) + repaired + gained);
    assert forall|id: u64| count(after, id) == if 1 <= id <= world.extent() {
        1nat
    } else {
        0nat
    } by {
        count_joined(ids_of(world.snapshot_after()), world.pending_after(), id);
        count_joined(ids_of(stored.snapshot) + repaired, gained, id);
        count_joined(ids_of(stored.snapshot), repaired, id);
        count_joined(failed(outcome, stored.pending), failed(outcome, found), id);
        count_split(outcome, stored.pending, id);
        count_split(outcome, found, id);
        count_joined(ids_of(stored.snapshot), stored.pending, id);
        count_of_distinct(before, id);
        if world.latest is Ok {
            count_of_range(reach as int + 1, world.latest->Ok_0, id);
        }
    }
    assert forall|id: u64| after.to_multiset().contains(id) implies after.to_multiset().count(id)
        == 1 by {
        assert(count(after, id) > 0);
    }
    after.lemma_multiset_has_no_duplicates_conv();
    assert forall|id: u64| after.contains(id) <==> 1 <= id <= world.snapshot_after().len()
        + world.pending_after().len() by {
        assert(count(after, id) > 0 <==> after.contains(id));
    }
}

/// In a consistent index no comic is both held and pending, none is held or
/// pending twice, and the comics held or pending are exactly those from the
/// first up to the number of entries.
pub proof fn consistent_index_is_partition(snapshot: Seq<ComicView>, pending: Seq<u64>)
    requires
        consistent(snapshot, pending),
    ensures
        forall|id: u64| !(ids_of(snapshot).contains(id) && pending.contains(id)),
        forall|id: u64|
            #![trigger ids_of(snapshot).contains(id)]
            #![trigger pending.contains(id)]
            (ids_of(snapshot).contains(id) || pending.contains(id)) <==> 1 <= id <= snapshot.len()
                + pending.len(),
        ids_of(snapshot).no_duplicates(),
        pending.no_duplicates(),
{
    let held = ids_of(snapshot);
    let all = accounted(snapshot, pending);
    assert forall|id: u64| all.contains(id) <==> held.contains(id) || pending.contains(id) by {
        if held.contains(id) {
            let k = choose|k: int| 0 <= k < held.len() && held[k] == id;
            assert(all[k] == id);
        }
        if pending.contains(id) {
            let k = choose|k: int| 0 <= k < pending.len() && pending[k] == id;
            assert(all[held.len() + k] == id);
        }
    }
    assert forall|id: u64| !(held.contains(id) && pending.contains(id)) by {
        if held.contains(id) && pending.contains(id) {
            let i = choose|i: int| 0 <= i < held.len() && held[i] == id;
            let j = choose|j: int| 0 <= j < pending.len() && pending[j] == id;
            assert(all[i] == all[held.len() + j]);
        }
    }
    assert forall|i: int, j: int|
        0 <= i < held.len() && 0 <= j < held.len() && i != j implies held[i] != held[j] by {
        assert(all[i] == held[i] && all[j] == held[j]);
    }
    assert forall|i: int, j: int|
        0 <= i < pending.len() && 0 <= j < pending.len() && i != j implies pending[i]
        != pending[j] by {
        assert(all[held.len() + i] == pending[i] && all[held.len() + j] == pending[j]);
    }
}

/// After a pass no comic is both held and pending, and the comics held or
/// pending are exactly those from the first up to the archive's latest, or
/// up to where the index reached before if that is further.
pub proof fn pass_partitions_archive(world: World)
    requires
        world.stored is Some,
        consistent(world.stored->0.snapshot, world.stored->0.pending),
        faithful(world.outcome),
    ensures
        forall|id: u64|
            !(ids_of(world.snapshot_after()).contains(id) && world.pending_after().contains(id)),
        forall|id: u64|
            #![trigger ids_of(world.snapshot_after()).contains(id)]
            #![trigger world.pending_after().contains(id)]
            (ids_of(world.snapshot_after()).contains(id) || world.pending_after().contains(id))
                <==> 1 <= id <= world.extent(),
        world.outcome_of_pass().snapshot == world.snapshot_after(),
        world.outcome_of_pass().pending == world.pending_after(),
{
    crate::pass::pass_runs_its_course(world);
    pass_keeps_index_consistent(world);
    consistent_index_is_partition(world.snapshot_after(), world.pending_after());
}

/// A pass over a consistent index fetches no comic twice: each identifier
/// that was pending and each that is found missing is fetched once.
pub proof fn pass_fetches_each_comic_once(world: World)
    requires
        world.stored is Some,
        consistent(world.stored->0.snapshot, world.stored->0.pending),
    ensures
        world.workload().no_duplicates(),
{
    let stored = world.stored->0;
    let found = world.discovered();
    consistent_index_is_partition(stored.snapshot, stored.pending);
    assert forall|i: int, j: int|
        0 <= i < stored.pending.len() && 0 <= j < found.len() implies stored.pending[i]
        != found[j] by {
        assert(stored.pending.contains(stored.pending[i]));
    }
    vstd::seq_lib::lemma_no_dup_in_concat(stored.pending, found);
}

/// An empty index is consistent: with it the first pass begins.
pub proof fn empty_index_is_consistent()
    ensures
        consistent(Seq::empty(), Seq::empty()),
{
}

} // verus!
