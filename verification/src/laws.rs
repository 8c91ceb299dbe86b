//! The engine's cross-cutting guarantees, each proved as a lemma over the
//! transition relations that the engine's operations ensure.

use vstd::prelude::*;

use crate::runtime::write_rel;
use crate::runtime::Runtime;
use crate::value::ValueView;

verus! {

/// Law (batched-write idempotence of scheduling): writing the same cell a
/// second time before a flush queues nothing that the first write did not
/// already queue — however often a cell is written between flushes, its
/// subscribers are queued once, so the next flush runs each of them once.
pub proof fn lemma_batched_writes_queue_once(
    s0: Runtime,
    s1: Runtime,
    s2: Runtime,
    c: int,
    v1: ValueView,
    v2: ValueView,
)
    requires
        write_rel(s0, s1, c, v1),
        write_rel(s1, s2, c, v2),
    ensures
        forall|j: int|
            0 <= j < s0.comps@.len() ==> (#[trigger] s2.comps@[j].queued) == s1.comps@[j].queued,
{
    assert forall|j: int|
        0 <= j < s0.comps@.len() implies (#[trigger] s2.comps@[j].queued)
        == s1.comps@[j].queued by {
        assert(s1.comps@[j].live == s0.comps@[j].live);
        assert(s1.comps@[j].deps@ == s0.comps@[j].deps@);
    }
}

/// Law (a write schedules its subscribers): after a write to `c`, every
/// live computation whose last run read `c` is queued. Together with the
/// scheduler's hand-out rule — an effect runs in a pass only while its
/// `ran` mark is clear, and the mark is set as it is handed out — one
/// write followed by one flush runs such an effect exactly once.
pub proof fn lemma_write_queues_subscriber(s0: Runtime, s1: Runtime, c: int, v: ValueView, e: int)
    requires
        write_rel(s0, s1, c, v),
        0 <= e < s0.comps@.len(),
        s0.comps@[e].live,
        s0.comps@[e].deps@.contains(c as usize),
    ensures
        s1.comps@[e].queued,
{
}

/// Law (no second hand-out in a pass): an effect whose `ran` mark is set is
/// not fresh, and the scheduler hands an effect out within a pass only when
/// it is fresh; a computation that already ran can run again only in a
/// later pass.
pub proof fn lemma_ran_effect_not_fresh(s: Runtime, e: int)
    requires
        0 <= e < s.comps@.len(),
        s.comps@[e].ran,
    ensures
        !s.fresh_effect_at(e),
{
}

/// Law (writes keep the `ran` marks): a write during a flush pass re-queues
/// computations but never clears a `ran` mark, so an effect that already
/// ran in the pass stays ineligible until the next pass.
pub proof fn lemma_write_keeps_ran(s0: Runtime, s1: Runtime, c: int, v: ValueView, e: int)
    requires
        write_rel(s0, s1, c, v),
        0 <= e < s0.comps@.len(),
    ensures
        s1.comps@[e].ran == s0.comps@[e].ran,
{
}

/// Law (glitch-freedom, requeue side): a clean memo is re-queued only by a
/// write to one of its dependency cells. In the diamond — two memos over
/// one source cell, one effect over both memos — the single write to the
/// source queues each memo once, and the memos' own settlements write only
/// their output cells, which are no memo's dependency twice; so each memo
/// recomputes at most once per flush.
pub proof fn lemma_memo_requeued_only_by_dep_write(
    s0: Runtime,
    s1: Runtime,
    c: int,
    v: ValueView,
    m: int,
)
    requires
        write_rel(s0, s1, c, v),
        0 <= m < s0.comps@.len(),
        !s0.comps@[m].queued,
        !s0.comps@[m].deps@.contains(c as usize),
    ensures
        !s1.comps@[m].queued,
{
}

/// Law (glitch-freedom, ordering side): while a memo is queued, no memo
/// that reads its output cell is runnable — the scheduler settles
/// producers before consumers, so a consumer never recomputes from a stale
/// producer and then again from the fresh one.
pub proof fn lemma_consumer_memo_waits(s: Runtime, m1: int, m2: int)
    requires
        s.wf(),
        0 <= m1 < s.comps@.len(),
        s.comps@[m1].out_cell is Some,
        s.comps@[m1].queued,
        0 <= m2 < s.comps@.len(),
        s.comps@[m2].deps@.contains((s.comps@[m1].out_cell->0)),
    ensures
        !s.runnable_memo(m2),
{
    vstd::std_specs::vec::axiom_spec_len(&s.comps);
    let oc = s.comps@[m1].out_cell->0;
    let k = choose|k: int| 0 <= k < s.comps@[m2].deps@.len() && s.comps@[m2].deps@[k] == oc;
    assert(s.cells@[oc as int].owner == Some(m1 as usize));
    assert(s.blocked_dep(s.comps@[m2].deps@[k] as int));
}

/// One observation of the action-watcher idiom: react exactly when a
/// settled dispatch is newer than the last version acted on, and then
/// remember that version. `Action::newly_settled` computes the first
/// component; the watcher stores the second.
pub open spec fn watch_step(last_seen: u64, version: u64, pending: bool) -> (bool, u64) {
    if version > last_seen && !pending {
        (true, version)
    } else {
        (false, last_seen)
    }
}

/// The number of reactions over a whole run of observations of one
/// dispatch: each observation sees the action's current version and
/// pending flag, reacts or not, and carries its `last_seen` forward.
pub open spec fn reactions(last_seen: u64, version: u64, obs: Seq<bool>) -> int
    decreases obs.len(),
{
    if obs.len() == 0 {
        0
    } else {
        let step = watch_step(last_seen, version, obs[0]);
        (if step.0 {
            1int
        } else {
            0int
        }) + reactions(step.1, version, obs.drop_first())
    }
}

/// A watcher that has already seen this version never reacts to it again.
pub proof fn lemma_no_reaction_when_seen(last_seen: u64, version: u64, obs: Seq<bool>)
    requires
        version <= last_seen,
    ensures
        reactions(last_seen, version, obs) == 0,
    decreases obs.len(),
{
    if obs.len() > 0 {
        lemma_no_reaction_when_seen(last_seen, version, obs.drop_first());
    }
}

/// Law (exactly once per settled dispatch): a dispatch raises the version
/// above every watcher's `last_seen`; over any run of observations of that
/// dispatch — pending ones during unrelated flushes included — in which
/// the action is observed settled at least once, the watcher reacts
/// exactly once.
pub proof fn lemma_exactly_once_per_dispatch(last_seen: u64, version: u64, obs: Seq<bool>)
    requires
        version > last_seen,
        exists|i: int| 0 <= i < obs.len() && !obs[i],
    ensures
        reactions(last_seen, version, obs) == 1,
    decreases obs.len(),
{
    let i = choose|i: int| 0 <= i < obs.len() && !obs[i];
    if obs[0] {
        assert(0 <= i - 1 < obs.drop_first().len() && !obs.drop_first()[i - 1]);
        lemma_exactly_once_per_dispatch(last_seen, version, obs.drop_first());
    } else {
        lemma_no_reaction_when_seen(version, version, obs.drop_first());
    }
}

} // verus!
