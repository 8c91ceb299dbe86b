//! The scheduler: one flush runs every queued computation exactly once per
//! pass, memos before the effects (and memos) that depend on them.
//!
//! `flush_start` opens a flush; `flush_next` hands the driver the next
//! computation to run, always preferring a runnable memo — a queued memo
//! none of whose dependency cells is the output of another queued memo — so
//! producers settle before consumers (the glitch-free order). Effects run at
//! most once per pass; an effect re-queued by its own writes waits for the
//! next pass, and after `FLUSH_PASS_CAP` passes the flush aborts with
//! `CycleDetected` instead of looping forever.
//!
//! Writes are batched by construction: a write only marks its subscribers,
//! and nothing re-runs until the owner opens a flush — however many writes
//! a batch gathers, the flush that follows is one pass over the queued set.

use vstd::prelude::*;

use crate::runtime::comp_same_but_marks;
use crate::runtime::CompState;
use crate::runtime::Runtime;
use crate::EngineError;

verus! {

/// The hard cap on flush passes within one flush; exceeding it is reported
/// as a cycle.
pub const FLUSH_PASS_CAP: u64 = 1000;

/// What the driver is asked to do next during a flush.
#[derive(Clone, Copy, Debug, PartialEq, Eq, Structural)]
pub enum FlushStep {
    /// Run this memo's derivation (bracketed by `begin_run` /
    /// `end_memo_run`).
    RunMemo(usize),
    /// Run this effect's body (bracketed by `begin_run` /
    /// `end_effect_run`).
    RunEffect(usize),
    /// The flush is complete; nothing is queued.
    Done,
}

/// Everything of a computation except its `ran` mark is the same.
pub open spec fn comp_same_but_ran(a: CompState, b: CompState) -> bool {
    &&& b.out_cell == a.out_cell
    &&& b.deps@ == a.deps@
    &&& b.live == a.live
    &&& b.queued == a.queued
}

impl Runtime {
    /// Computation `m` is a queued memo.
    pub open spec fn queued_memo_at(self, m: int) -> bool {
        &&& 0 <= m < self.comps@.len()
        &&& self.comps@[m].out_cell is Some
        &&& self.comps@[m].queued
    }

    /// Computation `e` is a queued effect.
    pub open spec fn queued_effect_at(self, e: int) -> bool {
        &&& 0 <= e < self.comps@.len()
        &&& self.comps@[e].out_cell is None
        &&& self.comps@[e].queued
    }

    /// Computation `e` is a queued effect that has not yet run in the
    /// current pass.
    pub open spec fn fresh_effect_at(self, e: int) -> bool {
        &&& self.queued_effect_at(e)
        &&& !self.comps@[e].ran
    }

    /// Cell `c` is the output of a memo that is itself still queued, so a
    /// reader of `c` would observe a stale value.
    pub open spec fn blocked_dep(self, c: int) -> bool {
        &&& self.cells@[c].owner is Some
        &&& self.comps@[self.cells@[c].owner->0 as int].queued
    }

    /// Memo `m` may run now: it is queued and none of its dependency cells
    /// is owned by a queued memo.
    pub open spec fn runnable_memo(self, m: int) -> bool {
        &&& self.queued_memo_at(m)
        &&& forall|k: int|
            0 <= k < self.comps@[m].deps@.len()
                ==> !self.blocked_dep(#[trigger] self.comps@[m].deps@[k] as int)
    }

    pub open spec fn some_queued_memo(self) -> bool {
        exists|m: int| #[trigger] self.queued_memo_at(m)
    }

    pub open spec fn some_queued_effect(self) -> bool {
        exists|e: int| #[trigger] self.queued_effect_at(e)
    }

    pub open spec fn some_fresh_effect(self) -> bool {
        exists|e: int| #[trigger] self.fresh_effect_at(e)
    }

    /// Opens a flush: pass one begins with every `ran` mark clear. The
    /// queued set — filled by the writes since the last flush — is taken as
    /// it is.
    pub fn flush_start(&mut self)
        requires
            old(self).wf(),
        ensures
            final(self).wf(),
            final(self).in_flush,
            final(self).passes == 1,
            final(self).cells@ == old(self).cells@,
            final(self).stack@ == old(self).stack@,
            final(self).comps@.len() == old(self).comps@.len(),
            forall|j: int|
                0 <= j < old(self).comps@.len() ==> comp_same_but_ran(
                    old(self).comps@[j],
                    #[trigger] final(self).comps@[j],
                ),
            forall|j: int| 0 <= j < old(self).comps@.len() ==> !final(self).comps@[j].ran,
    {
        self.in_flush = true;
        self.passes = 1;
        self.clear_ran();
    }

    /// Clears every `ran` mark; used at the start of each pass.
    fn clear_ran(&mut self)
        requires
            old(self).wf(),
        ensures
            final(self).wf(),
            final(self).cells@ == old(self).cells@,
            final(self).stack@ == old(self).stack@,
            final(self).in_flush == old(self).in_flush,
            final(self).passes == old(self).passes,
            final(self).comps@.len() == old(self).comps@.len(),
            forall|j: int|
                0 <= j < old(self).comps@.len() ==> comp_same_but_ran(
                    old(self).comps@[j],
                    #[trigger] final(self).comps@[j],
                ),
            forall|j: int| 0 <= j < old(self).comps@.len() ==> !final(self).comps@[j].ran,
    {
        let n = self.comps.len();
        let mut j: usize = 0;
        while j < n
            invariant
                j <= n,
                n == self.comps@.len(),
                self.comps@.len() == old(self).comps@.len(),
                self.cells@ == old(self).cells@,
                self.stack@ == old(self).stack@,
                self.in_flush == old(self).in_flush,
                self.passes == old(self).passes,
                forall|t: int|
                    0 <= t < n ==> comp_same_but_ran(
                        old(self).comps@[t],
                        #[trigger] self.comps@[t],
                    ),
                forall|t: int| 0 <= t < j ==> !self.comps@[t].ran,
                old(self).wf(),
            decreases n - j,
        {
            self.comps[j].ran = false;
            j += 1;
        }
    }

    /// Clears the queued set and the `ran` marks and closes the flush; the
    /// pending work of an aborted flush is dropped.
    fn abort_flush(&mut self)
        requires
            old(self).wf(),
        ensures
            final(self).wf(),
            final(self).cells@ == old(self).cells@,
            final(self).stack@ == old(self).stack@,
            !final(self).in_flush,
            final(self).passes == old(self).passes,
            final(self).comps@.len() == old(self).comps@.len(),
            forall|j: int|
                0 <= j < old(self).comps@.len() ==> comp_same_but_marks(
                    old(self).comps@[j],
                    #[trigger] final(self).comps@[j],
                ),
            forall|j: int|
                0 <= j < old(self).comps@.len() ==> !final(self).comps@[j].queued && !final(self).comps@[j].ran,
    {
        let n = self.comps.len();
        let mut j: usize = 0;
        while j < n
            invariant
                j <= n,
                n == self.comps@.len(),
                self.comps@.len() == old(self).comps@.len(),
                self.cells@ == old(self).cells@,
                self.stack@ == old(self).stack@,
                self.in_flush == old(self).in_flush,
                self.passes == old(self).passes,
                forall|t: int|
                    0 <= t < n ==> comp_same_but_marks(
                        old(self).comps@[t],
                        #[trigger] self.comps@[t],
                    ),
                forall|t: int| 0 <= t < j ==> !self.comps@[t].queued && !self.comps@[t].ran,
                old(self).wf(),
            decreases n - j,
        {
            self.comps[j].queued = false;
            self.comps[j].ran = false;
            j += 1;
        }
        self.in_flush = false;
    }

    /// Is any dependency cell of computation `m` owned by a queued memo?
    fn has_blocked_dep(&self, m: usize) -> (r: bool)
        requires
            self.wf(),
            (m as int) < self.n_comps(),
        ensures
            r == exists|k: int|
                0 <= k < self.comps@[m as int].deps@.len() && self.blocked_dep(
                    #[trigger] self.comps@[m as int].deps@[k] as int,
                ),
    {
        let nd = self.comps[m].deps.len();
        let mut k: usize = 0;
        while k < nd
            invariant
                k <= nd,
                self.wf(),
                (m as int) < self.n_comps(),
                nd == self.comps@[m as int].deps@.len(),
                forall|t: int|
                    0 <= t < k ==> !self.blocked_dep(
                        #[trigger] self.comps@[m as int].deps@[t] as int,
                    ),
            decreases nd - k,
        {
            let d = self.comps[m].deps[k];
            match self.cells[d].owner {
                Option::Some(o) => {
                    if self.comps[o].queued {
                        return true;
                    }
                },
                Option::None => {},
            }
            k += 1;
        }
        false
    }

    /// The first runnable memo, if any queued memo is runnable.
    fn find_runnable_memo(&self) -> (r: Option<usize>)
        requires
            self.wf(),
        ensures
            match r {
                Option::Some(m) => {
                    &&& self.runnable_memo(m as int)
                    &&& forall|m2: int| 0 <= m2 < m as int ==> !self.runnable_memo(m2)
                },
                Option::None => forall|m2: int|
                    0 <= m2 < self.comps@.len() ==> !self.runnable_memo(m2),
            },
    {
        let n = self.comps.len();
        let mut m: usize = 0;
        while m < n
            invariant
                m <= n,
                self.wf(),
                n == self.comps@.len(),
                forall|t: int| 0 <= t < m ==> !self.runnable_memo(t),
            decreases n - m,
        {
            let is_queued_memo = match self.comps[m].out_cell {
                Option::Some(_) => self.comps[m].queued,
                Option::None => false,
            };
            if is_queued_memo {
                if !self.has_blocked_dep(m) {
                    return Some(m);
                }
            }
            m += 1;
        }
        None
    }

    /// Is any memo still queued?
    fn any_queued_memo(&self) -> (r: bool)
        requires
            self.wf(),
        ensures
            r == self.some_queued_memo(),
    {
        let n = self.comps.len();
        let mut m: usize = 0;
        while m < n
            invariant
                m <= n,
                n == self.comps@.len(),
                forall|t: int| 0 <= t < m ==> !self.queued_memo_at(t),
            decreases n - m,
        {
            let hit = match self.comps[m].out_cell {
                Option::Some(_) => self.comps[m].queued,
                Option::None => false,
            };
            if hit {
                proof {
                    assert(self.queued_memo_at(m as int));
                }
                return true;
            }
            m += 1;
        }
        proof {
            assert(forall|t: int| 0 <= t < self.comps@.len() ==> !self.queued_memo_at(t));
        }
        false
    }

    /// The first queued effect not yet run in this pass, if any.
    fn find_fresh_effect(&self) -> (r: Option<usize>)
        requires
            self.wf(),
        ensures
            match r {
                Option::Some(e) => {
                    &&& self.fresh_effect_at(e as int)
                    &&& forall|e2: int| 0 <= e2 < e as int ==> !self.fresh_effect_at(e2)
                },
                Option::None => !self.some_fresh_effect(),
            },
    {
        let n = self.comps.len();
        let mut e: usize = 0;
        while e < n
            invariant
                e <= n,
                n == self.comps@.len(),
                forall|t: int| 0 <= t < e ==> !self.fresh_effect_at(t),
            decreases n - e,
        {
            let hit = match self.comps[e].out_cell {
                Option::Some(_) => false,
                Option::None => self.comps[e].queued && !self.comps[e].ran,
            };
            if hit {
                proof {
                    assert(self.fresh_effect_at(e as int));
                }
                return Some(e);
            }
            e += 1;
        }
        None
    }

    /// The first queued effect, run or not, if any.
    fn find_queued_effect(&self) -> (r: Option<usize>)
        requires
            self.wf(),
        ensures
            match r {
                Option::Some(e) => {
                    &&& self.queued_effect_at(e as int)
                    &&& forall|e2: int| 0 <= e2 < e as int ==> !self.queued_effect_at(e2)
                },
                Option::None => !self.some_queued_effect(),
            },
    {
        let n = self.comps.len();
        let mut e: usize = 0;
        while e < n
            invariant
                e <= n,
                n == self.comps@.len(),
                forall|t: int| 0 <= t < e ==> !self.queued_effect_at(t),
            decreases n - e,
        {
            let hit = match self.comps[e].out_cell {
                Option::Some(_) => false,
                Option::None => self.comps[e].queued,
            };
            if hit {
                proof {
                    assert(self.queued_effect_at(e as int));
                }
                return Some(e);
            }
            e += 1;
        }
        None
    }

    /// Hands the driver the next computation of the flush, or `Done`, or
    /// aborts with `CycleDetected`.
    ///
    /// Memos go first, in an order that runs no memo while a memo it reads
    /// from is still queued; queued memos none of which is runnable form a
    /// dependency cycle. Then effects, each at most once per pass: when only
    /// already-run effects remain queued (an effect re-queued itself or a
    /// peer within the pass), a new pass begins, up to `FLUSH_PASS_CAP`
    /// passes.
    pub fn flush_next(&mut self) -> (r: Result<FlushStep, EngineError>)
        requires
            old(self).wf(),
            old(self).in_flush,
        ensures
            final(self).wf(),
            final(self).cells@ == old(self).cells@,
            final(self).stack@ == old(self).stack@,
            final(self).comps@.len() == old(self).comps@.len(),
            forall|t: int|
                0 <= t < old(self).comps@.len() ==> comp_same_but_marks(
                    old(self).comps@[t],
                    #[trigger] final(self).comps@[t],
                ),
            match r {
                Result::Ok(FlushStep::RunMemo(m)) => {
                    &&& old(self).runnable_memo(m as int)
                    &&& forall|m2: int| 0 <= m2 < m as int ==> !old(self).runnable_memo(m2)
                    &&& !final(self).comps@[m as int].queued
                    &&& forall|t: int|
                        0 <= t < old(self).comps@.len() && t != m as int ==> final(self).comps@[t]
                            == old(self).comps@[t]
                    &&& final(self).comps@[m as int].ran == old(self).comps@[m as int].ran
                    &&& final(self).in_flush
                    &&& final(self).passes == old(self).passes
                },
                Result::Ok(FlushStep::RunEffect(e)) => {
                    &&& !old(self).some_queued_memo()
                    &&& old(self).queued_effect_at(e as int)
                    &&& !final(self).comps@[e as int].queued
                    &&& final(self).comps@[e as int].ran
                    &&& final(self).in_flush
                    &&& if old(self).some_fresh_effect() {
                        &&& !old(self).comps@[e as int].ran
                        &&& forall|e2: int| 0 <= e2 < e as int ==> !old(self).fresh_effect_at(e2)
                        &&& final(self).passes == old(self).passes
                        &&& forall|t: int|
                            0 <= t < old(self).comps@.len() && t != e as int ==> final(self).comps@[t] == old(self).comps@[t]
                    } else {
                        &&& forall|e2: int| 0 <= e2 < e as int ==> !old(self).queued_effect_at(e2)
                        &&& old(self).passes < FLUSH_PASS_CAP
                        &&& final(self).passes == old(self).passes + 1
                        &&& forall|t: int|
                            0 <= t < old(self).comps@.len() ==> !(#[trigger] final(self).comps@[t].ran) || t == e as int
                        &&& forall|t: int|
                            0 <= t < old(self).comps@.len() && t != e as int ==> (#[trigger] final(self).comps@[t].queued) == old(self).comps@[t].queued
                    }
                },
                Result::Ok(FlushStep::Done) => {
                    &&& !old(self).some_queued_memo()
                    &&& !old(self).some_queued_effect()
                    &&& final(self).comps@ == old(self).comps@
                    &&& !final(self).in_flush
                    &&& final(self).passes == old(self).passes
                },
                Result::Err(err) => {
                    &&& err == EngineError::CycleDetected
                    &&& !final(self).in_flush
                    &&& forall|t: int|
                        0 <= t < old(self).comps@.len() ==> !(#[trigger] final(self).comps@[t].queued) && !final(self).comps@[t].ran
                    &&& (old(self).some_queued_memo() && (forall|m: int|
                        0 <= m < old(self).comps@.len() ==> !old(self).runnable_memo(m))) || (!old(self).some_queued_memo() && old(self).some_queued_effect() && !old(self).some_fresh_effect() && old(self).passes >= FLUSH_PASS_CAP)
                },
            },
    {
        match self.find_runnable_memo() {
            Option::Some(m) => {
                self.comps[m].queued = false;
                return Ok(FlushStep::RunMemo(m));
            },
            Option::None => {},
        }
        if self.any_queued_memo() {
            self.abort_flush();
            return Err(EngineError::CycleDetected);
        }
        match self.find_fresh_effect() {
            Option::Some(e) => {
                proof {
                    assert(self.fresh_effect_at(e as int));
                }
                self.comps[e].queued = false;
                self.comps[e].ran = true;
                return Ok(FlushStep::RunEffect(e));
            },
            Option::None => {},
        }
        match self.find_queued_effect() {
            Option::Some(e) => {
                proof {
                    assert(self.queued_effect_at(e as int));
                }
                if self.passes >= FLUSH_PASS_CAP {
                    self.abort_flush();
                    return Err(EngineError::CycleDetected);
                }
                self.passes = self.passes + 1;
                self.clear_ran();
                self.comps[e].queued = false;
                self.comps[e].ran = true;
                return Ok(FlushStep::RunEffect(e));
            },
            Option::None => {},
        }
        self.in_flush = false;
        Ok(FlushStep::Done)
    }
}

} // verus!
