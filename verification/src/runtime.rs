//! The reactive core: value cells with version counters, computations
//! (effects and memos) with dynamically rebuilt dependency sets, and the
//! explicit tracking stack that `read` consults to register subscriptions.
//!
//! A cell's subscribers are not stored on the cell; a computation `j` is
//! subscribed to cell `c` exactly when `c` is in `j`'s dependency list, which
//! is rebuilt from scratch on every run of `j`. Writing a cell queues every
//! live computation subscribed to it.

use vstd::prelude::*;

use crate::value::Value;
use crate::value::ValueView;

verus! {

/// One reactive cell: a value, a version that strictly increases on every
/// write, a liveness flag (cleared on disposal), and the memo that owns the
/// cell as its output, if any.
pub struct CellState {
    pub value: Value,
    pub version: u64,
    pub live: bool,
    pub owner: Option<usize>,
}

/// One computation: an effect (`out_cell` is `None`) or a memo whose cached
/// value lives in its output cell (`out_cell` is `Some`). `deps` lists the
/// cells read during the most recent run; `queued` marks it for the next
/// flush; `ran` marks that it already ran in the current flush pass.
pub struct CompState {
    pub out_cell: Option<usize>,
    pub deps: Vec<usize>,
    pub live: bool,
    pub queued: bool,
    pub ran: bool,
}

/// The single-owner reactive graph: all cells and computations, the stack of
/// currently running computations, and the flush bookkeeping.
pub struct Runtime {
    pub cells: Vec<CellState>,
    pub comps: Vec<CompState>,
    pub stack: Vec<usize>,
    pub in_flush: bool,
    pub passes: u64,
}

/// Everything of a computation except its `queued` mark is the same.
pub open spec fn comp_same_but_queued(a: CompState, b: CompState) -> bool {
    &&& b.out_cell == a.out_cell
    &&& b.deps@ == a.deps@
    &&& b.live == a.live
    &&& b.ran == a.ran
}

/// Everything of a computation except its `deps` list is the same.
pub open spec fn comp_same_but_deps(a: CompState, b: CompState) -> bool {
    &&& b.out_cell == a.out_cell
    &&& b.live == a.live
    &&& b.queued == a.queued
    &&& b.ran == a.ran
}

/// Everything of a computation except the two flush marks is the same.
pub open spec fn comp_same_but_marks(a: CompState, b: CompState) -> bool {
    &&& b.out_cell == a.out_cell
    &&& b.deps@ == a.deps@
    &&& b.live == a.live
}

/// How a tracked read changes the runtime: cells and stack stay as they are;
/// when a computation is running, the read cell is appended to its
/// dependency list unless already present.
pub open spec fn tracked_read_rel(pre: Runtime, post: Runtime, c: int) -> bool {
    &&& post.cells@ == pre.cells@
    &&& post.stack@ == pre.stack@
    &&& post.in_flush == pre.in_flush
    &&& post.passes == pre.passes
    &&& post.comps@.len() == pre.comps@.len()
    &&& if pre.stack@.len() == 0 {
            post.comps@ == pre.comps@
        } else {
            let t = pre.stack@.last() as int;
            &&& forall|j: int|
                0 <= j < pre.comps@.len() && j != t ==> post.comps@[j] == pre.comps@[j]
            &&& comp_same_but_deps(pre.comps@[t], post.comps@[t])
            &&& post.comps@[t].deps@ == if pre.dep_on(t, c) {
                    pre.comps@[t].deps@
                } else {
                    pre.comps@[t].deps@.push(c as usize)
                }
        }
}

/// How a write to cell `c` changes the runtime: the cell's value is
/// replaced, its version rises by one, and every live computation that read
/// `c` during its last run is queued. Nothing else moves.
pub open spec fn write_rel(pre: Runtime, post: Runtime, c: int, v: ValueView) -> bool {
    &&& post.cells@.len() == pre.cells@.len()
    &&& post.value_at(c) == v
    &&& post.version_at(c) == pre.version_at(c) + 1
    &&& post.cells@[c].live == pre.cells@[c].live
    &&& post.cells@[c].owner == pre.cells@[c].owner
    &&& forall|i: int| 0 <= i < pre.cells@.len() && i != c ==> post.cells@[i] == pre.cells@[i]
    &&& post.comps@.len() == pre.comps@.len()
    &&& forall|j: int|
        0 <= j < pre.comps@.len() ==> comp_same_but_queued(
            pre.comps@[j],
            #[trigger] post.comps@[j],
        )
    &&& forall|j: int|
        0 <= j < pre.comps@.len() ==> (#[trigger] post.comps@[j].queued) == (pre.comps@[j].queued
            || (pre.comps@[j].live && pre.comps@[j].deps@.contains(c as usize)))
    &&& post.stack@ == pre.stack@
    &&& post.in_flush == pre.in_flush
    &&& post.passes == pre.passes
}

impl Runtime {
    pub open spec fn n_cells(self) -> int {
        self.cells@.len() as int
    }

    pub open spec fn n_comps(self) -> int {
        self.comps@.len() as int
    }

    pub open spec fn value_at(self, c: int) -> ValueView {
        self.cells@[c].value@
    }

    pub open spec fn version_at(self, c: int) -> u64 {
        self.cells@[c].version
    }

    pub open spec fn cell_live(self, c: int) -> bool {
        self.cells@[c].live
    }

    pub open spec fn has_owner(self, c: int) -> bool {
        self.cells@[c].owner is Some
    }

    pub open spec fn owner_idx(self, c: int) -> int {
        self.cells@[c].owner->0 as int
    }

    pub open spec fn comp_live(self, j: int) -> bool {
        self.comps@[j].live
    }

    pub open spec fn is_queued(self, j: int) -> bool {
        self.comps@[j].queued
    }

    pub open spec fn has_ran(self, j: int) -> bool {
        self.comps@[j].ran
    }

    pub open spec fn dep_seq(self, j: int) -> Seq<usize> {
        self.comps@[j].deps@
    }

    /// Computation `j` read cell `c` during its last run, i.e. it is
    /// subscribed to `c`.
    pub open spec fn dep_on(self, j: int, c: int) -> bool {
        self.dep_seq(j).contains(c as usize)
    }

    pub open spec fn is_memo(self, j: int) -> bool {
        self.comps@[j].out_cell is Some
    }

    pub open spec fn is_effect(self, j: int) -> bool {
        self.comps@[j].out_cell is None
    }

    pub open spec fn out_of(self, j: int) -> int {
        self.comps@[j].out_cell->0 as int
    }

    /// A memo's cached value is the value of its output cell.
    pub open spec fn cached_of(self, j: int) -> ValueView {
        self.value_at(self.out_of(j))
    }

    /// The computation currently being tracked, i.e. the top of the stack.
    pub open spec fn running(self) -> Option<usize> {
        if self.stack@.len() == 0 {
            None
        } else {
            Some(self.stack@.last())
        }
    }

    /// Well-formedness of the graph: dependency lists point at cells; queued
    /// computations are live; a memo and its output cell point at each other
    /// and live and die together; the stack holds distinct live
    /// computations.
    pub open spec fn wf(self) -> bool {
        &&& forall|j: int, k: int|
            0 <= j < self.comps@.len() && 0 <= k < self.comps@[j].deps@.len()
                ==> (#[trigger] self.comps@[j].deps@[k]) < self.cells@.len()
        &&& forall|j: int|
            0 <= j < self.comps@.len() && (#[trigger] self.comps@[j].queued)
                ==> self.comps@[j].live
        &&& forall|j: int|
            0 <= j < self.comps@.len() && (#[trigger] self.comps@[j].out_cell) is Some ==> {
                let oc = self.comps@[j].out_cell->0 as int;
                &&& oc < self.cells@.len()
                &&& self.cells@[oc].owner == Some(j as usize)
                &&& self.cells@[oc].live == self.comps@[j].live
            }
        &&& forall|c: int|
            0 <= c < self.cells@.len() && (#[trigger] self.cells@[c].owner) is Some ==> {
                let m = self.cells@[c].owner->0 as int;
                &&& 0 <= m < self.comps@.len()
                &&& self.comps@[m].out_cell == Some(c as usize)
            }
        &&& forall|s: int|
            0 <= s < self.stack@.len()
                ==> (#[trigger] self.stack@[s]) < self.comps@.len()
                && self.comps@[self.stack@[s] as int].live
        &&& forall|s1: int, s2: int|
            0 <= s1 < s2 < self.stack@.len() ==> self.stack@[s1] != self.stack@[s2]
    }

    /// A fresh, empty reactive graph.
    pub fn new() -> (rt: Runtime)
        ensures
            rt.wf(),
            rt.n_cells() == 0,
            rt.n_comps() == 0,
            rt.stack@.len() == 0,
            !rt.in_flush,
    {
        Runtime {
            cells: Vec::new(),
            comps: Vec::new(),
            stack: Vec::new(),
            in_flush: false,
            passes: 0,
        }
    }

    /// Creates a cell holding `v`, at version zero, subscribed to by nobody.
    pub fn new_cell(&mut self, v: Value) -> (c: usize)
        requires
            old(self).wf(),
        ensures
            final(self).wf(),
            c as int == old(self).n_cells(),
            final(self).n_cells() == old(self).n_cells() + 1,
            final(self).cells@[c as int].value == v,
            final(self).value_at(c as int) == v@,
            final(self).version_at(c as int) == 0,
            final(self).cell_live(c as int),
            !final(self).has_owner(c as int),
            forall|i: int| 0 <= i < old(self).n_cells() ==> final(self).cells@[i] == old(self).cells@[i],
            final(self).comps@ == old(self).comps@,
            final(self).stack@ == old(self).stack@,
            final(self).in_flush == old(self).in_flush,
            final(self).passes == old(self).passes,
    {
        let c = self.cells.len();
        self.cells.push(CellState { value: v, version: 0, live: true, owner: None });
        c
    }

    /// Creates an effect. With `run_immediately` it is queued at once, so the
    /// first flush runs it before any dependency has changed; otherwise it
    /// waits for its first run to be driven directly or for a dependency
    /// write after its dependencies exist.
    pub fn new_effect(&mut self, run_immediately: bool) -> (j: usize)
        requires
            old(self).wf(),
        ensures
            final(self).wf(),
            j as int == old(self).n_comps(),
            final(self).n_comps() == old(self).n_comps() + 1,
            final(self).is_effect(j as int),
            final(self).comp_live(j as int),
            final(self).is_queued(j as int) == run_immediately,
            !final(self).has_ran(j as int),
            final(self).dep_seq(j as int).len() == 0,
            forall|i: int| 0 <= i < old(self).n_comps() ==> final(self).comps@[i] == old(self).comps@[i],
            final(self).cells@ == old(self).cells@,
            final(self).stack@ == old(self).stack@,
            final(self).in_flush == old(self).in_flush,
            final(self).passes == old(self).passes,
    {
        let j = self.comps.len();
        self.comps.push(
            CompState {
                out_cell: None,
                deps: Vec::new(),
                live: true,
                queued: run_immediately,
                ran: false,
            },
        );
        j
    }

    /// Creates a memo whose cache starts at `initial`, together with its
    /// output cell. The memo starts queued: it has never computed, so its
    /// first flush (or a direct first run) must run it.
    pub fn new_memo(&mut self, initial: Value) -> (j: usize)
        requires
            old(self).wf(),
        ensures
            final(self).wf(),
            j as int == old(self).n_comps(),
            final(self).n_comps() == old(self).n_comps() + 1,
            final(self).n_cells() == old(self).n_cells() + 1,
            final(self).is_memo(j as int),
            final(self).comp_live(j as int),
            final(self).is_queued(j as int),
            !final(self).has_ran(j as int),
            final(self).dep_seq(j as int).len() == 0,
            final(self).out_of(j as int) == old(self).n_cells(),
            final(self).value_at(final(self).out_of(j as int)) == initial@,
            final(self).version_at(final(self).out_of(j as int)) == 0,
            final(self).cell_live(final(self).out_of(j as int)),
            forall|i: int| 0 <= i < old(self).n_comps() ==> final(self).comps@[i] == old(self).comps@[i],
            forall|i: int| 0 <= i < old(self).n_cells() ==> final(self).cells@[i] == old(self).cells@[i],
            final(self).stack@ == old(self).stack@,
            final(self).in_flush == old(self).in_flush,
            final(self).passes == old(self).passes,
    {
        let j = self.comps.len();
        let c = self.cells.len();
        self.cells.push(CellState { value: initial, version: 0, live: true, owner: Some(j) });
        self.comps.push(
            CompState { out_cell: Some(c), deps: Vec::new(), live: true, queued: true, ran: false },
        );
        j
    }

    /// Reads a cell. If a computation is running, it becomes a subscriber of
    /// the cell: the cell is recorded in its dependency list. Reads outside
    /// any run have no side effect.
    pub fn read(&mut self, c: usize) -> (v: Value)
        requires
            old(self).wf(),
            (c as int) < old(self).n_cells(),
        ensures
            final(self).wf(),
            v == old(self).cells@[c as int].value,
            v@ == old(self).value_at(c as int),
            tracked_read_rel(*old(self), *final(self), c as int),
    {
        if self.stack.len() > 0 {
            let t = self.stack[self.stack.len() - 1];
            if !contains_id(&self.comps[t].deps, c) {
                self.comps[t].deps.push(c);
            }
        }
        self.cells[c].value.clone()
    }

    /// Reads a cell without ever subscribing, whatever is running.
    pub fn peek(&self, c: usize) -> (v: Value)
        requires
            (c as int) < self.n_cells(),
        ensures
            v == self.cells@[c as int].value,
            v@ == self.value_at(c as int),
    {
        self.cells[c].value.clone()
    }

    /// The cell's current version.
    pub fn version(&self, c: usize) -> (ver: u64)
        requires
            (c as int) < self.n_cells(),
        ensures
            ver == self.version_at(c as int),
    {
        self.cells[c].version
    }

    /// Writes a cell: stores the value, bumps the version, and queues every
    /// live subscriber. Writing a value equal to the current one is still a
    /// write; there is no equality short-circuit on cells.
    pub fn write(&mut self, c: usize, v: Value)
        requires
            old(self).wf(),
            (c as int) < old(self).n_cells(),
            old(self).cell_live(c as int),
            old(self).version_at(c as int) < u64::MAX,
        ensures
            final(self).wf(),
            final(self).cells@[c as int].value == v,
            write_rel(*old(self), *final(self), c as int, v@),
    {
        self.cells[c].value = v;
        let ver = self.cells[c].version;
        self.cells[c].version = ver + 1;
        let n = self.comps.len();
        let mut j: usize = 0;
        while j < n
            invariant
                j <= n,
                old(self).wf(),
                (c as int) < old(self).cells@.len(),
                n == self.comps@.len(),
                self.comps@.len() == old(self).comps@.len(),
                self.cells@.len() == old(self).cells@.len(),
                (c as int) < self.cells@.len(),
                self.cells@[c as int].value == v,
                self.cells@[c as int].version == old(self).version_at(c as int) + 1,
                self.cells@[c as int].live == old(self).cells@[c as int].live,
                self.cells@[c as int].owner == old(self).cells@[c as int].owner,
                forall|i: int|
                    0 <= i < old(self).cells@.len() && i != c as int ==> self.cells@[i] == old(self).cells@[i],
                self.stack@ == old(self).stack@,
                self.in_flush == old(self).in_flush,
                self.passes == old(self).passes,
                forall|t: int|
                    0 <= t < n ==> comp_same_but_queued(
                        old(self).comps@[t],
                        #[trigger] self.comps@[t],
                    ),
                forall|t: int|
                    0 <= t < j ==> (#[trigger] self.comps@[t].queued) == (old(self).comps@[t].queued || (old(self).comps@[t].live
                        && old(self).comps@[t].deps@.contains(c))),
                forall|t: int| j <= t < n ==> self.comps@[t] == old(self).comps@[t],
            decreases n - j,
        {
            if self.comps[j].live && contains_id(&self.comps[j].deps, c) {
                self.comps[j].queued = true;
            }
            j += 1;
        }
    }

    /// The opt-in equality check on writes: a value equal to the current one
    /// is not written at all — no version bump, no subscriber queued — and
    /// the call reports whether it wrote. Plain `write` stays the default.
    pub fn write_if_changed(&mut self, c: usize, v: Value) -> (wrote: bool)
        requires
            old(self).wf(),
            (c as int) < old(self).n_cells(),
            old(self).cell_live(c as int),
            old(self).version_at(c as int) < u64::MAX,
        ensures
            final(self).wf(),
            wrote == (old(self).value_at(c as int) != v@),
            !wrote ==> *final(self) == *old(self),
            wrote ==> final(self).cells@[c as int].value == v && write_rel(
                *old(self),
                *final(self),
                c as int,
                v@,
            ),
    {
        let same = self.cells[c].value.eq_value(&v);
        if same {
            false
        } else {
            self.write(c, v);
            true
        }
    }

    /// Pushes a computation onto the tracking stack and clears its
    /// dependency list: the run now starting rebuilds the subscriptions from
    /// scratch, so dependency sets may shrink or grow between runs.
    pub fn begin_run(&mut self, j: usize)
        requires
            old(self).wf(),
            (j as int) < old(self).n_comps(),
            old(self).comp_live(j as int),
            !old(self).stack@.contains(j),
        ensures
            final(self).wf(),
            final(self).n_comps() == old(self).n_comps(),
            final(self).stack@ == old(self).stack@.push(j),
            final(self).dep_seq(j as int).len() == 0,
            comp_same_but_deps(old(self).comps@[j as int], final(self).comps@[j as int]),
            forall|i: int|
                0 <= i < old(self).n_comps() && i != j as int ==> final(self).comps@[i] == old(self).comps@[i],
            final(self).cells@ == old(self).cells@,
            final(self).in_flush == old(self).in_flush,
            final(self).passes == old(self).passes,
    {
        self.comps[j].deps.clear();
        self.stack.push(j);
    }

    /// Pops an effect off the tracking stack at the end of its run.
    pub fn end_effect_run(&mut self, j: usize)
        requires
            old(self).wf(),
            old(self).stack@.len() > 0,
            old(self).stack@.last() == j,
            old(self).is_effect(j as int),
        ensures
            final(self).wf(),
            final(self).stack@ == old(self).stack@.drop_last(),
            final(self).cells@ == old(self).cells@,
            final(self).comps@ == old(self).comps@,
            final(self).in_flush == old(self).in_flush,
            final(self).passes == old(self).passes,
    {
        let _ = self.stack.pop();
    }

    /// Pops a memo off the tracking stack and installs the value its run
    /// computed. The memo is clean afterwards. Only if the value differs
    /// from the cached one is the output cell written — the equality
    /// short-circuit that keeps unchanged memos from waking their
    /// subscribers.
    pub fn end_memo_run(&mut self, j: usize, v: Value)
        requires
            old(self).wf(),
            old(self).stack@.len() > 0,
            old(self).stack@.last() == j,
            old(self).is_memo(j as int),
            old(self).version_at(old(self).out_of(j as int)) < u64::MAX,
        ensures
            final(self).wf(),
            final(self).stack@ == old(self).stack@.drop_last(),
            final(self).n_cells() == old(self).n_cells(),
            final(self).n_comps() == old(self).n_comps(),
            final(self).cached_of(j as int) == v@,
            final(self).in_flush == old(self).in_flush,
            final(self).passes == old(self).passes,
            old(self).cached_of(j as int) == v@ ==> {
                &&& final(self).cells@ == old(self).cells@
                &&& forall|i: int|
                    0 <= i < old(self).n_comps() && i != j as int ==> final(self).comps@[i] == old(self).comps@[i]
                &&& comp_same_but_queued(old(self).comps@[j as int], final(self).comps@[j as int])
            },
            old(self).cached_of(j as int) != v@ ==> {
                let out = old(self).out_of(j as int);
                &&& final(self).value_at(out) == v@
                &&& final(self).version_at(out) == old(self).version_at(out) + 1
                &&& final(self).cells@[out].live == old(self).cells@[out].live
                &&& final(self).cells@[out].owner == old(self).cells@[out].owner
                &&& forall|i: int|
                    0 <= i < old(self).n_cells() && i != out ==> final(self).cells@[i] == old(self).cells@[i]
                &&& forall|t: int|
                    0 <= t < old(self).n_comps() ==> comp_same_but_queued(
                        old(self).comps@[t],
                        #[trigger] final(self).comps@[t],
                    )
                &&& forall|t: int|
                    0 <= t < old(self).n_comps() ==> (#[trigger] final(self).comps@[t].queued)
                        == ((old(self).comps@[t].queued && t != j as int) || (old(self).comps@[t].live && old(self).comps@[t].deps@.contains(out as usize)))
            },
    {
        let _ = self.stack.pop();
        self.comps[j].queued = false;
        let out = self.comps[j].out_cell.unwrap();
        let same = self.cells[out].value.eq_value(&v);
        if !same {
            self.write(out, v);
        }
    }

    /// A memo's current value, for a subscriber: the cached value when the
    /// memo is clean, `None` when it is queued (stale) — the driver must then
    /// run its derivation and `end_memo_run` first. Either way the running
    /// computation, if any, subscribes to the memo's output cell.
    pub fn memo_value(&mut self, m: usize) -> (r: Option<Value>)
        requires
            old(self).wf(),
            (m as int) < old(self).n_comps(),
            old(self).is_memo(m as int),
        ensures
            final(self).wf(),
            tracked_read_rel(*old(self), *final(self), old(self).out_of(m as int)),
            r is Some <==> !old(self).comps@[m as int].queued,
            r is Some ==> r->0@ == old(self).cached_of(m as int),
    {
        let out = self.comps[m].out_cell.unwrap();
        let v = self.read(out);
        if self.comps[m].queued {
            None
        } else {
            Some(v)
        }
    }

    /// Disposes an effect: cleared and dead, it leaves every subscriber set
    /// and is never queued again.
    pub fn dispose_effect(&mut self, j: usize)
        requires
            old(self).wf(),
            (j as int) < old(self).n_comps(),
            old(self).is_effect(j as int),
            !old(self).stack@.contains(j),
        ensures
            final(self).wf(),
            final(self).n_comps() == old(self).n_comps(),
            !final(self).comps@[j as int].live,
            !final(self).comps@[j as int].queued,
            final(self).comps@[j as int].deps@.len() == 0,
            final(self).comps@[j as int].out_cell == old(self).comps@[j as int].out_cell,
            forall|i: int|
                0 <= i < old(self).n_comps() && i != j as int ==> final(self).comps@[i] == old(self).comps@[i],
            final(self).cells@ == old(self).cells@,
            final(self).stack@ == old(self).stack@,
            final(self).in_flush == old(self).in_flush,
            final(self).passes == old(self).passes,
    {
        self.comps[j].deps.clear();
        self.comps[j].queued = false;
        self.comps[j].live = false;
    }

    /// Disposes a memo together with its output cell; the cached value and
    /// version remain readable but the cell can no longer be written.
    pub fn dispose_memo(&mut self, j: usize)
        requires
            old(self).wf(),
            (j as int) < old(self).n_comps(),
            old(self).is_memo(j as int),
            !old(self).stack@.contains(j),
        ensures
            final(self).wf(),
            final(self).n_comps() == old(self).n_comps(),
            !final(self).comps@[j as int].live,
            !final(self).comps@[j as int].queued,
            final(self).comps@[j as int].deps@.len() == 0,
            final(self).comps@[j as int].out_cell == old(self).comps@[j as int].out_cell,
            forall|i: int|
                0 <= i < old(self).n_comps() && i != j as int ==> final(self).comps@[i] == old(self).comps@[i],
            final(self).cells@.len() == old(self).cells@.len(),
            !final(self).cell_live(old(self).out_of(j as int)),
            final(self).cells@[old(self).out_of(j as int)].value == old(self).cells@[old(self).out_of(j as int)].value,
            final(self).cells@[old(self).out_of(j as int)].version == old(self).cells@[old(self).out_of(j as int)].version,
            final(self).cells@[old(self).out_of(j as int)].owner == old(self).cells@[old(self).out_of(j as int)].owner,
            forall|i: int|
                0 <= i < old(self).n_cells() && i != old(self).out_of(j as int) ==> final(self).cells@[i] == old(self).cells@[i],
            final(self).stack@ == old(self).stack@,
            final(self).in_flush == old(self).in_flush,
            final(self).passes == old(self).passes,
    {
        proof {
            vstd::std_specs::vec::axiom_spec_len(&self.comps);
        }
        self.comps[j].deps.clear();
        self.comps[j].queued = false;
        self.comps[j].live = false;
        let out = self.comps[j].out_cell.unwrap();
        self.cells[out].live = false;
        proof {
            assert forall|j2: int|
                0 <= j2 < self.comps@.len() && j2 != j as int
                    && (#[trigger] self.comps@[j2].out_cell) is Some implies self.comps@[
                j2
            ].out_cell->0 as int != out as int by {
                assert(self.comps@.len() <= usize::MAX);
                assert(old(self).comps@[j as int].out_cell is Some);
                assert(old(self).comps@[j2].out_cell is Some);
                assert(old(self).cells@[out as int].owner == Some(j));
                assert(old(self).cells@[old(self).comps@[j2].out_cell->0 as int].owner == Some(
                    #[verifier::truncate] (j2 as usize),
                ));
            }
        }
    }

    /// Disposes a plain cell (one not owned by a memo): dead cells keep
    /// their last value and version but can no longer be written.
    pub fn dispose_cell(&mut self, c: usize)
        requires
            old(self).wf(),
            (c as int) < old(self).n_cells(),
            !old(self).has_owner(c as int),
        ensures
            final(self).wf(),
            !final(self).cell_live(c as int),
            final(self).cells@[c as int].value == old(self).cells@[c as int].value,
            final(self).cells@[c as int].version == old(self).cells@[c as int].version,
            final(self).cells@[c as int].owner == old(self).cells@[c as int].owner,
            final(self).cells@.len() == old(self).cells@.len(),
            forall|i: int|
                0 <= i < old(self).n_cells() && i != c as int ==> final(self).cells@[i] == old(self).cells@[i],
            final(self).comps@ == old(self).comps@,
            final(self).stack@ == old(self).stack@,
            final(self).in_flush == old(self).in_flush,
            final(self).passes == old(self).passes,
    {
        self.cells[c].live = false;
    }
}

/// A linear scan: is `x` among the ids in `v`?
pub fn contains_id(v: &Vec<usize>, x: usize) -> (r: bool)
    ensures
        r == v@.contains(x),
{
    let n = v.len();
    let mut k: usize = 0;
    while k < n
        invariant
            k <= n,
            n == v@.len(),
            forall|t: int| 0 <= t < k ==> v@[t] != x,
        decreases n - k,
    {
        if v[k] == x {
            return true;
        }
        k += 1;
    }
    false
}

} // verus!
