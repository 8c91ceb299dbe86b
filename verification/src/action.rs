//! Actions: a dispatchable async mutation with pending state, last input,
//! last result and a monotonic dispatch version.
//!
//! `dispatch` is synchronous bookkeeping: it raises `pending`, increments
//! the dispatch version exactly once, records the input, and returns at
//! once — the async mutation itself runs outside the engine and hands its
//! result back through `settle`. A watcher that wants to react exactly once
//! per settled dispatch compares the current dispatch version with the last
//! version it acted on (`newly_settled`) and then stores the new version;
//! watching `pending` alone is not enough, since intermediate states can be
//! observed any number of times under batching.

use vstd::prelude::*;

use crate::runtime::tracked_read_rel;
use crate::runtime::write_rel;
use crate::runtime::Runtime;
use crate::value::Value;
use crate::value::ValueView;

verus! {

/// A dispatchable async mutation bound to the reactive graph. `notify` is a
/// cell written on every dispatch and every settlement, so that watching
/// computations re-run.
pub struct Action {
    pub pending: bool,
    pub dispatch_version: u64,
    pub last_input: Option<Value>,
    pub last_result: Option<Result<Value, String>>,
    pub notify: usize,
    pub live: bool,
}

impl Action {
    /// The action's notify cell is a plain live cell of the runtime (until
    /// disposal).
    pub open spec fn wf_in(self, rt: Runtime) -> bool {
        &&& (self.notify as int) < rt.cells@.len()
        &&& rt.cells@[self.notify as int].owner is None
        &&& self.live ==> rt.cells@[self.notify as int].live
    }

    /// A new action: not pending, version zero, nothing dispatched yet.
    pub fn new(rt: &mut Runtime) -> (a: Action)
        requires
            old(rt).wf(),
        ensures
            final(rt).wf(),
            a.wf_in(*final(rt)),
            a.live,
            !a.pending,
            a.dispatch_version == 0,
            a.last_input is None,
            a.last_result is None,
            a.notify as int == old(rt).n_cells(),
            final(rt).n_cells() == old(rt).n_cells() + 1,
            forall|i: int|
                0 <= i < old(rt).n_cells() ==> final(rt).cells@[i] == old(rt).cells@[i],
            final(rt).comps@ == old(rt).comps@,
            final(rt).stack@ == old(rt).stack@,
            final(rt).in_flush == old(rt).in_flush,
            final(rt).passes == old(rt).passes,
    {
        let notify = rt.new_cell(Value::Unit);
        Action {
            pending: false,
            dispatch_version: 0,
            last_input: None,
            last_result: None,
            notify,
            live: true,
        }
    }

    /// Dispatches the mutation: `pending` rises, the dispatch version
    /// increments exactly once — before the async work starts — the input
    /// is recorded, watchers are woken, and the caller gets the new version
    /// back without blocking. The previous result stays readable until the
    /// new mutation settles.
    pub fn dispatch(&mut self, rt: &mut Runtime, input: Value) -> (v: u64)
        requires
            old(rt).wf(),
            old(self).wf_in(*old(rt)),
            old(self).live,
            old(self).dispatch_version < u64::MAX,
            old(rt).version_at(old(self).notify as int) < u64::MAX,
        ensures
            final(rt).wf(),
            final(self).wf_in(*final(rt)),
            v == old(self).dispatch_version + 1,
            final(self).dispatch_version == v,
            final(self).pending,
            final(self).last_input == Some(input),
            final(self).last_result == old(self).last_result,
            final(self).notify == old(self).notify,
            final(self).live,
            write_rel(*old(rt), *final(rt), old(self).notify as int, ValueView::Unit),
    {
        self.pending = true;
        self.dispatch_version = self.dispatch_version + 1;
        self.last_input = Some(input);
        rt.write(self.notify, Value::Unit);
        self.dispatch_version
    }

    /// Applies a finished mutation: `pending` clears — also on failure —
    /// the result is stored, and watchers are woken. A settlement arriving
    /// after disposal is dropped and nothing changes. When two dispatches
    /// overlap, each settlement is applied as it arrives, so the stored
    /// result is whichever settled last.
    pub fn settle(&mut self, rt: &mut Runtime, outcome: Result<Value, String>)
        requires
            old(rt).wf(),
            old(self).wf_in(*old(rt)),
            old(rt).version_at(old(self).notify as int) < u64::MAX,
        ensures
            final(rt).wf(),
            final(self).wf_in(*final(rt)),
            !old(self).live ==> *final(self) == *old(self) && *final(rt) == *old(rt),
            old(self).live ==> {
                &&& !final(self).pending
                &&& final(self).last_result == Some(outcome)
                &&& final(self).dispatch_version == old(self).dispatch_version
                &&& final(self).last_input == old(self).last_input
                &&& final(self).notify == old(self).notify
                &&& final(self).live
                &&& write_rel(*old(rt), *final(rt), old(self).notify as int, ValueView::Unit)
            },
    {
        if !self.live {
            return ;
        }
        self.pending = false;
        self.last_result = Some(outcome);
        rt.write(self.notify, Value::Unit);
    }

    /// The watcher idiom: true exactly when a dispatch newer than
    /// `last_seen` has settled. The running computation, if any, subscribes
    /// to the action's notify cell; a watcher that reacts must store the
    /// current dispatch version as its new `last_seen`.
    pub fn newly_settled(&self, rt: &mut Runtime, last_seen: u64) -> (r: bool)
        requires
            old(rt).wf(),
            self.wf_in(*old(rt)),
        ensures
            final(rt).wf(),
            tracked_read_rel(*old(rt), *final(rt), self.notify as int),
            r == (self.dispatch_version > last_seen && !self.pending),
    {
        let _ = rt.read(self.notify);
        self.dispatch_version > last_seen && !self.pending
    }

    /// Disposes the action: its notify cell dies with it, and any
    /// settlement still in flight will be dropped.
    pub fn dispose(&mut self, rt: &mut Runtime)
        requires
            old(rt).wf(),
            old(self).wf_in(*old(rt)),
        ensures
            final(rt).wf(),
            final(self).wf_in(*final(rt)),
            !final(self).live,
            final(self).pending == old(self).pending,
            final(self).dispatch_version == old(self).dispatch_version,
            final(self).last_input == old(self).last_input,
            final(self).last_result == old(self).last_result,
            final(self).notify == old(self).notify,
            !final(rt).cell_live(old(self).notify as int),
            final(rt).cells@.len() == old(rt).cells@.len(),
            forall|i: int|
                0 <= i < old(rt).n_cells() && i != old(self).notify as int ==> final(rt).cells@[i] == old(rt).cells@[i],
            final(rt).comps@ == old(rt).comps@,
            final(rt).stack@ == old(rt).stack@,
            final(rt).in_flush == old(rt).in_flush,
            final(rt).passes == old(rt).passes,
    {
        self.live = false;
        rt.dispose_cell(self.notify);
    }
}

} // verus!
