//! Resources: an async fetch bound to reactive inputs, with stale-result
//! suppression by version tags.
//!
//! The engine never runs the fetch itself. A driver effect watching the
//! source cells calls `begin_fetch`, obtains the version tag for the new
//! fetch, and starts the async work outside the engine; when the work is
//! done, its result is marshalled back as a plain value through `complete`.
//! A completion whose tag is no longer the most recently issued one — the
//! fetch was superseded — is dropped silently, so the observable state never
//! regresses to an older fetch's result.

use vstd::prelude::*;

use crate::runtime::tracked_read_rel;
use crate::runtime::write_rel;
use crate::runtime::Runtime;
use crate::value::Value;
use crate::value::ValueView;

verus! {

/// The fetch state machine: `Idle` until the first fetch; `Loading(v)`
/// while fetch `v` is the latest; then `Ready` or `Failed` at the version
/// that settled.
#[derive(Debug)]
pub enum FetchState {
    Idle,
    Loading { version: u64 },
    Ready { value: Value, version: u64 },
    Failed { error: String, version: u64 },
}

impl Clone for FetchState {
    /// A clone is the same state.
    fn clone(&self) -> (r: Self)
        ensures
            r == *self,
    {
        match self {
            FetchState::Idle => FetchState::Idle,
            FetchState::Loading { version } => FetchState::Loading { version: *version },
            FetchState::Ready { value, version } => FetchState::Ready {
                value: value.clone(),
                version: *version,
            },
            FetchState::Failed { error, version } => FetchState::Failed {
                error: error.clone(),
                version: *version,
            },
        }
    }
}

impl FetchState {
    /// The version the state belongs to; zero before any fetch.
    pub open spec fn spec_version(self) -> u64 {
        match self {
            FetchState::Idle => 0,
            FetchState::Loading { version } => version,
            FetchState::Ready { value, version } => version,
            FetchState::Failed { error, version } => version,
        }
    }
}

/// An async fetch bound to the reactive graph. `latest` is the version of
/// the most recently issued fetch; only a completion carrying `latest` may
/// settle the state. `notify` is a cell written on every state change, so
/// that computations which took a snapshot re-run.
pub struct Resource {
    pub state: FetchState,
    pub latest: u64,
    pub notify: usize,
    pub live: bool,
}

impl Resource {
    /// The resource's notify cell is a plain live cell of the runtime (until
    /// disposal).
    pub open spec fn wf_in(self, rt: Runtime) -> bool {
        &&& (self.notify as int) < rt.cells@.len()
        &&& rt.cells@[self.notify as int].owner is None
        &&& self.live ==> rt.cells@[self.notify as int].live
    }

    pub open spec fn is_pending(self) -> bool {
        self.state is Loading
    }

    /// A new resource: idle, no fetch issued yet, with a fresh notify cell.
    pub fn new(rt: &mut Runtime) -> (r: Resource)
        requires
            old(rt).wf(),
        ensures
            final(rt).wf(),
            r.wf_in(*final(rt)),
            r.live,
            r.state is Idle,
            r.latest == 0,
            r.notify as int == old(rt).n_cells(),
            final(rt).n_cells() == old(rt).n_cells() + 1,
            forall|i: int|
                0 <= i < old(rt).n_cells() ==> final(rt).cells@[i] == old(rt).cells@[i],
            final(rt).comps@ == old(rt).comps@,
            final(rt).stack@ == old(rt).stack@,
            final(rt).in_flush == old(rt).in_flush,
            final(rt).passes == old(rt).passes,
    {
        let notify = rt.new_cell(Value::Unit);
        Resource { state: FetchState::Idle, latest: 0, notify, live: true }
    }

    /// Issues a new fetch: the next version is handed out, the state moves
    /// to `Loading` at that version, and subscribers are notified. Any
    /// fetch still in flight keeps running but is now superseded.
    pub fn begin_fetch(&mut self, rt: &mut Runtime) -> (v: u64)
        requires
            old(rt).wf(),
            old(self).wf_in(*old(rt)),
            old(self).live,
            old(self).latest < u64::MAX,
            old(rt).version_at(old(self).notify as int) < u64::MAX,
        ensures
            final(rt).wf(),
            final(self).wf_in(*final(rt)),
            v == old(self).latest + 1,
            final(self).latest == v,
            final(self).state == (FetchState::Loading { version: v }),
            final(self).notify == old(self).notify,
            final(self).live,
            write_rel(*old(rt), *final(rt), old(self).notify as int, ValueView::Unit),
    {
        self.latest = self.latest + 1;
        self.state = FetchState::Loading { version: self.latest };
        rt.write(self.notify, Value::Unit);
        self.latest
    }

    /// Applies a finished fetch. Only when the resource is live and
    /// `version` is still the most recently issued one does the state
    /// settle to `Ready` or `Failed` and wake the subscribers; a stale
    /// completion, or one arriving after disposal, is dropped and nothing
    /// at all changes.
    pub fn complete(&mut self, rt: &mut Runtime, version: u64, outcome: Result<Value, String>)
        requires
            old(rt).wf(),
            old(self).wf_in(*old(rt)),
            old(rt).version_at(old(self).notify as int) < u64::MAX,
        ensures
            final(rt).wf(),
            final(self).wf_in(*final(rt)),
            final(self).latest == old(self).latest,
            final(self).notify == old(self).notify,
            final(self).live == old(self).live,
            !(old(self).live && version == old(self).latest) ==> *final(self) == *old(self)
                && *final(rt) == *old(rt),
            (old(self).live && version == old(self).latest) ==> {
                &&& final(self).state == match outcome {
                    Result::Ok(v) => FetchState::Ready { value: v, version },
                    Result::Err(e) => FetchState::Failed { error: e, version },
                }
                &&& write_rel(*old(rt), *final(rt), old(self).notify as int, ValueView::Unit)
            },
    {
        if !self.live {
            return ;
        }
        if version != self.latest {
            return ;
        }
        match outcome {
            Result::Ok(v) => {
                self.state = FetchState::Ready { value: v, version };
            },
            Result::Err(e) => {
                self.state = FetchState::Failed { error: e, version };
            },
        }
        rt.write(self.notify, Value::Unit);
    }

    /// The current state, as a subscriber sees it: the running computation,
    /// if any, subscribes to the resource's notify cell.
    pub fn snapshot(&self, rt: &mut Runtime) -> (s: FetchState)
        requires
            old(rt).wf(),
            self.wf_in(*old(rt)),
        ensures
            final(rt).wf(),
            tracked_read_rel(*old(rt), *final(rt), self.notify as int),
            s == self.state,
    {
        let _ = rt.read(self.notify);
        self.state.clone()
    }

    /// Is a fetch in flight?
    pub fn pending(&self) -> (b: bool)
        ensures
            b == self.is_pending(),
    {
        matches!(self.state, FetchState::Loading { .. })
    }

    /// Has the fetch issued as version `v` been answered? True once the
    /// state is `Ready` or `Failed` at version `v` or later — the shape a
    /// waiting consumer polls for.
    pub fn settled_after(&self, v: u64) -> (b: bool)
        ensures
            b == (!(self.state is Idle) && !(self.state is Loading) && self.state.spec_version()
                >= v),
    {
        match &self.state {
            FetchState::Idle => false,
            FetchState::Loading { .. } => false,
            FetchState::Ready { version, .. } => *version >= v,
            FetchState::Failed { version, .. } => *version >= v,
        }
    }

    /// Disposes the resource: its notify cell dies with it, and any
    /// completion still in flight will be dropped.
    pub fn dispose(&mut self, rt: &mut Runtime)
        requires
            old(rt).wf(),
            old(self).wf_in(*old(rt)),
        ensures
            final(rt).wf(),
            final(self).wf_in(*final(rt)),
            !final(self).live,
            final(self).state == old(self).state,
            final(self).latest == old(self).latest,
            final(self).notify == old(self).notify,
            !final(rt).cell_live(old(self).notify as int),
            final(rt).cells@.len() == old(rt).cells@.len(),
            forall|i: int|
                0 <= i < old(rt).n_cells() && i != old(self).notify as int ==> final(rt).cells@[i] == old(rt).cells@[i],
            final(rt).comps@ == old(rt).comps@,
            final(rt).stack@ == old(rt).stack@,
            final(rt).in_flush == old(rt).in_flush,
            final(rt).passes == old(rt).passes,
    {
        self.live = false;
        rt.dispose_cell(self.notify);
    }
}

} // verus!
