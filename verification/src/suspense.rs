//! Suspense scopes: a boundary's aggregate view over the resources
//! registered within it.
//!
//! A scope tracks a fixed set of resources, registered at construction
//! time. `any_pending` answers whether any tracked resource is still
//! loading, and subscribes the running computation to every tracked
//! resource's notify cell — the boundary's effect re-runs whenever any of
//! them changes state, with no polling.

use vstd::prelude::*;

use crate::resource::Resource;
use crate::runtime::comp_same_but_deps;
use crate::runtime::Runtime;

verus! {

/// A rendering boundary's tracked set of resources, held as indices into
/// the caller's resource list.
pub struct SuspenseScope {
    pub members: Vec<usize>,
}

impl SuspenseScope {
    /// Every member points at a resource, and that resource's notify cell
    /// is a cell of the runtime.
    pub open spec fn wf_in(self, resources: Seq<Resource>, rt: Runtime) -> bool {
        forall|k: int|
            0 <= k < self.members@.len() ==> {
                &&& ((#[trigger] self.members@[k]) as int) < resources.len()
                &&& ((resources[self.members@[k] as int].notify) as int) < rt.cells@.len()
            }
    }

    /// Is any tracked resource still loading?
    pub open spec fn spec_any_pending(self, resources: Seq<Resource>) -> bool {
        exists|k: int|
            0 <= k < self.members@.len() && resources[(#[trigger] self.members@[k]) as int].state
                is Loading
    }

    /// An empty scope.
    pub fn new() -> (s: SuspenseScope)
        ensures
            s.members@.len() == 0,
    {
        SuspenseScope { members: Vec::new() }
    }

    /// Adds a resource to the tracked set; registration happens at
    /// construction time, not per read.
    pub fn register(&mut self, r: usize)
        ensures
            final(self).members@ == old(self).members@.push(r),
    {
        self.members.push(r);
    }

    /// True exactly when some tracked resource is loading. The running
    /// computation, if any, ends up subscribed to every tracked resource's
    /// notify cell, so it re-runs when any of them changes state.
    pub fn any_pending(&self, resources: &Vec<Resource>, rt: &mut Runtime) -> (b: bool)
        requires
            old(rt).wf(),
            self.wf_in(resources@, *old(rt)),
        ensures
            final(rt).wf(),
            b == self.spec_any_pending(resources@),
            final(rt).cells@ == old(rt).cells@,
            final(rt).stack@ == old(rt).stack@,
            final(rt).in_flush == old(rt).in_flush,
            final(rt).passes == old(rt).passes,
            final(rt).comps@.len() == old(rt).comps@.len(),
            old(rt).stack@.len() == 0 ==> final(rt).comps@ == old(rt).comps@,
            old(rt).stack@.len() > 0 ==> {
                let t = old(rt).stack@.last() as int;
                &&& forall|j: int|
                    0 <= j < old(rt).comps@.len() && j != t ==> final(rt).comps@[j] == old(
                        rt,
                    ).comps@[j]
                &&& comp_same_but_deps(old(rt).comps@[t], final(rt).comps@[t])
                &&& forall|d: int|
                    0 <= d < final(rt).comps@[t].deps@.len() ==> (old(rt).comps@[t].deps@.contains(
                        #[trigger] final(rt).comps@[t].deps@[d],
                    ) || exists|k: int|
                        0 <= k < self.members@.len() && resources@[(#[trigger] self.members@[k])
                            as int].notify == final(rt).comps@[t].deps@[d])
                &&& forall|d: int|
                    0 <= d < old(rt).comps@[t].deps@.len() ==> final(rt).comps@[t].deps@.contains(
                        #[trigger] old(rt).comps@[t].deps@[d],
                    )
                &&& forall|k: int|
                    0 <= k < self.members@.len() ==> final(rt).comps@[t].deps@.contains(
                        resources@[(#[trigger] self.members@[k]) as int].notify,
                    )
            },
    {
        let n = self.members.len();
        let mut pending = false;
        let mut k: usize = 0;
        while k < n
            invariant
                k <= n,
                old(rt).wf(),
                rt.wf(),
                n == self.members@.len(),
                self.wf_in(resources@, *old(rt)),
                pending == exists|t: int|
                    0 <= t < k && resources@[(#[trigger] self.members@[t]) as int].state
                        is Loading,
                rt.cells@ == old(rt).cells@,
                rt.stack@ == old(rt).stack@,
                rt.in_flush == old(rt).in_flush,
                rt.passes == old(rt).passes,
                rt.comps@.len() == old(rt).comps@.len(),
                old(rt).stack@.len() == 0 ==> rt.comps@ == old(rt).comps@,
                old(rt).stack@.len() > 0 ==> {
                    let t = old(rt).stack@.last() as int;
                    &&& forall|j: int|
                        0 <= j < old(rt).comps@.len() && j != t ==> rt.comps@[j] == old(
                            rt,
                        ).comps@[j]
                    &&& comp_same_but_deps(old(rt).comps@[t], rt.comps@[t])
                    &&& forall|d: int|
                        0 <= d < rt.comps@[t].deps@.len() ==> (old(rt).comps@[t].deps@.contains(
                            #[trigger] rt.comps@[t].deps@[d],
                        ) || exists|m: int|
                            0 <= m < k && resources@[(#[trigger] self.members@[m]) as int].notify
                                == rt.comps@[t].deps@[d])
                    &&& forall|d: int|
                        0 <= d < old(rt).comps@[t].deps@.len() ==> rt.comps@[t].deps@.contains(
                            #[trigger] old(rt).comps@[t].deps@[d],
                        )
                    &&& forall|m: int|
                        0 <= m < k ==> rt.comps@[t].deps@.contains(
                            resources@[(#[trigger] self.members@[m]) as int].notify,
                        )
                },
            decreases n - k,
        {
            let ridx = self.members[k];
            let ghost rt_prev = *rt;
            let _ = rt.read(resources[ridx].notify);
            let is_loading = resources[ridx].pending();
            proof {
                if old(rt).stack@.len() > 0 {
                    let t = old(rt).stack@.last() as int;
                    let dnew = rt.comps@[t].deps@;
                    let dprev = rt_prev.comps@[t].deps@;
                    if !rt_prev.dep_on(t, resources@[ridx as int].notify as int) {
                        assert(dnew == dprev.push(resources@[ridx as int].notify));
                        assert forall|d: int|
                            0 <= d < dprev.len() implies dnew.contains(#[trigger] dprev[d]) by {
                            assert(dnew[d] == dprev[d]);
                        }
                        assert(dnew.contains(resources@[ridx as int].notify)) by {
                            assert(dnew[dnew.len() - 1] == resources@[ridx as int].notify);
                        }
                    } else {
                        assert(dnew == dprev);
                    }
                    assert forall|d: int|
                        0 <= d < old(rt).comps@[t].deps@.len() implies rt.comps@[t].deps@.contains(
                            #[trigger] old(rt).comps@[t].deps@[d],
                        ) by {
                        let x = old(rt).comps@[t].deps@[d];
                        assert(rt_prev.comps@[t].deps@.contains(x));
                        let w = choose|w: int|
                            0 <= w < rt_prev.comps@[t].deps@.len() && rt_prev.comps@[t].deps@[w]
                                == x;
                        assert(rt.comps@[t].deps@[w] == x);
                    }
                    assert forall|m: int|
                        0 <= m < k + 1 implies rt.comps@[t].deps@.contains(
                            resources@[(#[trigger] self.members@[m]) as int].notify,
                        ) by {
                        if m < k {
                            let x = resources@[self.members@[m] as int].notify;
                            assert(rt_prev.comps@[t].deps@.contains(x));
                            let w = choose|w: int|
                                0 <= w < rt_prev.comps@[t].deps@.len() && rt_prev.comps@[t].deps@[w]
                                    == x;
                            assert(rt.comps@[t].deps@[w] == x);
                        } else {
                            if rt_prev.dep_on(t, resources@[ridx as int].notify as int) {
                                let x = resources@[ridx as int].notify;
                                let w = choose|w: int|
                                    0 <= w < rt_prev.comps@[t].deps@.len()
                                        && rt_prev.comps@[t].deps@[w] == x;
                                assert(rt.comps@[t].deps@[w] == x);
                            }
                        }
                    }
                }
            }
            if is_loading {
                pending = true;
            }
            k += 1;
        }
        pending
    }
}

} // verus!
