//! The keyed store: an ordered collection of rows identified by a stable
//! key, with one reactive cell per field of each row.
//!
//! `reconcile` replaces the whole collection with a new ordered list of
//! items. A row whose key persists keeps its cells — the identity a
//! subscriber captured stays valid — and only the field cells whose values
//! actually differ are written, so effects subscribed to untouched fields
//! are not queued. Rows whose key disappears have their cells disposed;
//! rows with new keys get fresh cells. Two items with the same key are a
//! usage error: the call fails with `DuplicateKey` and changes nothing.

use vstd::prelude::*;

use crate::runtime::comp_same_but_queued;
use crate::runtime::Runtime;
use crate::value::Value;
use crate::value::ValueView;
use crate::EngineError;

verus! {

/// One incoming item of a reconciliation: its key and the value of every
/// field, in field order.
pub struct RowInput {
    pub key: Value,
    pub fields: Vec<Value>,
}

/// One live row of the store: its key and the cell holding each field.
pub struct RowCells {
    pub key: Value,
    pub cells: Vec<usize>,
}

/// Two items of the sequence share a key.
pub open spec fn dup_in(items: Seq<RowInput>) -> bool {
    exists|i: int, j: int| 0 <= i < j < items.len() && items[i].key@ == items[j].key@
}

/// Some row of the store carries this key.
pub open spec fn rows_have_key(rows: Seq<RowCells>, k: ValueView) -> bool {
    exists|i: int| 0 <= i < rows.len() && (#[trigger] rows[i]).key@ == k
}

/// Some item of the sequence carries this key.
pub open spec fn items_have_key(items: Seq<RowInput>, k: ValueView) -> bool {
    exists|i: int| 0 <= i < items.len() && (#[trigger] items[i]).key@ == k
}

/// Some id among the first `upto` entries of `s` is `c`.
pub open spec fn id_among(s: Seq<usize>, upto: int, c: int) -> bool {
    exists|t: int| 0 <= t < upto && ((#[trigger] s[t]) as int) == c
}

/// Cell `c` holds a field of one of these rows.
pub open spec fn cell_of_rows(rows: Seq<RowCells>, c: int) -> bool {
    exists|i: int, f: int|
        0 <= i < rows.len() && 0 <= f < rows[i].cells@.len() && (#[trigger] rows[i].cells@[f])
            as int == c
}

/// An ordered, key-identified collection with per-field reactive cells.
/// Rows are created and destroyed only by `reconcile`, never by index
/// mutation from outside.
pub struct KeyedStore {
    pub rows: Vec<RowCells>,
    pub nfields: usize,
}

impl KeyedStore {
    /// Store invariant, relative to the runtime that owns the cells: every
    /// row has one live, unowned cell per field; keys are unique; no cell
    /// appears twice.
    pub open spec fn wf_in(self, rt: Runtime) -> bool {
        &&& forall|i: int|
            0 <= i < self.rows@.len() ==> (#[trigger] self.rows@[i]).cells@.len() == self.nfields
        &&& forall|i: int, f: int|
            0 <= i < self.rows@.len() && 0 <= f < self.rows@[i].cells@.len() ==> {
                &&& ((#[trigger] self.rows@[i].cells@[f]) as int) < rt.cells@.len()
                &&& rt.cells@[self.rows@[i].cells@[f] as int].live
                &&& rt.cells@[self.rows@[i].cells@[f] as int].owner is None
            }
        &&& forall|i: int, j: int|
            0 <= i < j < self.rows@.len() ==> (#[trigger] self.rows@[i]).key@ != (
            #[trigger] self.rows@[j]).key@
        &&& forall|i1: int, f1: int, i2: int, f2: int|
            0 <= i1 < self.rows@.len() && 0 <= f1 < self.rows@[i1].cells@.len() && 0 <= i2
                < self.rows@.len() && 0 <= f2 < self.rows@[i2].cells@.len() && (i1 != i2 || f1
                != f2) ==> (#[trigger] self.rows@[i1].cells@[f1]) != (
            #[trigger] self.rows@[i2].cells@[f2])
    }

    /// An empty store whose rows will have `nfields` fields.
    pub fn new(nfields: usize) -> (s: KeyedStore)
        ensures
            s.rows@.len() == 0,
            s.nfields == nfields,
    {
        KeyedStore { rows: Vec::new(), nfields }
    }

    /// Number of rows, in order.
    pub fn len(&self) -> (n: usize)
        ensures
            n == self.rows@.len(),
    {
        self.rows.len()
    }

    /// The key of row `i`.
    pub fn key_at(&self, i: usize) -> (k: Value)
        requires
            (i as int) < self.rows@.len(),
        ensures
            k == self.rows@[i as int].key,
    {
        self.rows[i].key.clone()
    }

    /// The cell holding field `f` of row `i` — the identity a subscriber
    /// captures.
    pub fn cell_at(&self, i: usize, f: usize) -> (c: usize)
        requires
            (i as int) < self.rows@.len(),
            (f as int) < self.rows@[i as int].cells@.len(),
        ensures
            c == self.rows@[i as int].cells@[f as int],
    {
        self.rows[i].cells[f]
    }

    /// Bulk access without per-row key tracking: every row's field cells,
    /// in row order. Writing through these cells goes through the ordinary
    /// cell `write` contract.
    pub fn iterate_unkeyed(&self) -> (r: Vec<Vec<usize>>)
        ensures
            r@.len() == self.rows@.len(),
            forall|i: int| 0 <= i < r@.len() ==> (#[trigger] r@[i])@ == self.rows@[i].cells@,
    {
        let mut r: Vec<Vec<usize>> = Vec::new();
        let n = self.rows.len();
        let mut i: usize = 0;
        while i < n
            invariant
                i <= n,
                n == self.rows@.len(),
                r@.len() == i,
                forall|t: int| 0 <= t < i ==> (#[trigger] r@[t])@ == self.rows@[t].cells@,
            decreases n - i,
        {
            r.push(clone_ids(&self.rows[i].cells));
            i += 1;
        }
        r
    }

    /// Reconciles the store to `items`, in that order.
    ///
    /// Keys present before and after keep their row's cells and get a
    /// field-level diff: only cells whose value differs are written. Keys
    /// only in the old store are torn down; keys only in `items` get fresh
    /// cells. Two items sharing a key make the whole call fail with
    /// `DuplicateKey`, leaving store and runtime exactly as they were.
    pub fn reconcile(&mut self, rt: &mut Runtime, items: &Vec<RowInput>) -> (r: Result<
        (),
        EngineError,
    >)
        requires
            old(rt).wf(),
            old(self).wf_in(*old(rt)),
            forall|i: int|
                0 <= i < items@.len() ==> (#[trigger] items@[i]).fields@.len() == old(self).nfields,
            forall|c: int|
                0 <= c < old(rt).cells@.len() ==> (#[trigger] old(rt).cells@[c].version)
                    < u64::MAX,
        ensures
            final(rt).wf(),
            final(self).wf_in(*final(rt)),
            (r is Err) <==> dup_in(items@),
            r is Err ==> r == Result::<(), EngineError>::Err(EngineError::DuplicateKey) && *final(self) == *old(self) && *final(rt) == *old(rt),
            r is Ok ==> reconciled(*old(self), *old(rt), items@, *final(self), *final(rt)),
    {
        if items_have_dup(items) {
            return Err(EngineError::DuplicateKey);
        }
        let nf = self.nfields;
        let n_items = items.len();
        let mut new_rows: Vec<RowCells> = Vec::new();
        let mut i: usize = 0;
        while i < n_items
            invariant
                i <= n_items,
                old(rt).wf(),
                old(self).wf_in(*old(rt)),
                rt.wf(),
                !dup_in(items@),
                nf == old(self).nfields,
                n_items == items@.len(),
                self.rows@ == old(self).rows@,
                self.nfields == old(self).nfields,
                forall|t: int|
                    0 <= t < items@.len() ==> (#[trigger] items@[t]).fields@.len() == old(self).nfields,
                forall|c: int|
                    0 <= c < old(rt).cells@.len() ==> (#[trigger] old(rt).cells@[c].version)
                        < u64::MAX,
                // the runtime only grows
                rt.cells@.len() >= old(rt).cells@.len(),
                // old-store cells: at most the field diff has been applied
                forall|oi: int, f: int|
                    0 <= oi < old(self).rows@.len() && 0 <= f < nf ==> {
                        let c = (#[trigger] old(self).rows@[oi].cells@[f]) as int;
                        &&& rt.cells@[c].live
                        &&& rt.cells@[c].owner == old(rt).cells@[c].owner
                        &&& rt.cells@[c].version == if rt.cells@[c].value@ == old(rt).cells@[c].value@ {
                            old(rt).cells@[c].version as int
                        } else {
                            old(rt).cells@[c].version + 1
                        }
                    },
                // rows not yet matched are fully untouched
                forall|oi: int, f: int|
                    0 <= oi < old(self).rows@.len() && 0 <= f < nf && !key_done(
                        items@,
                        i as int,
                        old(self).rows@[oi].key@,
                    ) ==> rt.cells@[(#[trigger] old(self).rows@[oi].cells@[f]) as int] == old(rt).cells@[old(self).rows@[oi].cells@[f] as int],
                // cells outside the store are untouched
                forall|c: int|
                    0 <= c < old(rt).cells@.len() && !cell_of_rows(old(self).rows@, c) ==> (
                    #[trigger] rt.cells@[c]) == old(rt).cells@[c],
                // built rows so far
                new_rows@.len() == i,
                forall|t: int|
                    0 <= t < i as int ==> (#[trigger] new_rows@[t]).key@ == items@[t].key@,
                forall|t: int|
                    0 <= t < i as int ==> (#[trigger] new_rows@[t]).cells@.len() == nf,
                forall|t: int, f: int|
                    0 <= t < i as int && 0 <= f < nf ==> {
                        let c = (#[trigger] new_rows@[t].cells@[f]) as int;
                        &&& c < rt.cells@.len()
                        &&& rt.cells@[c].live
                        &&& rt.cells@[c].owner is None
                        &&& rt.cells@[c].value@ == items@[t].fields@[f]@
                    },
                forall|t: int, oi: int|
                    0 <= t < i as int && 0 <= oi < old(self).rows@.len() && (#[trigger] old(self).rows@[oi]).key@ == (#[trigger] items@[t]).key@ ==> new_rows@[t].cells@ == old(self).rows@[oi].cells@,
                forall|t: int, f: int|
                    0 <= t < i as int && 0 <= f < nf && rows_have_key(
                        old(self).rows@,
                        items@[t].key@,
                    ) ==> ((#[trigger] new_rows@[t].cells@[f]) as int) < old(rt).cells@.len(),
                forall|t: int, f: int|
                    0 <= t < i as int && 0 <= f < nf && !rows_have_key(
                        old(self).rows@,
                        items@[t].key@,
                    ) ==> ((#[trigger] new_rows@[t].cells@[f]) as int) >= old(rt).cells@.len(),
                forall|i1: int, f1: int, i2: int, f2: int|
                    0 <= i1 < i as int && 0 <= f1 < nf && 0 <= i2 < i as int && 0 <= f2 < nf && (i1
                        != i2 || f1 != f2) ==> (#[trigger] new_rows@[i1].cells@[f1]) != (
                    #[trigger] new_rows@[i2].cells@[f2]),
                // computations: only queued marks move, only toward changed cells
                rt.comps@.len() == old(rt).comps@.len(),
                forall|j: int|
                    0 <= j < old(rt).comps@.len() ==> comp_same_but_queued(
                        old(rt).comps@[j],
                        #[trigger] rt.comps@[j],
                    ),
                forall|j: int|
                    0 <= j < old(rt).comps@.len() ==> (#[trigger] rt.comps@[j].queued) == (old(rt).comps@[j].queued || (old(rt).comps@[j].live && exists|c: int|
                        0 <= c < old(rt).cells@.len() && (#[trigger] old(rt).comps@[j].deps@.contains(c as usize)) && rt.cells@[c].version != old(rt).cells@[c].version)),
                rt.stack@ == old(rt).stack@,
                rt.in_flush == old(rt).in_flush,
                rt.passes == old(rt).passes,
            decreases n_items - i,
        {
            let item_key_match = self.find_row(&items[i].key);
            match item_key_match {
                Option::Some(oi) => {
                    let cells = clone_ids(&self.rows[oi].cells);
                    let ghost i0 = i as int;
                    proof {
                        assert(!key_done(items@, i0, old(self).rows@[oi as int].key@)) by {
                            if key_done(items@, i0, old(self).rows@[oi as int].key@) {
                                let t = choose|t: int|
                                    0 <= t < i0 && (#[trigger] items@[t]).key@ == old(
                                        self,
                                    ).rows@[oi as int].key@;
                                assert(items@[t].key@ == items@[i0].key@);
                            }
                        }
                        assert(cells@ == old(self).rows@[oi as int].cells@);
                        assert(cells@.len() == nf);
                        assert forall|f: int|
                            0 <= f < cells@.len() implies {
                            &&& ((#[trigger] cells@[f]) as int) < rt.cells@.len()
                            &&& rt.cells@[cells@[f] as int].live
                            &&& rt.cells@[cells@[f] as int].version < u64::MAX
                        } by {
                            assert(old(self).rows@[oi as int].cells@[f] == cells@[f]);
                            assert(rt.cells@[(old(self).rows@[oi as int].cells@[f]) as int] == old(
                                rt,
                            ).cells@[(old(self).rows@[oi as int].cells@[f]) as int]);
                        }
                        assert forall|f1: int, f2: int|
                            0 <= f1 < f2 < cells@.len() implies cells@[f1] != cells@[f2] by {
                            assert(old(self).rows@[oi as int].cells@[f1] != old(
                                self,
                            ).rows@[oi as int].cells@[f2]);
                        }
                    }
                    let ghost rt1 = *rt;
                    update_row_fields(rt, &cells, &items[i]);
                    proof {
                        let ghost pre = *old(rt);
                        assert forall|j: int|
                            0 <= j < pre.comps@.len() implies (#[trigger] rt.comps@[j].queued) == (
                        pre.comps@[j].queued || (pre.comps@[j].live && exists|c: int|
                            0 <= c < pre.cells@.len() && (#[trigger] pre.comps@[j].deps@.contains(
                                c as usize,
                            )) && rt.cells@[c].version != pre.cells@[c].version)) by {
                            if rt.comps@[j].queued {
                                if !pre.comps@[j].queued {
                                    if rt1.comps@[j].queued {
                                        let c = choose|c: int|
                                            0 <= c < pre.cells@.len() && (
                                            #[trigger] pre.comps@[j].deps@.contains(c as usize))
                                                && rt1.cells@[c].version != pre.cells@[c].version;
                                        assert(!id_among(cells@, cells@.len() as int, c)) by {
                                            if id_among(cells@, cells@.len() as int, c) {
                                                let f = choose|f: int|
                                                    0 <= f < cells@.len() && ((#[trigger] cells@[f])
                                                        as int) == c;
                                                assert(rt1.cells@[(old(
                                                    self,
                                                ).rows@[oi as int].cells@[f]) as int] == pre.cells@[(
                                                old(self).rows@[oi as int].cells@[f]) as int]);
                                            }
                                        }
                                        assert(rt.cells@[c] == rt1.cells@[c]);
                                    } else {
                                        let f = choose|f: int|
                                            0 <= f < cells@.len() && rt1.comps@[j].deps@.contains(
                                                #[trigger] cells@[f],
                                            ) && rt1.cells@[cells@[f] as int].value@
                                                != items@[i0].fields@[f]@;
                                        let c = cells@[f] as int;
                                        assert(pre.comps@[j].deps@.contains(c as usize));
                                        assert(rt1.cells@[(old(self).rows@[oi as int].cells@[f])
                                            as int] == pre.cells@[(old(
                                            self,
                                        ).rows@[oi as int].cells@[f]) as int]);
                                        assert(rt.cells@[c].version == rt1.cells@[c].version + 1);
                                    }
                                }
                            } else {
                                assert(!rt1.comps@[j].queued);
                                assert(!pre.comps@[j].queued);
                                assert forall|c: int|
                                    0 <= c < pre.cells@.len() && (
                                #[trigger] pre.comps@[j].deps@.contains(c as usize)) implies !(
                                pre.comps@[j].live && rt.cells@[c].version
                                    != pre.cells@[c].version) by {
                                    if pre.comps@[j].live && rt.cells@[c].version
                                        != pre.cells@[c].version {
                                        if id_among(cells@, cells@.len() as int, c) {
                                            let f = choose|f: int|
                                                0 <= f < cells@.len() && ((#[trigger] cells@[f])
                                                    as int) == c;
                                            assert(rt1.cells@[(old(self).rows@[oi as int].cells@[f])
                                                as int] == pre.cells@[(old(
                                                self,
                                            ).rows@[oi as int].cells@[f]) as int]);
                                            if rt1.cells@[c].value@ == items@[i0].fields@[f]@ {
                                                assert(rt.cells@[c] == rt1.cells@[c]);
                                            } else {
                                                assert(rt1.comps@[j].deps@.contains(cells@[f]));
                                                assert(rt.comps@[j].queued);
                                            }
                                        } else {
                                            assert(rt.cells@[c] == rt1.cells@[c]);
                                            assert(rt1.comps@[j].queued);
                                        }
                                    }
                                }
                            }
                        }
                    }
                    new_rows.push(RowCells { key: items[i].key.clone(), cells });
                },
                Option::None => {
                    let cells = make_row_cells(rt, &items[i]);
                    new_rows.push(RowCells { key: items[i].key.clone(), cells });
                },
            }
            i += 1;
        }
        dispose_missing(rt, &self.rows, items);
        self.rows = new_rows;
        Ok(())
    }

    /// The first row carrying this key, if any.
    fn find_row(&self, key: &Value) -> (r: Option<usize>)
        ensures
            match r {
                Option::Some(i) => {
                    &&& (i as int) < self.rows@.len()
                    &&& self.rows@[i as int].key@ == key@
                    &&& forall|t: int| 0 <= t < i as int ==> self.rows@[t].key@ != key@
                },
                Option::None => forall|t: int|
                    0 <= t < self.rows@.len() ==> self.rows@[t].key@ != key@,
            },
    {
        let n = self.rows.len();
        let mut i: usize = 0;
        while i < n
            invariant
                i <= n,
                n == self.rows@.len(),
                forall|t: int| 0 <= t < i ==> self.rows@[t].key@ != key@,
            decreases n - i,
        {
            if self.rows[i].key.eq_value(key) {
                return Some(i);
            }
            i += 1;
        }
        None
    }
}

/// The key appears among the first `upto` items.
pub open spec fn key_done(items: Seq<RowInput>, upto: int, k: ValueView) -> bool {
    exists|i: int| 0 <= i < upto && (#[trigger] items[i]).key@ == k
}

/// What a successful reconciliation guarantees, relating the store and
/// runtime before the call to the store and runtime after it.
///
/// In order: the rows follow the items; every field cell holds the incoming
/// value; a row whose key persists keeps its cell identities; a row with a
/// new key gets identities the runtime had never handed out before; on a
/// retained row, a field cell's version moves exactly when its value does;
/// the cells of removed rows are dead but keep their last value; cells
/// outside the store are untouched; and a computation becomes queued only
/// through a dependency cell whose version actually changed.
pub open spec fn reconciled(
    pre_store: KeyedStore,
    pre_rt: Runtime,
    items: Seq<RowInput>,
    post_store: KeyedStore,
    post_rt: Runtime,
) -> bool {
    let nf = pre_store.nfields as int;
    &&& post_store.nfields == pre_store.nfields
    &&& post_store.rows@.len() == items.len()
    &&& forall|i: int|
        0 <= i < items.len() ==> (#[trigger] post_store.rows@[i]).key@ == items[i].key@
    &&& forall|i: int, f: int|
        0 <= i < items.len() && 0 <= f < nf ==> post_rt.cells@[(
        #[trigger] post_store.rows@[i].cells@[f]) as int].value@ == items[i].fields@[f]@
    &&& forall|i: int, oi: int|
        0 <= i < items.len() && 0 <= oi < pre_store.rows@.len() && (
        #[trigger] pre_store.rows@[oi]).key@ == (#[trigger] items[i]).key@
            ==> post_store.rows@[i].cells@ == pre_store.rows@[oi].cells@
    &&& forall|i: int, f: int|
        0 <= i < items.len() && 0 <= f < nf && !rows_have_key(pre_store.rows@, items[i].key@) ==> ((
        #[trigger] post_store.rows@[i].cells@[f]) as int) >= pre_rt.cells@.len()
    &&& forall|oi: int, f: int|
        0 <= oi < pre_store.rows@.len() && 0 <= f < nf && items_have_key(
            items,
            pre_store.rows@[oi].key@,
        ) ==> {
            let c = (#[trigger] pre_store.rows@[oi].cells@[f]) as int;
            &&& post_rt.cells@[c].live
            &&& post_rt.cells@[c].owner == pre_rt.cells@[c].owner
            &&& post_rt.cells@[c].version == if post_rt.cells@[c].value@ == pre_rt.cells@[c].value@ {
                pre_rt.cells@[c].version as int
            } else {
                pre_rt.cells@[c].version + 1
            }
        }
    &&& forall|oi: int, f: int|
        0 <= oi < pre_store.rows@.len() && 0 <= f < nf && !items_have_key(
            items,
            pre_store.rows@[oi].key@,
        ) ==> {
            let c = (#[trigger] pre_store.rows@[oi].cells@[f]) as int;
            &&& !post_rt.cells@[c].live
            &&& post_rt.cells@[c].value == pre_rt.cells@[c].value
            &&& post_rt.cells@[c].version == pre_rt.cells@[c].version
        }
    &&& forall|c: int|
        0 <= c < pre_rt.cells@.len() && !cell_of_rows(pre_store.rows@, c) ==> (
        #[trigger] post_rt.cells@[c]) == pre_rt.cells@[c]
    &&& post_rt.comps@.len() == pre_rt.comps@.len()
    &&& forall|j: int|
        0 <= j < pre_rt.comps@.len() ==> comp_same_but_queued(
            pre_rt.comps@[j],
            #[trigger] post_rt.comps@[j],
        )
    &&& forall|j: int|
        0 <= j < pre_rt.comps@.len() ==> (#[trigger] post_rt.comps@[j].queued) == (
        pre_rt.comps@[j].queued || (pre_rt.comps@[j].live && exists|c: int|
            0 <= c < pre_rt.cells@.len() && (#[trigger] pre_rt.comps@[j].deps@.contains(c as usize))
                && post_rt.cells@[c].version != pre_rt.cells@[c].version))
    &&& post_rt.stack@ == pre_rt.stack@
    &&& post_rt.in_flush == pre_rt.in_flush
    &&& post_rt.passes == pre_rt.passes
}

/// A copy of a list of cell ids.
fn clone_ids(v: &Vec<usize>) -> (r: Vec<usize>)
    ensures
        r@ == v@,
{
    let n = v.len();
    let mut r: Vec<usize> = Vec::new();
    let mut i: usize = 0;
    while i < n
        invariant
            i <= n,
            n == v@.len(),
            r@ == v@.take(i as int),
        decreases n - i,
    {
        r.push(v[i]);
        i += 1;
    }
    proof {
        assert(r@ =~= v@);
    }
    r
}

/// Writes the fields of a retained row whose incoming values differ from
/// the current ones; a field whose value is unchanged is not written, so
/// its cell keeps its version and its subscribers stay quiet.
fn update_row_fields(rt: &mut Runtime, cells: &Vec<usize>, item: &RowInput)
    requires
        old(rt).wf(),
        cells@.len() == item.fields@.len(),
        forall|f: int|
            0 <= f < cells@.len() ==> {
                &&& ((#[trigger] cells@[f]) as int) < old(rt).n_cells()
                &&& old(rt).cells@[cells@[f] as int].live
                &&& old(rt).cells@[cells@[f] as int].version < u64::MAX
            },
        forall|f1: int, f2: int|
            0 <= f1 < f2 < cells@.len() ==> cells@[f1] != cells@[f2],
    ensures
        final(rt).wf(),
        final(rt).cells@.len() == old(rt).cells@.len(),
        final(rt).stack@ == old(rt).stack@,
        final(rt).in_flush == old(rt).in_flush,
        final(rt).passes == old(rt).passes,
        forall|f: int|
            0 <= f < cells@.len() ==> if old(rt).cells@[(#[trigger] cells@[f]) as int].value@
                == item.fields@[f]@ {
                final(rt).cells@[cells@[f] as int] == old(rt).cells@[cells@[f] as int]
            } else {
                &&& final(rt).cells@[cells@[f] as int].value == item.fields@[f]
                &&& final(rt).cells@[cells@[f] as int].version == old(rt).cells@[cells@[f]
                    as int].version + 1
                &&& final(rt).cells@[cells@[f] as int].live == old(rt).cells@[cells@[f]
                    as int].live
                &&& final(rt).cells@[cells@[f] as int].owner == old(rt).cells@[cells@[f]
                    as int].owner
            },
        forall|c: int|
            0 <= c < old(rt).n_cells() && !id_among(cells@, cells@.len() as int, c) ==> final(rt).cells@[c] == old(rt).cells@[c],
        final(rt).comps@.len() == old(rt).comps@.len(),
        forall|j: int|
            0 <= j < old(rt).comps@.len() ==> comp_same_but_queued(
                old(rt).comps@[j],
                #[trigger] final(rt).comps@[j],
            ),
        forall|j: int|
            0 <= j < old(rt).comps@.len() ==> (#[trigger] final(rt).comps@[j].queued) == (old(rt).comps@[j].queued || (old(rt).comps@[j].live && exists|f: int|
                0 <= f < cells@.len() && old(rt).comps@[j].deps@.contains(#[trigger] cells@[f])
                    && old(rt).cells@[cells@[f] as int].value@ != item.fields@[f]@)),
{
    let nf = cells.len();
    let mut f: usize = 0;
    while f < nf
        invariant
            f <= nf,
            old(rt).wf(),
            rt.wf(),
            nf == cells@.len(),
            cells@.len() == item.fields@.len(),
            forall|t: int|
                0 <= t < cells@.len() ==> {
                    &&& ((#[trigger] cells@[t]) as int) < old(rt).n_cells()
                    &&& old(rt).cells@[cells@[t] as int].live
                    &&& old(rt).cells@[cells@[t] as int].version < u64::MAX
                },
            forall|f1: int, f2: int|
                0 <= f1 < f2 < cells@.len() ==> cells@[f1] != cells@[f2],
            rt.cells@.len() == old(rt).cells@.len(),
            rt.stack@ == old(rt).stack@,
            rt.in_flush == old(rt).in_flush,
            rt.passes == old(rt).passes,
            forall|t: int|
                0 <= t < f ==> if old(rt).cells@[(#[trigger] cells@[t]) as int].value@
                    == item.fields@[t]@ {
                    rt.cells@[cells@[t] as int] == old(rt).cells@[cells@[t] as int]
                } else {
                    &&& rt.cells@[cells@[t] as int].value == item.fields@[t]
                    &&& rt.cells@[cells@[t] as int].version == old(rt).cells@[cells@[t]
                        as int].version + 1
                    &&& rt.cells@[cells@[t] as int].live == old(rt).cells@[cells@[t] as int].live
                    &&& rt.cells@[cells@[t] as int].owner == old(rt).cells@[cells@[t]
                        as int].owner
                },
            forall|c: int|
                0 <= c < old(rt).n_cells() && !id_among(cells@, f as int, c) ==> rt.cells@[c]
                    == old(rt).cells@[c],
            rt.comps@.len() == old(rt).comps@.len(),
            forall|j: int|
                0 <= j < old(rt).comps@.len() ==> comp_same_but_queued(
                    old(rt).comps@[j],
                    #[trigger] rt.comps@[j],
                ),
            forall|j: int|
                0 <= j < old(rt).comps@.len() ==> (#[trigger] rt.comps@[j].queued) == (old(rt).comps@[j].queued || (old(rt).comps@[j].live && exists|t: int|
                    0 <= t < f && old(rt).comps@[j].deps@.contains(#[trigger] cells@[t]) && old(rt).cells@[cells@[t] as int].value@ != item.fields@[t]@)),
        decreases nf - f,
    {
        let c = cells[f];
        proof {
            assert forall|t: int| 0 <= t < f as int implies cells@[t] != cells@[f as int] by {}
            assert(!id_among(cells@, f as int, cells@[f as int] as int)) by {
                if id_among(cells@, f as int, cells@[f as int] as int) {
                    let t = choose|t: int|
                        0 <= t < f as int && ((cells@[t]) as int) == cells@[f as int] as int;
                    assert(cells@[t] != cells@[f as int]);
                }
            }
            assert(rt.cells@[c as int] == old(rt).cells@[c as int]);
        }
        let cur = rt.peek(c);
        if !cur.eq_value(&item.fields[f]) {
            rt.write(c, item.fields[f].clone());
        }
        f += 1;
        proof {
            assert forall|cc: int|
                0 <= cc < old(rt).n_cells() && !id_among(cells@, f as int, cc) implies rt.cells@[cc]
                    == old(rt).cells@[cc] by {
                assert(!id_among(cells@, f as int - 1, cc)) by {
                    if id_among(cells@, f as int - 1, cc) {
                        let t = choose|t: int|
                            0 <= t < f as int - 1 && ((cells@[t]) as int) == cc;
                        assert(((cells@[t]) as int) == cc && 0 <= t < f as int);
                        assert(id_among(cells@, f as int, cc));
                    }
                }
                assert(((cells@[f as int - 1]) as int) != cc) by {
                    if ((cells@[f as int - 1]) as int) == cc {
                        assert(id_among(cells@, f as int, cc));
                    }
                }
            }
            assert forall|j: int|
                0 <= j < old(rt).comps@.len() implies (#[trigger] rt.comps@[j].queued) == (old(rt).comps@[j].queued || (old(rt).comps@[j].live && exists|t: int|
                0 <= t < f && old(rt).comps@[j].deps@.contains(#[trigger] cells@[t]) && old(rt).cells@[cells@[t] as int].value@ != item.fields@[t]@)) by {
                let fp = f as int - 1;
                if rt.comps@[j].queued {
                    if !old(rt).comps@[j].queued {
                        if exists|t: int|
                            0 <= t < fp && old(rt).comps@[j].deps@.contains(#[trigger] cells@[t])
                                && old(rt).cells@[cells@[t] as int].value@ != item.fields@[t]@ {
                            let t = choose|t: int|
                                0 <= t < fp && old(rt).comps@[j].deps@.contains(
                                    #[trigger] cells@[t],
                                ) && old(rt).cells@[cells@[t] as int].value@ != item.fields@[t]@;
                            assert(0 <= t < f as int);
                        } else {
                            assert(old(rt).comps@[j].deps@.contains(cells@[fp]) && old(rt).cells@[cells@[fp] as int].value@ != item.fields@[fp]@);
                        }
                    }
                } else {
                    assert(!old(rt).comps@[j].queued);
                    assert forall|t: int|
                        0 <= t < f as int && old(rt).comps@[j].deps@.contains(
                            #[trigger] cells@[t],
                        ) implies !(old(rt).comps@[j].live && old(rt).cells@[cells@[t]
                        as int].value@ != item.fields@[t]@) by {}
                }
            }
        }
    }
}

/// Builds the fresh field cells of a new row, one per incoming field, with
/// consecutive identities at the end of the runtime's cell table.
fn make_row_cells(rt: &mut Runtime, item: &RowInput) -> (r: Vec<usize>)
    requires
        old(rt).wf(),
    ensures
        final(rt).wf(),
        r@.len() == item.fields@.len(),
        final(rt).cells@.len() == old(rt).cells@.len() + item.fields@.len(),
        forall|f: int|
            0 <= f < r@.len() ==> {
                &&& ((#[trigger] r@[f]) as int) == old(rt).n_cells() + f
                &&& final(rt).cells@[r@[f] as int].value == item.fields@[f]
                &&& final(rt).cells@[r@[f] as int].version == 0
                &&& final(rt).cells@[r@[f] as int].live
                &&& final(rt).cells@[r@[f] as int].owner is None
            },
        forall|i: int| 0 <= i < old(rt).n_cells() ==> final(rt).cells@[i] == old(rt).cells@[i],
        final(rt).comps@ == old(rt).comps@,
        final(rt).stack@ == old(rt).stack@,
        final(rt).in_flush == old(rt).in_flush,
        final(rt).passes == old(rt).passes,
{
    let nf = item.fields.len();
    let mut r: Vec<usize> = Vec::new();
    let mut f: usize = 0;
    while f < nf
        invariant
            f <= nf,
            old(rt).wf(),
            rt.wf(),
            nf == item.fields@.len(),
            r@.len() == f,
            rt.cells@.len() == old(rt).cells@.len() + f,
            forall|t: int|
                0 <= t < f ==> {
                    &&& ((#[trigger] r@[t]) as int) == old(rt).n_cells() + t
                    &&& rt.cells@[r@[t] as int].value == item.fields@[t]
                    &&& rt.cells@[r@[t] as int].version == 0
                    &&& rt.cells@[r@[t] as int].live
                    &&& rt.cells@[r@[t] as int].owner is None
                },
            forall|i: int| 0 <= i < old(rt).n_cells() ==> rt.cells@[i] == old(rt).cells@[i],
            rt.comps@ == old(rt).comps@,
            rt.stack@ == old(rt).stack@,
            rt.in_flush == old(rt).in_flush,
            rt.passes == old(rt).passes,
        decreases nf - f,
    {
        let c = rt.new_cell(item.fields[f].clone());
        r.push(c);
        f += 1;
    }
    r
}

/// Does some item carry this key?
fn items_contain_key(items: &Vec<RowInput>, key: &Value) -> (r: bool)
    ensures
        r == items_have_key(items@, key@),
{
    let n = items.len();
    let mut i: usize = 0;
    while i < n
        invariant
            i <= n,
            n == items@.len(),
            forall|t: int| 0 <= t < i ==> (#[trigger] items@[t]).key@ != key@,
        decreases n - i,
    {
        if items[i].key.eq_value(key) {
            return true;
        }
        i += 1;
    }
    false
}

/// Cell `c` belongs to a row whose key does not appear among the items —
/// a row the reconciliation removes.
pub open spec fn missing_cell(rows: Seq<RowCells>, items: Seq<RowInput>, c: int) -> bool {
    exists|oi: int, f: int|
        0 <= oi < rows.len() && 0 <= f < rows[oi].cells@.len() && ((#[trigger] rows[oi].cells@[f])
            as int) == c && !items_have_key(items, rows[oi].key@)
}

/// Disposes the cells of every row whose key does not appear among the
/// items; all other cells are untouched.
fn dispose_missing(rt: &mut Runtime, rows: &Vec<RowCells>, items: &Vec<RowInput>)
    requires
        old(rt).wf(),
        forall|oi: int, f: int|
            0 <= oi < rows@.len() && 0 <= f < rows@[oi].cells@.len() ==> {
                &&& ((#[trigger] rows@[oi].cells@[f]) as int) < old(rt).n_cells()
                &&& old(rt).cells@[rows@[oi].cells@[f] as int].owner is None
            },
        forall|i1: int, f1: int, i2: int, f2: int|
            0 <= i1 < rows@.len() && 0 <= f1 < rows@[i1].cells@.len() && 0 <= i2 < rows@.len() && 0
                <= f2 < rows@[i2].cells@.len() && (i1 != i2 || f1 != f2) ==> (
            #[trigger] rows@[i1].cells@[f1]) != (#[trigger] rows@[i2].cells@[f2]),
    ensures
        final(rt).wf(),
        final(rt).cells@.len() == old(rt).cells@.len(),
        forall|oi: int, f: int|
            0 <= oi < rows@.len() && 0 <= f < rows@[oi].cells@.len() && !items_have_key(
                items@,
                rows@[oi].key@,
            ) ==> {
                let c = (#[trigger] rows@[oi].cells@[f]) as int;
                &&& !final(rt).cells@[c].live
                &&& final(rt).cells@[c].value == old(rt).cells@[c].value
                &&& final(rt).cells@[c].version == old(rt).cells@[c].version
                &&& final(rt).cells@[c].owner == old(rt).cells@[c].owner
            },
        forall|c: int|
            0 <= c < old(rt).n_cells() && !missing_cell(rows@, items@, c) ==> final(rt).cells@[c]
                == old(rt).cells@[c],
        final(rt).comps@ == old(rt).comps@,
        final(rt).stack@ == old(rt).stack@,
        final(rt).in_flush == old(rt).in_flush,
        final(rt).passes == old(rt).passes,
{
    let n = rows.len();
    let mut oi: usize = 0;
    while oi < n
        invariant
            oi <= n,
            old(rt).wf(),
            rt.wf(),
            n == rows@.len(),
            forall|t1: int, f1: int|
                0 <= t1 < rows@.len() && 0 <= f1 < rows@[t1].cells@.len() ==> {
                    &&& ((#[trigger] rows@[t1].cells@[f1]) as int) < old(rt).n_cells()
                    &&& old(rt).cells@[rows@[t1].cells@[f1] as int].owner is None
                },
            forall|i1: int, f1: int, i2: int, f2: int|
                0 <= i1 < rows@.len() && 0 <= f1 < rows@[i1].cells@.len() && 0 <= i2 < rows@.len()
                    && 0 <= f2 < rows@[i2].cells@.len() && (i1 != i2 || f1 != f2) ==> (
                #[trigger] rows@[i1].cells@[f1]) != (#[trigger] rows@[i2].cells@[f2]),
            rt.cells@.len() == old(rt).cells@.len(),
            forall|t: int, f: int|
                0 <= t < oi && 0 <= f < rows@[t].cells@.len() && !items_have_key(
                    items@,
                    rows@[t].key@,
                ) ==> {
                    let c = (#[trigger] rows@[t].cells@[f]) as int;
                    &&& !rt.cells@[c].live
                    &&& rt.cells@[c].value == old(rt).cells@[c].value
                    &&& rt.cells@[c].version == old(rt).cells@[c].version
                    &&& rt.cells@[c].owner == old(rt).cells@[c].owner
                },
            forall|c: int|
                0 <= c < old(rt).n_cells() && !missing_cell_upto(rows@, items@, oi as int, c)
                    ==> rt.cells@[c] == old(rt).cells@[c],
            rt.comps@ == old(rt).comps@,
            rt.stack@ == old(rt).stack@,
            rt.in_flush == old(rt).in_flush,
            rt.passes == old(rt).passes,
        decreases n - oi,
    {
        if !items_contain_key(items, &rows[oi].key) {
            let nf = rows[oi].cells.len();
            let mut f: usize = 0;
            while f < nf
                invariant
                    f <= nf,
                    oi < n,
                    old(rt).wf(),
                    rt.wf(),
                    n == rows@.len(),
                    nf == rows@[oi as int].cells@.len(),
                    !items_have_key(items@, rows@[oi as int].key@),
                    forall|t1: int, f1: int|
                        0 <= t1 < rows@.len() && 0 <= f1 < rows@[t1].cells@.len() ==> {
                            &&& ((#[trigger] rows@[t1].cells@[f1]) as int) < old(rt).n_cells()
                            &&& old(rt).cells@[rows@[t1].cells@[f1] as int].owner is None
                        },
                    forall|i1: int, f1: int, i2: int, f2: int|
                        0 <= i1 < rows@.len() && 0 <= f1 < rows@[i1].cells@.len() && 0 <= i2
                            < rows@.len() && 0 <= f2 < rows@[i2].cells@.len() && (i1 != i2 || f1
                            != f2) ==> (#[trigger] rows@[i1].cells@[f1]) != (
                        #[trigger] rows@[i2].cells@[f2]),
                    rt.cells@.len() == old(rt).cells@.len(),
                    forall|t: int, f1: int|
                        0 <= t < oi && 0 <= f1 < rows@[t].cells@.len() && !items_have_key(
                            items@,
                            rows@[t].key@,
                        ) ==> {
                            let c = (#[trigger] rows@[t].cells@[f1]) as int;
                            &&& !rt.cells@[c].live
                            &&& rt.cells@[c].value == old(rt).cells@[c].value
                            &&& rt.cells@[c].version == old(rt).cells@[c].version
                            &&& rt.cells@[c].owner == old(rt).cells@[c].owner
                        },
                    forall|f1: int|
                        0 <= f1 < f ==> {
                            let c = (#[trigger] rows@[oi as int].cells@[f1]) as int;
                            &&& !rt.cells@[c].live
                            &&& rt.cells@[c].value == old(rt).cells@[c].value
                            &&& rt.cells@[c].version == old(rt).cells@[c].version
                            &&& rt.cells@[c].owner == old(rt).cells@[c].owner
                        },
                    forall|c: int|
                        0 <= c < old(rt).n_cells() && !missing_cell_upto(
                            rows@,
                            items@,
                            oi as int,
                            c,
                        ) && !id_among(rows@[oi as int].cells@, f as int, c) ==> rt.cells@[c]
                            == old(rt).cells@[c],
                    rt.comps@ == old(rt).comps@,
                    rt.stack@ == old(rt).stack@,
                    rt.in_flush == old(rt).in_flush,
                    rt.passes == old(rt).passes,
                decreases nf - f,
            {
                let c = rows[oi].cells[f];
                proof {
                    assert(!missing_cell_upto(rows@, items@, oi as int, c as int)) by {
                        if missing_cell_upto(rows@, items@, oi as int, c as int) {
                            let (t, f1): (int, int) = choose|t: int, f1: int|
                                0 <= t < oi as int && 0 <= f1 < rows@[t].cells@.len() && ((
                                rows@[t].cells@[f1]) as int) == c as int && !items_have_key(
                                    items@,
                                    rows@[t].key@,
                                );
                            assert(rows@[t].cells@[f1] != rows@[oi as int].cells@[f as int]);
                        }
                    }
                    assert(!id_among(rows@[oi as int].cells@, f as int, c as int)) by {
                        if id_among(rows@[oi as int].cells@, f as int, c as int) {
                            let t = choose|t: int|
                                0 <= t < f as int && ((rows@[oi as int].cells@[t]) as int) == c
                                    as int;
                            assert(rows@[oi as int].cells@[t] != rows@[oi as int].cells@[f as int]);
                        }
                    }
                    assert(rt.cells@[c as int] == old(rt).cells@[c as int]);
                }
                rt.dispose_cell(c);
                f += 1;
                proof {
                    assert forall|cc: int|
                        0 <= cc < old(rt).n_cells() && !missing_cell_upto(
                            rows@,
                            items@,
                            oi as int,
                            cc,
                        ) && !id_among(rows@[oi as int].cells@, f as int, cc) implies rt.cells@[cc]
                        == old(rt).cells@[cc] by {
                        assert(!id_among(rows@[oi as int].cells@, f as int - 1, cc)) by {
                            if id_among(rows@[oi as int].cells@, f as int - 1, cc) {
                                let t = choose|t: int|
                                    0 <= t < f as int - 1 && ((rows@[oi as int].cells@[t]) as int)
                                        == cc;
                                assert(0 <= t < f as int && ((rows@[oi as int].cells@[t]) as int)
                                    == cc);
                                assert(id_among(rows@[oi as int].cells@, f as int, cc));
                            }
                        }
                        assert(((rows@[oi as int].cells@[f as int - 1]) as int) != cc) by {
                            if ((rows@[oi as int].cells@[f as int - 1]) as int) == cc {
                                assert(id_among(rows@[oi as int].cells@, f as int, cc));
                            }
                        }
                    }
                }
            }
        }
        oi += 1;
        proof {
            assert forall|c: int|
                0 <= c < old(rt).n_cells() && !missing_cell_upto(rows@, items@, oi as int, c)
                    implies rt.cells@[c] == old(rt).cells@[c] by {
                assert(!missing_cell_upto(rows@, items@, oi as int - 1, c)) by {
                    if missing_cell_upto(rows@, items@, oi as int - 1, c) {
                        let (t, f1): (int, int) = choose|t: int, f1: int|
                            0 <= t < oi as int - 1 && 0 <= f1 < rows@[t].cells@.len() && ((
                            rows@[t].cells@[f1]) as int) == c && !items_have_key(
                                items@,
                                rows@[t].key@,
                            );
                        assert(0 <= t < oi as int && 0 <= f1 < rows@[t].cells@.len() && ((
                        rows@[t].cells@[f1]) as int) == c && !items_have_key(
                            items@,
                            rows@[t].key@,
                        ));
                        assert(missing_cell_upto(rows@, items@, oi as int, c));
                    }
                }
                if items_have_key(items@, rows@[oi as int - 1].key@) {
                } else {
                    assert(!id_among(rows@[oi as int - 1].cells@, rows@[oi as int
                        - 1].cells@.len() as int, c)) by {
                        if id_among(
                            rows@[oi as int - 1].cells@,
                            rows@[oi as int - 1].cells@.len() as int,
                            c,
                        ) {
                            let f1 = choose|f1: int|
                                0 <= f1 < rows@[oi as int - 1].cells@.len() && (((
                                #[trigger] rows@[oi as int - 1].cells@[f1]) as int) == c);
                            assert(missing_cell_upto(rows@, items@, oi as int, c));
                        }
                    }
                }
            }
        }
    }
    proof {
        assert forall|c: int|
            0 <= c < old(rt).n_cells() && !missing_cell(rows@, items@, c) implies rt.cells@[c]
                == old(rt).cells@[c] by {
            assert(!missing_cell_upto(rows@, items@, rows@.len() as int, c)) by {
                if missing_cell_upto(rows@, items@, rows@.len() as int, c) {
                    let (t, f1): (int, int) = choose|t: int, f1: int|
                        0 <= t < rows@.len() && 0 <= f1 < rows@[t].cells@.len() && ((
                        rows@[t].cells@[f1]) as int) == c && !items_have_key(items@, rows@[t].key@);
                    assert(missing_cell(rows@, items@, c));
                }
            }
        }
    }
}

/// `missing_cell`, restricted to the first `upto` rows.
pub open spec fn missing_cell_upto(
    rows: Seq<RowCells>,
    items: Seq<RowInput>,
    upto: int,
    c: int,
) -> bool {
    exists|oi: int, f: int|
        0 <= oi < upto && 0 <= f < rows[oi].cells@.len() && ((#[trigger] rows[oi].cells@[f]) as int)
            == c && !items_have_key(items, rows[oi].key@)
}

/// Do two items of the list share a key?
fn items_have_dup(items: &Vec<RowInput>) -> (r: bool)
    ensures
        r == dup_in(items@),
{
    let n = items.len();
    let mut i: usize = 0;
    while i < n
        invariant
            i <= n,
            n == items@.len(),
            forall|t: int, u: int| 0 <= t < u < n && t < i ==> items@[t].key@ != items@[u].key@,
        decreases n - i,
    {
        let mut j: usize = i + 1;
        while j < n
            invariant
                i < j <= n || (i + 1 == j && j > n),
                i < n,
                n == items@.len(),
                forall|u: int| i < u < j ==> items@[i as int].key@ != items@[u].key@,
            decreases n - j,
        {
            if items[i].key.eq_value(&items[j].key) {
                return true;
            }
            j += 1;
        }
        i += 1;
    }
    false
}

} // verus!
