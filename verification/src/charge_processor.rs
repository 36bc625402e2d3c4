//! The decisions of filling the sheet with the overdue charges: the rows of
//! the charges that could be processed are gathered and handed out in
//! batches for appending to the sheet. The program clears the sheet,
//! processes each charge and appends the batches; after each charge it tells
//! the batcher what came of it.

use vstd::prelude::*;
use crate::sheet_updater::RowView;

verus! {

/// What a batcher stands for.
pub struct BatcherView {
    /// The rows gathered and not yet handed out.
    pub table: Seq<RowView>,
    /// The charges seen since the last batch was handed out.
    pub counter: nat,
    /// The charges seen so far.
    pub processed: nat,
    /// The number of charges.
    pub total: nat,
}

/// One charge: a row that could be made joins the table; the table is handed
/// out when the row arrives ten or more charges after the last batch, or with
/// the last charge. A charge that failed only counts.
pub open spec fn batcher_step(v: BatcherView, row: Option<RowView>) -> (BatcherView, Option<Seq<RowView>>) {
    let counter = v.counter + 1;
    let processed = v.processed + 1;
    match row {
        None => (BatcherView { counter, processed, ..v }, None),
        Some(r) => {
            let table = v.table.push(r);
            if counter >= 10 || processed == v.total {
                (BatcherView { table: Seq::empty(), counter: 0, processed, ..v }, Some(table))
            } else {
                (BatcherView { table, counter, processed, ..v }, None)
            }
        },
    }
}

/// The text of an optional row.
pub open spec fn opt_row(row: Option<Vec<String>>) -> Option<RowView> {
    match row {
        Some(r) => Some(r.deep_view()),
        None => None,
    }
}

/// The batching state of one filling of the sheet.
pub struct ChargeBatcher {
    table: Vec<Vec<String>>,
    counter: usize,
    processed: usize,
    total: usize,
}

impl View for ChargeBatcher {
    type V = BatcherView;

    closed spec fn view(&self) -> BatcherView {
        BatcherView {
            table: self.table.deep_view(),
            counter: self.counter as nat,
            processed: self.processed as nat,
            total: self.total as nat,
        }
    }
}

impl ChargeBatcher {
    /// The invariant of a batcher: the charges seen never exceed the total,
    /// and the charges since the last batch never exceed those seen.
    pub closed spec fn wf(&self) -> bool {
        &&& self.processed <= self.total
        &&& self.counter <= self.processed
    }

    /// A batcher for `total` charges.
    pub fn new(total: usize) -> (b: Self)
        ensures
            b.wf(),
            b@.table.len() == 0,
            b@.counter == 0,
            b@.processed == 0,
            b@.total == total,
    {
        let b = ChargeBatcher { table: Vec::new(), counter: 0, processed: 0, total };
        assert(b.table.deep_view() =~= Seq::<RowView>::empty());
        b
    }

    /// Whether every charge was seen.
    pub fn is_finished(&self) -> (done: bool)
        requires
            self.wf(),
        ensures
            done == (self@.processed == self@.total),
    {
        self.processed == self.total
    }

    /// Records what came of the next charge (its row, or `None` where it
    /// failed) and hands out the batch to append, if it is time.
    pub fn record(&mut self, row: Option<Vec<String>>) -> (batch: Option<Vec<Vec<String>>>)
        requires
            old(self).wf(),
            old(self)@.processed < old(self)@.total,
        ensures
            final(self).wf(),
            final(self)@ == batcher_step(old(self)@, opt_row(row)).0,
            match batcher_step(old(self)@, opt_row(row)).1 {
                Some(t) => batch matches Some(b) && b.deep_view() == t,
                None => batch is None,
            },
    {
        let ghost old_view = self@;
        self.counter = self.counter + 1;
        self.processed = self.processed + 1;
        match row {
            None => None,
            Some(r) => {
                let ghost rv = r.deep_view();
                self.table.push(r);
                assert(self.table.deep_view() =~= old_view.table.push(rv));
                if self.counter >= 10 || self.processed == self.total {
                    let mut out: Vec<Vec<String>> = Vec::new();
                    std::mem::swap(&mut out, &mut self.table);
                    self.counter = 0;
                    assert(self.table.deep_view() =~= Seq::<RowView>::empty());
                    Some(out)
                } else {
                    None
                }
            },
        }
    }
}

/// The rows made, in order.
pub open spec fn produced(rows: Seq<Option<RowView>>) -> Seq<RowView>
    decreases rows.len(),
{
    if rows.len() == 0 {
        Seq::empty()
    } else {
        let before = produced(rows.drop_last());
        match rows.last() {
            Some(r) => before.push(r),
            None => before,
        }
    }
}

/// The rows of the batches, one batch after the other.
pub open spec fn concat(batches: Seq<Seq<RowView>>) -> Seq<RowView>
    decreases batches.len(),
{
    if batches.len() == 0 {
        Seq::empty()
    } else {
        concat(batches.drop_last()) + batches.last()
    }
}

/// A batcher over the outcomes of the charges: the state after them and the
/// batches handed out.
pub open spec fn batcher_run(v: BatcherView, rows: Seq<Option<RowView>>) -> (BatcherView, Seq<Seq<RowView>>)
    decreases rows.len(),
{
    if rows.len() == 0 {
        (v, Seq::empty())
    } else {
        let before = batcher_run(v, rows.drop_last());
        let after = batcher_step(before.0, rows.last());
        match after.1 {
            Some(b) => (after.0, before.1.push(b)),
            None => (after.0, before.1),
        }
    }
}

/// A fresh batcher, as `ChargeBatcher::new` makes it.
pub open spec fn fresh_batcher(total: nat) -> BatcherView {
    BatcherView { table: Seq::empty(), counter: 0, processed: 0, total }
}

proof fn lemma_concat_push(bs: Seq<Seq<RowView>>, b: Seq<RowView>)
    ensures
        concat(bs.push(b)) == concat(bs) + b,
{
    assert(bs.push(b).drop_last() =~= bs);
}

/// What holds after any number of charges.
proof fn lemma_batcher_invariant(total: nat, rows: Seq<Option<RowView>>)
    requires
        rows.len() <= total,
    ensures
        ({
            let r = batcher_run(fresh_batcher(total), rows);
            &&& r.0.total == total
            &&& r.0.processed == rows.len()
            &&& r.0.table.len() <= r.0.counter
            &&& r.0.table.len() <= 9
            &&& concat(r.1) + r.0.table == produced(rows)
            &&& forall|k: int| 0 <= k < r.1.len() ==> 1 <= (#[trigger] r.1[k]).len() <= 10
        }),
    decreases rows.len(),
{
    let v0 = fresh_batcher(total);
    if rows.len() == 0 {
        let r = batcher_run(v0, rows);
        assert(concat(r.1) + r.0.table =~= produced(rows));
    } else {
        let prev = rows.drop_last();
        lemma_batcher_invariant(total, prev);
        let before = batcher_run(v0, prev);
        let after = batcher_step(before.0, rows.last());
        let r = batcher_run(v0, rows);
        match rows.last() {
            Some(row) => {
                match after.1 {
                    Some(b) => {
                        lemma_concat_push(before.1, b);
                        assert(concat(r.1) + r.0.table =~= concat(before.1) + before.0.table.push(row));
                        assert forall|k: int| 0 <= k < r.1.len() implies 1 <= (#[trigger] r.1[k]).len() <= 10 by {
                            if k < before.1.len() {
                                assert(r.1[k] == before.1[k]);
                            }
                        }
                    },
                    None => {
                        assert(concat(r.1) + r.0.table =~= concat(before.1) + before.0.table.push(row));
                    },
                }
            },
            None => {},
        }
    }
}

/// The rows handed out and the rows still gathered are, one after the other,
/// exactly the rows made, in the order of the charges: no row is dropped,
/// repeated or moved.
pub proof fn law_rows_kept_in_order(total: nat, rows: Seq<Option<RowView>>)
    requires
        rows.len() <= total,
    ensures
        ({
            let r = batcher_run(fresh_batcher(total), rows);
            concat(r.1) + r.0.table == produced(rows)
        }),
{
    lemma_batcher_invariant(total, rows);
}

/// Every batch handed out holds between one and ten rows.
pub proof fn law_batches_at_most_ten(total: nat, rows: Seq<Option<RowView>>)
    requires
        rows.len() <= total,
    ensures
        ({
            let bs = batcher_run(fresh_batcher(total), rows).1;
            forall|k: int| 0 <= k < bs.len() ==> 1 <= (#[trigger] bs[k]).len() <= 10
        }),
{
    lemma_batcher_invariant(total, rows);
}

/// When the last charge yields its row, every row made has been handed out
/// by the end. (When the last charge fails, the rows gathered since the last
/// batch are never handed out.)
pub proof fn law_all_rows_handed_out(total: nat, rows: Seq<Option<RowView>>)
    requires
        rows.len() == total,
        total > 0,
        rows.last() is Some,
    ensures
        ({
            let r = batcher_run(fresh_batcher(total), rows);
            &&& r.0.table.len() == 0
            &&& concat(r.1) == produced(rows)
        }),
{
    lemma_batcher_invariant(total, rows);
    lemma_batcher_invariant(total, rows.drop_last());
    let r = batcher_run(fresh_batcher(total), rows);
    assert(concat(r.1) + r.0.table =~= concat(r.1));
}

} // verus!
