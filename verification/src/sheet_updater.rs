//! The decisions of a reminder run over the sheet of overdue charges: which
//! rows get a message, what the message says, what is written back into each
//! row, and when a batch of rows is written back into which range. The
//! program reads the sheet, sends the messages and writes the batches; after
//! each row it tells the run whether the message went out.

use vstd::prelude::*;
use crate::dates::{
    checked_now, yesterday_in_sao_paulo_at, yesterday_text, ClockError, MAX_CHRONO_TIMESTAMP,
};
use crate::text::{decimal, push_decimal};

verus! {

/// A row of the sheet: name, contract, phone, due date, amount, document,
/// payment link and, once a reminder was tried, its status.
pub type RowView = Seq<Seq<char>>;

/// The text of the reminder sent to the customer `name`.
pub open spec fn reminder_text(name: Seq<char>, notify_suspension: bool) -> Seq<char> {
    if notify_suspension {
        "Olá "@ + name
            + "!,\nAmanhã o seu serviço será suspenso!\nRealize o pagamento e evite a suspensão."@
    } else {
        "Olá "@ + name
            + "!,\nA sua cobrança venceu!\nRealize o pagamento para evitar a suspensão do serviço."@
    }
}

/// The status written into a row that was due a reminder.
pub open spec fn status_text(delivered: bool) -> Seq<char> {
    if delivered {
        "Primeira mensagem"@
    } else {
        "Não enviado"@
    }
}

/// A row is due a reminder when it has no status yet (fewer than eight
/// cells), its phone (third cell) was not sent a reminder earlier in the run,
/// and its due date (fourth cell) is the date looked for.
pub open spec fn is_due(row: RowView, sent: Seq<Seq<char>>, date: Seq<char>) -> bool {
    row.len() < 8 && !sent.contains(row[2]) && row[3] == date
}

/// A row whose cells can be read to decide whether it is due: one with eight
/// cells or more, or one that has its phone and, unless that phone was already
/// sent a reminder, its due date.
pub open spec fn row_readable(row: RowView, sent: Seq<Seq<char>>) -> bool {
    row.len() >= 8 || (row.len() >= 3 && (sent.contains(row[2]) || row.len() >= 4))
}

/// The first sheet line of a batch of `counter` rows ending at line `index`.
pub open spec fn update_start(counter: nat, index: nat) -> nat {
    if index < counter {
        1
    } else {
        (index - counter + 1) as nat
    }
}

/// The range "A<first>:H<last>".
pub open spec fn range_text(first: nat, last: nat) -> Seq<char> {
    "A"@ + decimal(first) + ":H"@ + decimal(last)
}

/// The last `counter` rows of a batch (all of it if it is shorter).
pub open spec fn last_rows(batch: Seq<RowView>, counter: nat) -> Seq<RowView> {
    if batch.len() <= counter {
        batch
    } else {
        batch.subrange(batch.len() - counter, batch.len() as int)
    }
}

/// A write of rows into the sheet: the rows and the lines they cover.
pub struct UpdateView {
    pub rows: Seq<RowView>,
    pub first: nat,
    pub last: nat,
}

/// The write of the last `counter` rows of a batch, ending at line `index`.
pub open spec fn update_of(batch: Seq<RowView>, counter: nat, index: nat) -> UpdateView {
    UpdateView { rows: last_rows(batch, counter), first: update_start(counter, index), last: index }
}

/// A write of rows into a range of the sheet.
pub struct SheetUpdate {
    pub rows: Vec<Vec<String>>,
    pub range: String,
}

/// Whether a write carries the rows and the range of an update.
pub open spec fn update_matches(u: SheetUpdate, v: UpdateView) -> bool {
    u.rows.deep_view() == v.rows && u.range@ == range_text(v.first, v.last)
}

/// A copy of a row.
fn clone_row(row: &Vec<String>) -> (res: Vec<String>)
    ensures
        res.deep_view() == row.deep_view(),
{
    let mut res: Vec<String> = Vec::new();
    let n = row.len();
    let mut i: usize = 0;
    while i < n
        invariant
            n == row.len(),
            i <= n,
            res@.len() == i,
            res.deep_view() == row.deep_view().take(i as int),
        decreases n - i,
    {
        let ghost prev = res@;
        let cell = row[i].clone();
        res.push(cell);
        assert(res@ == prev.push(cell));
        assert(res.deep_view() =~= row.deep_view().take(i + 1)) by {
            assert forall|k: int| 0 <= k < i + 1 implies res.deep_view()[k] == row.deep_view().take(
                i + 1,
            )[k] by {
                if k < i {
                    assert(res@[k] == prev[k]);
                }
            }
        }
        i = i + 1;
    }
    assert(row.deep_view().take(n as int) =~= row.deep_view());
    res
}

/// The write of the last `counter` rows of `batch` into the lines that end at
/// `sheet_index`: from line `sheet_index - counter + 1` (line 1 if that is not
/// positive) to line `sheet_index`, columns A to H.
pub fn batch_update(batch: &Vec<Vec<String>>, counter: usize, sheet_index: usize) -> (u: SheetUpdate)
    requires
        sheet_index >= counter ==> sheet_index - counter + 1 <= usize::MAX,
    ensures
        update_matches(u, update_of(batch.deep_view(), counter as nat, sheet_index as nat)),
{
    let start_index: usize = if sheet_index < counter {
        1
    } else {
        sheet_index - counter + 1
    };
    let n = batch.len();
    let from: usize = if n <= counter {
        0
    } else {
        n - counter
    };
    let mut rows: Vec<Vec<String>> = Vec::new();
    let mut i: usize = from;
    while i < n
        invariant
            from <= i <= n,
            n == batch.len(),
            rows@.len() == i - from,
            rows.deep_view() == batch.deep_view().subrange(from as int, i as int),
        decreases n - i,
    {
        let ghost prev = rows@;
        let copy = clone_row(&batch[i]);
        rows.push(copy);
        assert(rows@ == prev.push(copy));
        assert(rows.deep_view() =~= batch.deep_view().subrange(from as int, i + 1)) by {
            assert forall|k: int| 0 <= k < i + 1 - from implies rows.deep_view()[k]
                == batch.deep_view().subrange(from as int, i + 1)[k] by {
                if k < i - from {
                    assert(rows@[k] == prev[k]);
                }
            }
        }
        i = i + 1;
    }
    assert(rows.deep_view() =~= last_rows(batch.deep_view(), counter as nat));
    let mut range = String::from_str("A");
    push_decimal(&mut range, start_index as u64);
    range.append(":H");
    push_decimal(&mut range, sheet_index as u64);
    SheetUpdate { rows, range }
}

/// What a reminder run stands for.
pub struct ReminderView {
    /// The due date looked for.
    pub date: Seq<char>,
    /// Whether the reminders announce the suspension of the service.
    pub notify_suspension: bool,
    /// The phones sent a reminder so far, in order.
    pub sent: Seq<Seq<char>>,
    /// The rows read and not yet written back.
    pub batch: Seq<RowView>,
    /// One more than the rows of the batch.
    pub counter: nat,
    /// The line of the next row (from 1).
    pub index: nat,
    /// The number of rows of the sheet.
    pub total: nat,
}

/// The row as it is written back: with the status of its reminder appended
/// when it was due one.
pub open spec fn written_row(v: ReminderView, row: RowView, delivered: bool) -> RowView {
    if is_due(row, v.sent, v.date) {
        row.push(status_text(delivered))
    } else {
        row
    }
}

/// One row of a run: the row is added to the batch as it is written back, its
/// phone is recorded if it was due a reminder, and the batch is written out
/// when it holds ten rows or the row is the last of the sheet.
pub open spec fn reminder_step(v: ReminderView, row: RowView, delivered: bool) -> (
    ReminderView,
    Option<UpdateView>,
) {
    let due = is_due(row, v.sent, v.date);
    let batch = v.batch.push(written_row(v, row, delivered));
    let sent = if due {
        v.sent.push(row[2])
    } else {
        v.sent
    };
    if v.counter == 10 || v.index == v.total {
        (
            ReminderView { sent, batch: Seq::empty(), counter: 1, index: v.index + 1, ..v },
            Some(update_of(batch, v.counter, v.index)),
        )
    } else {
        (ReminderView { sent, batch, counter: v.counter + 1, index: v.index + 1, ..v }, None)
    }
}

/// The rows of a sequence of writes, in order.
pub open spec fn written(ups: Seq<UpdateView>) -> Seq<RowView>
    decreases ups.len(),
{
    if ups.len() == 0 {
        Seq::empty()
    } else {
        written(ups.drop_last()) + ups.last().rows
    }
}

/// A run over `rows`, with `delivered[i]` telling whether the reminder of
/// row `i`, if any, went out: the state after the rows and the writes made.
pub open spec fn reminder_run(v: ReminderView, rows: Seq<RowView>, delivered: Seq<bool>) -> (
    ReminderView,
    Seq<UpdateView>,
)
    decreases rows.len(),
{
    if rows.len() == 0 {
        (v, Seq::empty())
    } else {
        let before = reminder_run(v, rows.drop_last(), delivered);
        let after = reminder_step(before.0, rows.last(), delivered[rows.len() - 1]);
        match after.1 {
            Some(u) => (after.0, before.1.push(u)),
            None => (after.0, before.1),
        }
    }
}

/// A fresh run, as `ReminderRun::new` makes it.
pub open spec fn fresh_run(date: Seq<char>, notify_suspension: bool, total: nat) -> ReminderView {
    ReminderView {
        date,
        notify_suspension,
        sent: Seq::empty(),
        batch: Seq::empty(),
        counter: 1,
        index: 1,
        total,
    }
}

/// The state of a run just before its `i`-th row.
pub open spec fn state_before(
    date: Seq<char>,
    notify_suspension: bool,
    total: nat,
    rows: Seq<RowView>,
    delivered: Seq<bool>,
    i: int,
) -> ReminderView {
    reminder_run(fresh_run(date, notify_suspension, total), rows.take(i), delivered).0
}

/// What holds after any number of rows of a run.
pub open spec fn run_invariant(
    date: Seq<char>,
    notify_suspension: bool,
    total: nat,
    rows: Seq<RowView>,
    delivered: Seq<bool>,
    w: ReminderView,
    ups: Seq<UpdateView>,
) -> bool {
    let all = written(ups) + w.batch;
    &&& w.date == date
    &&& w.notify_suspension == notify_suspension
    &&& w.total == total
    &&& w.index == rows.len() + 1
    &&& w.counter == w.batch.len() + 1
    &&& w.counter <= 10
    &&& w.sent.no_duplicates()
    &&& all.len() == rows.len()
    &&& forall|i: int|
        0 <= i < rows.len() ==> #[trigger] all[i] == written_row(
            state_before(date, notify_suspension, total, rows, delivered, i),
            rows[i],
            delivered[i],
        )
    &&& forall|k: int|
        0 <= k < ups.len() ==> {
            &&& (#[trigger] ups[k]).first == written(ups.take(k)).len() + 1
            &&& ups[k].last == written(ups.take(k + 1)).len()
            &&& 1 <= ups[k].rows.len() <= 10
        }
}

proof fn lemma_written_push(ups: Seq<UpdateView>, u: UpdateView)
    ensures
        written(ups.push(u)) == written(ups) + u.rows,
{
    assert(ups.push(u).drop_last() =~= ups);
}

proof fn lemma_run_invariant(
    date: Seq<char>,
    notify_suspension: bool,
    total: nat,
    rows: Seq<RowView>,
    delivered: Seq<bool>,
)
    requires
        rows.len() <= total,
        delivered.len() == rows.len(),
    ensures
        ({
            let r = reminder_run(fresh_run(date, notify_suspension, total), rows, delivered);
            run_invariant(date, notify_suspension, total, rows, delivered, r.0, r.1)
        }),
    decreases rows.len(),
{
    let v0 = fresh_run(date, notify_suspension, total);
    if rows.len() == 0 {
        let r = reminder_run(v0, rows, delivered);
        assert(written(r.1) =~= Seq::<RowView>::empty());
        assert(written(r.1) + r.0.batch =~= Seq::<RowView>::empty());
    } else {
        let n = rows.len() - 1;
        let prev_rows = rows.drop_last();
        let prev_delivered = delivered.drop_last();
        lemma_run_invariant(date, notify_suspension, total, prev_rows, prev_delivered);
        let before = reminder_run(v0, prev_rows, prev_delivered);
        assert(reminder_run(v0, prev_rows, delivered) == before) by {
            lemma_run_ignores_later(v0, prev_rows, prev_delivered, delivered);
        }
        let w = before.0;
        let ups = before.1;
        let row = rows.last();
        let d = delivered[n];
        let after = reminder_step(w, row, d);
        let r = reminder_run(v0, rows, delivered);
        let new_row = written_row(w, row, d);
        let batch = w.batch.push(new_row);
        let old_all = written(ups) + w.batch;
        let new_all = written(r.1) + r.0.batch;
        assert(new_all =~= old_all.push(new_row)) by {
            match after.1 {
                Some(u) => {
                    lemma_written_push(ups, u);
                    assert(u.rows =~= batch);
                },
                None => {},
            }
        }
        assert forall|i: int| 0 <= i < rows.len() implies #[trigger] new_all[i] == written_row(
            state_before(date, notify_suspension, total, rows, delivered, i),
            rows[i],
            delivered[i],
        ) by {
            if i < n {
                assert(new_all[i] == old_all[i]);
                assert(rows[i] == prev_rows[i]);
                assert(delivered[i] == prev_delivered[i]);
                assert(rows.take(i) =~= prev_rows.take(i));
                lemma_run_ignores_later(v0, prev_rows.take(i), prev_delivered, delivered);
            } else {
                assert(new_all[i] == new_row);
                assert(rows.take(i) =~= prev_rows);
            }
        }
        if is_due(row, w.sent, w.date) {
            let sent = w.sent.push(row[2]);
            assert forall|i: int, j: int| 0 <= i < sent.len() && 0 <= j < sent.len() && i != j implies sent[i]
                != sent[j] by {
                if i < w.sent.len() && j < w.sent.len() {
                } else if i == w.sent.len() {
                    assert(w.sent.contains(sent[j]) == false ==> sent[i] != sent[j]);
                    if sent[i] == sent[j] {
                        assert(w.sent[j] == sent[j]);
                        assert(w.sent.contains(row[2]));
                    }
                } else {
                    if sent[i] == sent[j] {
                        assert(w.sent[i] == sent[i]);
                        assert(w.sent.contains(row[2]));
                    }
                }
            }
        }
        match after.1 {
            Some(u) => {
                let ups2 = ups.push(u);
                assert forall|k: int| 0 <= k < ups2.len() implies {
                    &&& (#[trigger] ups2[k]).first == written(ups2.take(k)).len() + 1
                    &&& ups2[k].last == written(ups2.take(k + 1)).len()
                    &&& 1 <= ups2[k].rows.len() <= 10
                } by {
                    if k < ups.len() {
                        assert(ups2.take(k) =~= ups.take(k));
                        assert(ups2.take(k + 1) =~= ups.take(k + 1));
                        assert(ups2[k] == ups[k]);
                    } else {
                        assert(ups2.take(k) =~= ups);
                        assert(ups2.take(k + 1) =~= ups2);
                        lemma_written_push(ups, u);
                    }
                }
            },
            None => {},
        }
    }
}

/// What a run does with a row depends on that row and the rows before it,
/// not on the deliveries of later rows.
proof fn lemma_run_ignores_later(
    v: ReminderView,
    rows: Seq<RowView>,
    delivered: Seq<bool>,
    longer: Seq<bool>,
)
    requires
        rows.len() <= delivered.len() <= longer.len(),
        forall|i: int| 0 <= i < delivered.len() ==> delivered[i] == longer[i],
    ensures
        reminder_run(v, rows, delivered) == reminder_run(v, rows, longer),
    decreases rows.len(),
{
    if rows.len() > 0 {
        lemma_run_ignores_later(v, rows.drop_last(), delivered, longer);
    }
}

/// A run over the whole sheet writes every row back exactly once and in
/// order: the rows of its writes, one after the other, are the rows of the
/// sheet, each with the status of its reminder appended exactly when it was
/// due a reminder in the run (no status yet, the date looked for, a phone not
/// reminded before in the run), and unchanged otherwise; nothing is left
/// unwritten at the end.
pub proof fn law_every_row_written_back(
    date: Seq<char>,
    notify_suspension: bool,
    rows: Seq<RowView>,
    delivered: Seq<bool>,
)
    requires
        delivered.len() == rows.len(),
    ensures
        ({
            let r = reminder_run(fresh_run(date, notify_suspension, rows.len()), rows, delivered);
            &&& r.0.batch.len() == 0
            &&& written(r.1).len() == rows.len()
            &&& forall|i: int|
                0 <= i < rows.len() ==> #[trigger] written(r.1)[i] == if is_due(
                    rows[i],
                    state_before(date, notify_suspension, rows.len(), rows, delivered, i).sent,
                    date,
                ) {
                    rows[i].push(status_text(delivered[i]))
                } else {
                    rows[i]
                }
        }),
{
    let v0 = fresh_run(date, notify_suspension, rows.len());
    lemma_run_invariant(date, notify_suspension, rows.len(), rows, delivered);
    let r = reminder_run(v0, rows, delivered);
    if rows.len() > 0 {
        let prev_rows = rows.drop_last();
        let prev_delivered = delivered.drop_last();
        lemma_run_invariant(date, notify_suspension, rows.len(), prev_rows, prev_delivered);
        lemma_run_ignores_later(v0, prev_rows, prev_delivered, delivered);
        let before = reminder_run(v0, prev_rows, prev_delivered);
        assert(before.0.index == rows.len());
        assert(r.0.batch.len() == 0);
    }
    assert(written(r.1) + r.0.batch =~= written(r.1));
    assert forall|i: int| 0 <= i < rows.len() implies #[trigger] written(r.1)[i] == if is_due(
        rows[i],
        state_before(date, notify_suspension, rows.len(), rows, delivered, i).sent,
        date,
    ) {
        rows[i].push(status_text(delivered[i]))
    } else {
        rows[i]
    } by {
        assert(written(r.1)[i] == (written(r.1) + r.0.batch)[i]);
        lemma_run_invariant(date, notify_suspension, rows.len(), rows.take(i), delivered.take(i));
        lemma_run_ignores_later(v0, rows.take(i), delivered.take(i), delivered);
    }
}

/// The writes of a run cover consecutive lines of the sheet, each as many
/// lines as it has rows, and at most ten: the first write starts at line 1
/// and each further write starts on the line after the previous one ended.
pub proof fn law_writes_cover_consecutive_lines(
    date: Seq<char>,
    notify_suspension: bool,
    total: nat,
    rows: Seq<RowView>,
    delivered: Seq<bool>,
)
    requires
        rows.len() <= total,
        delivered.len() == rows.len(),
    ensures
        ({
            let ups = reminder_run(fresh_run(date, notify_suspension, total), rows, delivered).1;
            forall|k: int|
                0 <= k < ups.len() ==> {
                    &&& (#[trigger] ups[k]).first == written(ups.take(k)).len() + 1
                    &&& ups[k].last == ups[k].first + ups[k].rows.len() - 1
                    &&& 1 <= ups[k].rows.len() <= 10
                }
        }),
{
    lemma_run_invariant(date, notify_suspension, total, rows, delivered);
    let ups = reminder_run(fresh_run(date, notify_suspension, total), rows, delivered).1;
    assert forall|k: int| 0 <= k < ups.len() implies {
        &&& (#[trigger] ups[k]).first == written(ups.take(k)).len() + 1
        &&& ups[k].last == ups[k].first + ups[k].rows.len() - 1
        &&& 1 <= ups[k].rows.len() <= 10
    } by {
        assert(ups.take(k + 1) =~= ups.take(k).push(ups[k]));
        lemma_written_push(ups.take(k), ups[k]);
    }
}

/// No phone is sent two reminders in one run: the phones reminded, in order,
/// hold no repetition.
pub proof fn law_one_reminder_per_phone(
    date: Seq<char>,
    notify_suspension: bool,
    total: nat,
    rows: Seq<RowView>,
    delivered: Seq<bool>,
)
    requires
        rows.len() <= total,
        delivered.len() == rows.len(),
    ensures
        reminder_run(fresh_run(date, notify_suspension, total), rows, delivered).0.sent.no_duplicates(),
{
    lemma_run_invariant(date, notify_suspension, total, rows, delivered);
}

/// Whether the `i`-th row of a run over `rows` gets a reminder: it is due one
/// in the state that the run has reached when the row comes.
pub open spec fn reminded_at(
    date: Seq<char>,
    notify_suspension: bool,
    total: nat,
    rows: Seq<RowView>,
    delivered: Seq<bool>,
    i: int,
) -> bool {
    is_due(rows[i], state_before(date, notify_suspension, total, rows, delivered, i).sent, date)
}

/// Whether a phone was sent a reminder for one of the first `i` rows.
pub open spec fn reminded_before(
    date: Seq<char>,
    notify_suspension: bool,
    total: nat,
    rows: Seq<RowView>,
    delivered: Seq<bool>,
    i: int,
    phone: Seq<char>,
) -> bool {
    exists|j: int|
        0 <= j < i && #[trigger] reminded_at(date, notify_suspension, total, rows, delivered, j)
            && rows[j][2] == phone
}

/// The phones recorded by a run before its `i`-th row are exactly the phones
/// of the earlier rows that got a reminder.
proof fn lemma_sent_is_reminded(
    date: Seq<char>,
    notify_suspension: bool,
    total: nat,
    rows: Seq<RowView>,
    delivered: Seq<bool>,
    i: int,
)
    requires
        rows.len() <= total,
        delivered.len() == rows.len(),
        0 <= i <= rows.len(),
    ensures
        state_before(date, notify_suspension, total, rows, delivered, i).date == date,
        forall|p: Seq<char>|
            #[trigger] state_before(date, notify_suspension, total, rows, delivered, i).sent.contains(p)
                <==> reminded_before(date, notify_suspension, total, rows, delivered, i, p),
    decreases i,
{
    let v0 = fresh_run(date, notify_suspension, total);
    lemma_run_invariant(date, notify_suspension, total, rows.take(i), delivered.take(i));
    lemma_run_ignores_later(v0, rows.take(i), delivered.take(i), delivered);
    if i == 0 {
        assert(rows.take(0).len() == 0);
        assert forall|p: Seq<char>|
            #[trigger] state_before(date, notify_suspension, total, rows, delivered, i).sent.contains(p)
                <==> reminded_before(date, notify_suspension, total, rows, delivered, i, p) by {
            assert(state_before(date, notify_suspension, total, rows, delivered, i).sent.len() == 0);
        }
    } else {
        let k = i - 1;
        lemma_sent_is_reminded(date, notify_suspension, total, rows, delivered, k);
        let before = state_before(date, notify_suspension, total, rows, delivered, k);
        assert(rows.take(i).drop_last() =~= rows.take(k));
        assert(rows.take(i).last() == rows[k]);
        let now = state_before(date, notify_suspension, total, rows, delivered, i);
        assert(now == reminder_step(before, rows[k], delivered[k]).0);
        assert forall|p: Seq<char>|
            #[trigger] now.sent.contains(p) <==> reminded_before(
                date,
                notify_suspension,
                total,
                rows,
                delivered,
                i,
                p,
            ) by {
            assert(before.sent.contains(p) <==> reminded_before(
                date,
                notify_suspension,
                total,
                rows,
                delivered,
                k,
                p,
            ));
            if reminded_at(date, notify_suspension, total, rows, delivered, k) {
                assert(now.sent == before.sent.push(rows[k][2]));
                if now.sent.contains(p) {
                    let m = choose|m: int| 0 <= m < now.sent.len() && now.sent[m] == p;
                    if m < before.sent.len() {
                        assert(before.sent[m] == p);
                        assert(before.sent.contains(p));
                    } else {
                        assert(rows[k][2] == p);
                    }
                }
                if reminded_before(date, notify_suspension, total, rows, delivered, i, p) {
                    let j = choose|j: int|
                        0 <= j < i && #[trigger] reminded_at(
                            date,
                            notify_suspension,
                            total,
                            rows,
                            delivered,
                            j,
                        ) && rows[j][2] == p;
                    if j < k {
                        assert(reminded_before(date, notify_suspension, total, rows, delivered, k, p));
                        assert(before.sent.contains(p));
                        let m = choose|m: int| 0 <= m < before.sent.len() && before.sent[m] == p;
                        assert(now.sent[m] == before.sent[m]);
                        assert(now.sent[m] == p);
                    } else {
                        assert(now.sent[before.sent.len() as int] == p);
                    }
                }
            } else {
                assert(now.sent == before.sent);
                if reminded_before(date, notify_suspension, total, rows, delivered, i, p) {
                    let j = choose|j: int|
                        0 <= j < i && #[trigger] reminded_at(
                            date,
                            notify_suspension,
                            total,
                            rows,
                            delivered,
                            j,
                        ) && rows[j][2] == p;
                    assert(j < k);
                    assert(reminded_before(date, notify_suspension, total, rows, delivered, k, p));
                }
                if reminded_before(date, notify_suspension, total, rows, delivered, k, p) {
                    let j = choose|j: int|
                        0 <= j < k && #[trigger] reminded_at(
                            date,
                            notify_suspension,
                            total,
                            rows,
                            delivered,
                            j,
                        ) && rows[j][2] == p;
                    assert(reminded_before(date, notify_suspension, total, rows, delivered, i, p));
                }
            }
        }
    }
}

/// Which rows of a run get a reminder: a row gets one exactly when it has no
/// status yet (fewer than eight cells), its due date (fourth cell) is the date
/// looked for, and its phone (third cell) is not that of an earlier row of the
/// run that got a reminder. So no two rows of a run that get a reminder have
/// the same phone, and the phones of rows that get none are not recorded.
pub proof fn law_who_gets_a_reminder(
    date: Seq<char>,
    notify_suspension: bool,
    total: nat,
    rows: Seq<RowView>,
    delivered: Seq<bool>,
)
    requires
        rows.len() <= total,
        delivered.len() == rows.len(),
    ensures
        forall|i: int|
            0 <= i < rows.len() ==> (#[trigger] reminded_at(
                date,
                notify_suspension,
                total,
                rows,
                delivered,
                i,
            ) <==> (rows[i].len() < 8 && rows[i][3] == date && !(exists|j: int|
                0 <= j < i && reminded_at(date, notify_suspension, total, rows, delivered, j)
                    && rows[j][2] == rows[i][2]))),
        forall|i: int, j: int|
            0 <= i < j < rows.len() && #[trigger] reminded_at(
                date,
                notify_suspension,
                total,
                rows,
                delivered,
                i,
            ) && #[trigger] reminded_at(date, notify_suspension, total, rows, delivered, j)
                ==> rows[i][2] != rows[j][2],
{
    assert forall|i: int| 0 <= i < rows.len() implies (#[trigger] reminded_at(
        date,
        notify_suspension,
        total,
        rows,
        delivered,
        i,
    ) <==> (rows[i].len() < 8 && rows[i][3] == date && !(exists|j: int|
        0 <= j < i && reminded_at(date, notify_suspension, total, rows, delivered, j)
            && rows[j][2] == rows[i][2]))) by {
        lemma_sent_is_reminded(date, notify_suspension, total, rows, delivered, i);
        let st = state_before(date, notify_suspension, total, rows, delivered, i);
        assert(st.sent.contains(rows[i][2]) <==> reminded_before(
            date,
            notify_suspension,
            total,
            rows,
            delivered,
            i,
            rows[i][2],
        ));
    }
    assert forall|i: int, j: int|
        0 <= i < j < rows.len() && #[trigger] reminded_at(
            date,
            notify_suspension,
            total,
            rows,
            delivered,
            i,
        ) && #[trigger] reminded_at(date, notify_suspension, total, rows, delivered, j) implies rows[i][2]
        != rows[j][2] by {
        lemma_sent_is_reminded(date, notify_suspension, total, rows, delivered, j);
        let st = state_before(date, notify_suspension, total, rows, delivered, j);
        if rows[i][2] == rows[j][2] {
            assert(reminded_before(date, notify_suspension, total, rows, delivered, j, rows[j][2]));
            assert(st.sent.contains(rows[j][2]));
        }
    }
}

/// The text of an optional string.
pub open spec fn opt_text(o: Option<String>) -> Option<Seq<char>> {
    match o {
        Some(s) => Some(s@),
        None => None,
    }
}

/// The due date of a run at the instant `now`: the one given, or yesterday's
/// date in São Paulo at `now`.
pub open spec fn run_date(date: Option<Seq<char>>, now: i64) -> Seq<char> {
    match date {
        Some(d) => d,
        None => yesterday_text(now),
    }
}

/// A run without a date does at the instant `now` exactly what a run given
/// yesterday's date in São Paulo at `now` does, on every sheet.
pub proof fn law_no_date_means_yesterday(
    now: i64,
    notify_suspension: bool,
    rows: Seq<RowView>,
    delivered: Seq<bool>,
)
    ensures
        reminder_run(fresh_run(run_date(None, now), notify_suspension, rows.len()), rows, delivered)
            == reminder_run(
            fresh_run(run_date(Some(yesterday_text(now)), now), notify_suspension, rows.len()),
            rows,
            delivered,
        ),
{
}

/// A reminder about to be sent.
pub struct Reminder {
    pub phone: String,
    pub text: String,
}

/// The state of a reminder run over a sheet.
pub struct ReminderRun {
    date: String,
    notify_suspension: bool,
    sent_tel: Vec<String>,
    counter: usize,
    sheet_index: usize,
    total: usize,
    batch: Vec<Vec<String>>,
}

impl View for ReminderRun {
    type V = ReminderView;

    closed spec fn view(&self) -> ReminderView {
        ReminderView {
            date: self.date@,
            notify_suspension: self.notify_suspension,
            sent: self.sent_tel.deep_view(),
            batch: self.batch.deep_view(),
            counter: self.counter as nat,
            index: self.sheet_index as nat,
            total: self.total as nat,
        }
    }
}

impl ReminderRun {
    /// The invariant of a run: the counter is one more than the rows of the
    /// batch and at most ten, the batch ends just before the next line, the
    /// next line is at most one past the last, and no phone is recorded twice.
    pub closed spec fn wf(&self) -> bool {
        &&& self.counter == self.batch.len() + 1
        &&& self.counter <= 10
        &&& self.batch.len() < self.sheet_index
        &&& 1 <= self.sheet_index <= self.total + 1
        &&& self.total < usize::MAX
        &&& self.sent_tel.deep_view().no_duplicates()
    }

    fn with_date(date: String, notify_suspension: bool, total: usize) -> (run: Self)
        requires
            total < usize::MAX,
        ensures
            run.wf(),
            run@ == fresh_run(date@, notify_suspension, total as nat),
    {
        let run = ReminderRun {
            date,
            notify_suspension,
            sent_tel: Vec::new(),
            counter: 1,
            sheet_index: 1,
            total,
            batch: Vec::new(),
        };
        assert(run.sent_tel.deep_view() =~= Seq::<Seq<char>>::empty());
        assert(run.batch.deep_view() =~= Seq::<RowView>::empty());
        run
    }

    /// A run over a sheet of `total` rows at the instant `now`, looking for the
    /// due date `date`, or for yesterday's date in São Paulo at `now` when none
    /// is given.
    pub fn new_at(date: Option<String>, now: i64, notify_suspension: bool, total: usize) -> (run: Self)
        requires
            total < usize::MAX,
            0 <= now <= MAX_CHRONO_TIMESTAMP,
        ensures
            run.wf(),
            run@ == fresh_run(run_date(opt_text(date), now), notify_suspension, total as nat),
    {
        let date = match date {
            Some(d) => d,
            None => yesterday_in_sao_paulo_at(now),
        };
        Self::with_date(date, notify_suspension, total)
    }

    /// A run over a sheet of `total` rows, looking for the due date `date`, or,
    /// when none is given, for yesterday's date in São Paulo at the instant
    /// that the clock reads; the clock is read only then, and an error is
    /// returned where it gives no instant.
    pub fn new(date: Option<String>, notify_suspension: bool, total: usize) -> (res: Result<
        Self,
        ClockError,
    >)
        requires
            total < usize::MAX,
        ensures
            date matches Some(d) ==> res matches Ok(run) && run.wf() && run@ == fresh_run(
                d@,
                notify_suspension,
                total as nat,
            ),
            res is Err ==> date is None,
            res matches Ok(run) ==> run.wf() && exists|now: i64|
                0 <= now <= MAX_CHRONO_TIMESTAMP && run@ == fresh_run(
                    #[trigger] run_date(opt_text(date), now),
                    notify_suspension,
                    total as nat,
                ),
    {
        match date {
            Some(d) => {
                let run = Self::with_date(d, notify_suspension, total);
                assert(run@ == fresh_run(run_date(opt_text(Some(d)), 0), notify_suspension, total as nat));
                Ok(run)
            },
            None => match checked_now() {
                Ok(now) => {
                    let run = Self::new_at(None, now, notify_suspension, total);
                    assert(run@ == fresh_run(run_date(opt_text(None), now), notify_suspension, total as nat));
                    Ok(run)
                },
                Err(e) => Err(e),
            },
        }
    }

    /// Whether the run has gone through every row.
    pub fn is_finished(&self) -> (b: bool)
        requires
            self.wf(),
        ensures
            b == (self@.index > self@.total),
    {
        self.sheet_index > self.total
    }

    /// The due date looked for.
    pub fn date(&self) -> (d: &String)
        ensures
            d@ == self@.date,
    {
        &self.date
    }

    /// Whether the cells of a row that decide whether it is due can be read.
    pub fn can_read(&self, row: &Vec<String>) -> (b: bool)
        ensures
            b == row_readable(row.deep_view(), self@.sent),
    {
        row.len() >= 8 || (row.len() >= 3 && (row.len() >= 4 || self.phone_sent(&row[2])))
    }

    fn phone_sent(&self, phone: &String) -> (b: bool)
        ensures
            b == self@.sent.contains(phone@),
    {
        let n = self.sent_tel.len();
        let mut i: usize = 0;
        while i < n
            invariant
                n == self.sent_tel.len(),
                i <= n,
                forall|k: int| 0 <= k < i ==> self.sent_tel.deep_view()[k] != phone@,
            decreases n - i,
        {
            if self.sent_tel[i] == *phone {
                assert(self.sent_tel.deep_view()[i as int] == phone@);
                return true;
            }
            i = i + 1;
        }
        false
    }

    fn row_is_due(&self, row: &Vec<String>) -> (b: bool)
        requires
            row_readable(row.deep_view(), self@.sent),
        ensures
            b == is_due(row.deep_view(), self@.sent, self@.date),
    {
        row.len() < 8 && !self.phone_sent(&row[2]) && row[3] == self.date
    }

    /// The reminder that a row is due, if it is due one: to its phone, with
    /// the text for its customer.
    pub fn reminder_for(&self, row: &Vec<String>) -> (r: Option<Reminder>)
        requires
            row_readable(row.deep_view(), self@.sent),
        ensures
            r is Some <==> is_due(row.deep_view(), self@.sent, self@.date),
            r matches Some(m) ==> {
                &&& m.phone@ == row.deep_view()[2]
                &&& m.text@ == reminder_text(row.deep_view()[0], self@.notify_suspension)
            },
    {
        if self.row_is_due(row) {
            let mut text = String::from_str("Olá ");
            text.append(row[0].as_str());
            if self.notify_suspension {
                text.append(
                    "!,\nAmanhã o seu serviço será suspenso!\nRealize o pagamento e evite a suspensão.",
                );
            } else {
                text.append(
                    "!,\nA sua cobrança venceu!\nRealize o pagamento para evitar a suspensão do serviço.",
                );
            }
            Some(Reminder { phone: row[2].clone(), text })
        } else {
            None
        }
    }

    /// Records a row after its reminder, if it was due one, was tried
    /// (`delivered` says whether it went out; it is ignored for a row that
    /// was not due): the row, with the status of its reminder, joins the batch,
    /// and the batch is handed back for writing when it holds ten rows or the
    /// row is the last of the sheet.
    pub fn finish_row(&mut self, row: Vec<String>, delivered: bool) -> (u: Option<SheetUpdate>)
        requires
            old(self).wf(),
            old(self)@.index <= old(self)@.total,
            row_readable(row.deep_view(), old(self)@.sent),
        ensures
            final(self).wf(),
            final(self)@ == reminder_step(old(self)@, row.deep_view(), delivered).0,
            match reminder_step(old(self)@, row.deep_view(), delivered).1 {
                Some(v) => u matches Some(w) && update_matches(w, v),
                None => u is None,
            },
    {
        let ghost old_view = self@;
        let ghost row_view = row.deep_view();
        let due = self.row_is_due(&row);
        let mut new_row = row;
        if due {
            let phone = new_row[2].clone();
            let status = if delivered {
                String::from_str("Primeira mensagem")
            } else {
                String::from_str("Não enviado")
            };
            new_row.push(status);
            self.sent_tel.push(phone);
            proof {
                assert(self.sent_tel.deep_view() =~= old_view.sent.push(row_view[2]));
                assert forall|i: int, j: int|
                    0 <= i < j < self.sent_tel.deep_view().len() implies self.sent_tel.deep_view()[i]
                    != self.sent_tel.deep_view()[j] by {
                    if j == self.sent_tel.deep_view().len() - 1 {
                        assert(old_view.sent[i] == self.sent_tel.deep_view()[i]);
                    } else {
                        assert(old_view.sent[i] == self.sent_tel.deep_view()[i]);
                        assert(old_view.sent[j] == self.sent_tel.deep_view()[j]);
                    }
                }
            }
        }
        assert(new_row.deep_view() =~= written_row(old_view, row_view, delivered));
        self.batch.push(new_row);
        assert(self.batch.deep_view() =~= old_view.batch.push(written_row(old_view, row_view, delivered)));
        let res = if self.counter == 10 || self.sheet_index == self.total {
            let u = batch_update(&self.batch, self.counter, self.sheet_index);
            self.counter = 1;
            self.batch.clear();
            assert(self.batch.deep_view() =~= Seq::<RowView>::empty());
            Some(u)
        } else {
            self.counter = self.counter + 1;
            None
        };
        self.sheet_index = self.sheet_index + 1;
        res
    }
}

} // verus!
