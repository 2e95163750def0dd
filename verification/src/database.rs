//! The task-duration store: for every task key the day it was first seen,
//! the day it was last seen, and the business days between the two.
//!
//! The store is a table in memory. Whoever keeps it on disk loads the rows
//! into it before a run and writes them back afterwards; a store that could
//! not be loaded is handed over as unavailable, and every operation on it
//! then fails with `StoreUnavailable` and changes nothing. A row whose
//! dates cannot be read is kept as it is on disk: its key is marked
//! unreadable, every operation on that key fails with `InvalidDate`, and no
//! other key is affected.
//!
//! Every operation that changes the store takes it by exclusive reference,
//! so an observation reads, counts and writes without anything in between.
//! What was observed stays observed: nothing later in a run, such as a
//! failed delivery, takes an observation back.

use vstd::prelude::*;

use crate::date::{
    business_days, business_days_between, lemma_business_days_monotonic, lemma_same_day,
    parsed_day_number, date_format, CalendarDate, FIRST_DAY, LAST_DAY,
};
use crate::error::StandupError;
use crate::taskref::{task_key_from_url, extract_task_key_from_url};
use crate::text::same_text;

verus! {

/// How long a record may go unseen before a sweep removes it, in days.
pub const RETENTION_DAYS: u32 = 30;

/// What a record holds, as plain values; dates are day numbers.
pub struct TaskRecordView {
    pub task_key: Seq<char>,
    pub first_seen: int,
    pub last_seen: int,
    pub total_days: int,
}

/// One task and how long it has been worked on.
#[derive(Debug)]
pub struct TaigaTaskRecord {
    /// `<project>#<task number>`.
    pub task_key: String,
    /// The day of the first observation. It never changes.
    pub first_seen_date: CalendarDate,
    /// The day of the latest observation.
    pub last_seen_date: CalendarDate,
    /// The business days from the first to the last day, at least 1.
    pub total_days: i32,
}

impl View for TaigaTaskRecord {
    type V = TaskRecordView;

    open spec fn view(&self) -> TaskRecordView {
        TaskRecordView {
            task_key: self.task_key@,
            first_seen: self.first_seen_date@,
            last_seen: self.last_seen_date@,
            total_days: self.total_days as int,
        }
    }
}

impl TaigaTaskRecord {
    /// Both dates are in range and the day count is positive.
    pub open spec fn wf(&self) -> bool {
        &&& self.first_seen_date.valid()
        &&& self.last_seen_date.valid()
        &&& self.total_days >= 1
    }

    /// A copy of the record.
    pub fn duplicate(&self) -> (copy: TaigaTaskRecord)
        ensures
            copy@ == self@,
            copy.first_seen_date == self.first_seen_date,
            copy.last_seen_date == self.last_seen_date,
            self.wf() ==> copy.wf(),
    {
        TaigaTaskRecord {
            task_key: self.task_key.clone(),
            first_seen_date: self.first_seen_date,
            last_seen_date: self.last_seen_date,
            total_days: self.total_days,
        }
    }
}

/// The records of a store, by task key.
pub type Records = Map<Seq<char>, TaskRecordView>;

/// What a store holds: whether it can be used, its records, and the keys
/// whose rows on disk hold dates that cannot be read.
pub struct DatabaseView {
    pub available: bool,
    pub records: Records,
    pub unreadable: Set<Seq<char>>,
}

/// Every record is filed under its own key, has dates in range and a
/// positive day count.
pub open spec fn valid_records(records: Records) -> bool {
    forall|key: Seq<char>| #[trigger]
        records.contains_key(key) ==> {
            &&& records[key].task_key == key
            &&& FIRST_DAY <= records[key].first_seen <= LAST_DAY
            &&& FIRST_DAY <= records[key].last_seen <= LAST_DAY
            &&& records[key].total_days >= 1
        }
}

/// Every day count is the business-day count between the record's dates.
pub open spec fn totals_current(records: Records) -> bool {
    forall|key: Seq<char>| #[trigger]
        records.contains_key(key) ==> records[key].total_days == business_days(
            records[key].first_seen,
            records[key].last_seen,
        )
}

/// The record of `key` after it was observed on day `date`: a new key gets
/// a record that starts and ends on that day, a known key keeps its first
/// day and gets `date` as its last.
pub open spec fn observed_record(records: Records, key: Seq<char>, date: int) -> TaskRecordView {
    if records.contains_key(key) {
        TaskRecordView {
            task_key: key,
            first_seen: records[key].first_seen,
            last_seen: date,
            total_days: business_days(records[key].first_seen, date),
        }
    } else {
        TaskRecordView { task_key: key, first_seen: date, last_seen: date, total_days: 1 }
    }
}

/// The records after `key` was observed on day `date`.
pub open spec fn observed(records: Records, key: Seq<char>, date: int) -> Records {
    records.insert(key, observed_record(records, key, date))
}

/// The day count that observing `key` on day `date` returns.
pub open spec fn observed_days(records: Records, key: Seq<char>, date: int) -> int {
    observed_record(records, key, date).total_days
}

/// The day count on record for `key`; a key without a record is on day one.
pub open spec fn duration_of(records: Records, key: Seq<char>) -> int {
    if records.contains_key(key) {
        records[key].total_days
    } else {
        1
    }
}

/// A record last seen on day `last_seen` is stale on day `reference` when
/// it was last seen more than `retention` days before.
pub open spec fn is_stale(last_seen: int, reference: int, retention: int) -> bool {
    last_seen < reference - retention
}

/// The records that a sweep on day `reference` leaves.
pub open spec fn swept(records: Records, reference: int, retention: int) -> Records {
    Map::new(
        |key: Seq<char>|
            records.contains_key(key) && !is_stale(records[key].last_seen, reference, retention),
        |key: Seq<char>| records[key],
    )
}

/// What the store answers to an observation of `key` on day `date`: the
/// day count, or the reason why the key cannot be observed.
pub open spec fn observation(store: DatabaseView, key: Seq<char>, date: int) -> Result<
    int,
    StandupError,
> {
    if !store.available {
        Err(StandupError::StoreUnavailable)
    } else if store.unreadable.contains(key) {
        Err(StandupError::InvalidDate)
    } else {
        Ok(observed_days(store.records, key, date))
    }
}

/// The store after an observation of `key` on day `date`: changed where
/// the observation succeeds, and as it was where it fails.
pub open spec fn after_observation(store: DatabaseView, key: Seq<char>, date: int) -> DatabaseView {
    if observation(store, key, date) is Ok {
        DatabaseView { records: observed(store.records, key, date), ..store }
    } else {
        store
    }
}

/// What the store answers when asked for the record of `key`.
pub open spec fn lookup(store: DatabaseView, key: Seq<char>) -> Result<
    TaskRecordView,
    StandupError,
> {
    if !store.available {
        Err(StandupError::StoreUnavailable)
    } else if store.unreadable.contains(key) {
        Err(StandupError::InvalidDate)
    } else if store.records.contains_key(key) {
        Ok(store.records[key])
    } else {
        Err(StandupError::NotFound)
    }
}

/// The store after the first `count` of `urls` were processed on day
/// `date`: every URL that names a task key is one observation of that key.
pub open spec fn processed_store(
    store: DatabaseView,
    urls: Seq<Seq<char>>,
    count: int,
    date: int,
) -> DatabaseView
    decreases count,
{
    if count <= 0 {
        store
    } else {
        let before = processed_store(store, urls, count - 1, date);
        match task_key_from_url(urls[count - 1]) {
            Some(key) => after_observation(before, key, date),
            None => before,
        }
    }
}

/// Key and day count for each of the first `count` of `urls` that names a
/// task key, in the order of the URLs. Where the observation fails the day
/// count is 1.
pub open spec fn processed_results(
    store: DatabaseView,
    urls: Seq<Seq<char>>,
    count: int,
    date: int,
) -> Seq<(Seq<char>, int)>
    decreases count,
{
    if count <= 0 {
        Seq::empty()
    } else {
        let before = processed_results(store, urls, count - 1, date);
        match task_key_from_url(urls[count - 1]) {
            Some(key) => before.push(
                (
                    key,
                    match observation(processed_store(store, urls, count - 1, date), key, date) {
                        Ok(days) => days,
                        Err(_) => 1,
                    },
                ),
            ),
            None => before,
        }
    }
}


/// Observing a key keeps the records valid, and keeps the day counts
/// current where they were.
pub proof fn lemma_observed_valid(records: Records, key: Seq<char>, date: int)
    requires
        valid_records(records),
        FIRST_DAY <= date <= LAST_DAY,
    ensures
        valid_records(observed(records, key, date)),
        observed_days(records, key, date) >= 1,
        totals_current(records) ==> totals_current(observed(records, key, date)),
{
    let after = observed(records, key, date);
    if records.contains_key(key) {
        lemma_business_days_monotonic(records[key].first_seen, date, date);
    } else {
        lemma_same_day(date);
    }
    assert forall|k: Seq<char>| #[trigger] after.contains_key(k) implies {
        &&& after[k].task_key == k
        &&& FIRST_DAY <= after[k].first_seen <= LAST_DAY
        &&& FIRST_DAY <= after[k].last_seen <= LAST_DAY
        &&& after[k].total_days >= 1
    } by {
        if k != key {
            assert(records.contains_key(k));
        }
    }
    if totals_current(records) {
        assert forall|k: Seq<char>| #[trigger] after.contains_key(k) implies after[k].total_days
            == business_days(after[k].first_seen, after[k].last_seen) by {
            if k != key {
                assert(records.contains_key(k));
            }
        }
    }
}

/// Observing a key twice on the same day leaves everything as the first
/// observation left it, the day count included.
pub proof fn lemma_observe_idempotent(records: Records, key: Seq<char>, date: int)
    ensures
        observed(observed(records, key, date), key, date) == observed(records, key, date),
        observed_days(observed(records, key, date), key, date) == observed_days(
            records,
            key,
            date,
        ),
{
    let once = observed(records, key, date);
    assert(once.contains_key(key));
    if !records.contains_key(key) {
        lemma_same_day(date);
    }
    assert(observed(once, key, date) =~= once);
}

/// Observing a key on a later day never returns a lower day count than
/// observing it on the earlier day did.
pub proof fn lemma_observe_monotonic(records: Records, key: Seq<char>, earlier: int, later: int)
    requires
        earlier < later,
    ensures
        observed_days(records, key, earlier) <= observed_days(
            observed(records, key, earlier),
            key,
            later,
        ),
{
    let once = observed(records, key, earlier);
    assert(once.contains_key(key));
    let first = once[key].first_seen;
    lemma_business_days_monotonic(first, earlier, later);
    if !records.contains_key(key) {
        lemma_same_day(earlier);
    }
}

/// After a sweep no stale record is left, and every other record is there
/// as it was.
pub proof fn lemma_sweep_retention(records: Records, reference: int, retention: int)
    ensures
        forall|key: Seq<char>| #[trigger]
            swept(records, reference, retention).contains_key(key) ==> !is_stale(
                swept(records, reference, retention)[key].last_seen,
                reference,
                retention,
            ),
        forall|key: Seq<char>|
            records.contains_key(key) && !is_stale(records[key].last_seen, reference, retention)
                ==> #[trigger] swept(records, reference, retention).contains_key(key) && swept(
                records,
                reference,
                retention,
            )[key] == records[key],
        forall|key: Seq<char>| #[trigger]
            swept(records, reference, retention).contains_key(key) ==> records.contains_key(key),
        valid_records(records) ==> valid_records(swept(records, reference, retention)),
{
}

/// A second sweep on the same day removes nothing more.
pub proof fn lemma_sweep_idempotent(records: Records, reference: int, retention: int)
    ensures
        swept(swept(records, reference, retention), reference, retention) == swept(
            records,
            reference,
            retention,
        ),
{
    assert(swept(swept(records, reference, retention), reference, retention) =~= swept(
        records,
        reference,
        retention,
    ));
}

/// The positions, among the first `count` of `rows`, of the rows that a
/// sweep leaves, in their order.
pub open spec fn fresh_positions(
    rows: Seq<TaigaTaskRecord>,
    count: int,
    reference: int,
    retention: int,
) -> Seq<int>
    decreases count,
{
    if count <= 0 {
        Seq::empty()
    } else {
        let before = fresh_positions(rows, count - 1, reference, retention);
        if is_stale(rows[count - 1]@.last_seen, reference, retention) {
            before
        } else {
            before.push(count - 1)
        }
    }
}

/// The table `rows` holds one row per key, and `model` maps every key to
/// its row.
pub open spec fn table_wf(rows: Seq<TaigaTaskRecord>, model: Records) -> bool {
    &&& forall|i: int|
        0 <= i < rows.len() ==> (#[trigger] rows[i]).wf() && model.contains_key(rows[i].task_key@)
            && model[rows[i].task_key@] == rows[i]@
    &&& forall|key: Seq<char>| #[trigger]
        model.contains_key(key) ==> exists|i: int|
            0 <= i < rows.len() && (#[trigger] rows[i]).task_key@ == key
    &&& forall|i: int, j: int|
        0 <= i < j < rows.len() ==> (#[trigger] rows[i]).task_key@ != (#[trigger] rows[j]).task_key@
}

proof fn lemma_fresh_positions(
    rows: Seq<TaigaTaskRecord>,
    count: int,
    reference: int,
    retention: int,
)
    requires
        0 <= count <= rows.len(),
    ensures
        forall|j: int|
            0 <= j < fresh_positions(rows, count, reference, retention).len() ==> {
                let k = #[trigger] fresh_positions(rows, count, reference, retention)[j];
                0 <= k < count && !is_stale(rows[k]@.last_seen, reference, retention)
            },
        forall|a: int, b: int|
            0 <= a < b < fresh_positions(rows, count, reference, retention).len()
                ==> #[trigger] fresh_positions(rows, count, reference, retention)[a]
                < #[trigger] fresh_positions(rows, count, reference, retention)[b],
        forall|k: int|
            0 <= k < count && !is_stale((#[trigger] rows[k])@.last_seen, reference, retention)
                ==> exists|j: int|
                0 <= j < fresh_positions(rows, count, reference, retention).len()
                    && #[trigger] fresh_positions(rows, count, reference, retention)[j] == k,
    decreases count,
{
    if count > 0 {
        lemma_fresh_positions(rows, count - 1, reference, retention);
        let before = fresh_positions(rows, count - 1, reference, retention);
        let now = fresh_positions(rows, count, reference, retention);
        assert forall|k: int|
            0 <= k < count && !is_stale(
                (#[trigger] rows[k])@.last_seen,
                reference,
                retention,
            ) implies exists|j: int| 0 <= j < now.len() && #[trigger] now[j] == k by {
            if k < count - 1 {
                let j = choose|j: int| 0 <= j < before.len() && #[trigger] before[j] == k;
                assert(now[j] == k);
            } else {
                assert(now[now.len() - 1] == k);
            }
        }
    }
}

/// The rows that a sweep leaves form the table of the swept records.
proof fn lemma_sweep_table(
    rows: Seq<TaigaTaskRecord>,
    model: Records,
    kept: Seq<TaigaTaskRecord>,
    reference: int,
    retention: int,
)
    requires
        table_wf(rows, model),
        kept.len() == fresh_positions(rows, rows.len() as int, reference, retention).len(),
        forall|j: int|
            0 <= j < kept.len() ==> (#[trigger] kept[j]).wf() && kept[j]@ == rows[fresh_positions(
                rows,
                rows.len() as int,
                reference,
                retention,
            )[j]]@,
    ensures
        table_wf(kept, swept(model, reference, retention)),
{
    let positions = fresh_positions(rows, rows.len() as int, reference, retention);
    let after = swept(model, reference, retention);
    lemma_fresh_positions(rows, rows.len() as int, reference, retention);
    assert forall|j: int| 0 <= j < kept.len() implies (#[trigger] kept[j]).wf()
        && after.contains_key(kept[j].task_key@) && after[kept[j].task_key@] == kept[j]@ by {
        let k = positions[j];
        assert(rows[k].wf());
    }
    assert forall|key: Seq<char>| #[trigger] after.contains_key(key) implies exists|j: int|
        0 <= j < kept.len() && (#[trigger] kept[j]).task_key@ == key by {
        let k = choose|k: int| 0 <= k < rows.len() && (#[trigger] rows[k]).task_key@ == key;
        assert(model[key] == rows[k]@);
        let j = choose|j: int| 0 <= j < positions.len() && #[trigger] positions[j] == k;
        assert(kept[j].task_key@ == key);
    }
    assert forall|a: int, b: int| 0 <= a < b < kept.len() implies (#[trigger] kept[a]).task_key@
        != (#[trigger] kept[b]).task_key@ by {
        assert(positions[a] < positions[b]);
        assert(rows[positions[a]].task_key@ != rows[positions[b]].task_key@);
    }
}

/// A row for a key that has none extends the table.
proof fn lemma_table_push(rows: Seq<TaigaTaskRecord>, model: Records, row: TaigaTaskRecord)
    requires
        table_wf(rows, model),
        row.wf(),
        !model.contains_key(row.task_key@),
    ensures
        table_wf(rows.push(row), model.insert(row.task_key@, row@)),
{
    let rows2 = rows.push(row);
    let model2 = model.insert(row.task_key@, row@);
    assert forall|i: int| 0 <= i < rows2.len() implies (#[trigger] rows2[i]).wf()
        && model2.contains_key(rows2[i].task_key@) && model2[rows2[i].task_key@] == rows2[i]@ by {
        if i < rows.len() {
            assert(rows2[i] == rows[i]);
        }
    }
    assert forall|key: Seq<char>| #[trigger] model2.contains_key(key) implies exists|i: int|
        0 <= i < rows2.len() && (#[trigger] rows2[i]).task_key@ == key by {
        if key == row.task_key@ {
            assert(rows2[rows.len() as int].task_key@ == key);
        } else {
            let i = choose|i: int| 0 <= i < rows.len() && (#[trigger] rows[i]).task_key@ == key;
            assert(rows2[i].task_key@ == key);
        }
    }
    assert forall|i: int, j: int| 0 <= i < j < rows2.len() implies (#[trigger] rows2[i]).task_key@
        != (#[trigger] rows2[j]).task_key@ by {
        assert(rows2[i] == rows[i]);
        if j < rows.len() {
            assert(rows2[j] == rows[j]);
        }
    }
}

/// A new row for the key of row `at` replaces that row in the table.
proof fn lemma_table_update(
    rows: Seq<TaigaTaskRecord>,
    model: Records,
    at: int,
    row: TaigaTaskRecord,
)
    requires
        table_wf(rows, model),
        0 <= at < rows.len(),
        row.wf(),
        row.task_key@ == rows[at].task_key@,
    ensures
        table_wf(rows.update(at, row), model.insert(row.task_key@, row@)),
{
    let rows2 = rows.update(at, row);
    let model2 = model.insert(row.task_key@, row@);
    assert forall|i: int| 0 <= i < rows2.len() implies (#[trigger] rows2[i]).wf()
        && model2.contains_key(rows2[i].task_key@) && model2[rows2[i].task_key@] == rows2[i]@ by {
        if i != at {
            assert(rows2[i] == rows[i]);
            if i < at {
                assert(rows[i].task_key@ != rows[at].task_key@);
            } else {
                assert(rows[at].task_key@ != rows[i].task_key@);
            }
        }
    }
    assert forall|key: Seq<char>| #[trigger] model2.contains_key(key) implies exists|i: int|
        0 <= i < rows2.len() && (#[trigger] rows2[i]).task_key@ == key by {
        if key == row.task_key@ {
            assert(rows2[at].task_key@ == key);
        } else {
            let i = choose|i: int| 0 <= i < rows.len() && (#[trigger] rows[i]).task_key@ == key;
            assert(rows2[i].task_key@ == key);
        }
    }
    assert forall|i: int, j: int| 0 <= i < j < rows2.len() implies (#[trigger] rows2[i]).task_key@
        != (#[trigger] rows2[j]).task_key@ by {
        assert(rows2[i].task_key@ == rows[i].task_key@);
        assert(rows2[j].task_key@ == rows[j].task_key@);
    }
}

/// The keys of `list` are the marked keys, and none of them has a record.
pub open spec fn marks_wf(list: Seq<String>, marked: Set<Seq<char>>, model: Records) -> bool {
    &&& forall|i: int| 0 <= i < list.len() ==> marked.contains((#[trigger] list[i])@)
    &&& forall|key: Seq<char>| #[trigger]
        marked.contains(key) ==> !model.contains_key(key) && exists|i: int|
            0 <= i < list.len() && (#[trigger] list[i])@ == key
}

/// Marks stay in order under a change of the records that gives no marked
/// key a record.
proof fn lemma_marks_keep(
    list: Seq<String>,
    marked: Set<Seq<char>>,
    model: Records,
    changed: Records,
)
    requires
        marks_wf(list, marked, model),
        forall|key: Seq<char>| #[trigger] changed.contains_key(key) ==> !marked.contains(key),
    ensures
        marks_wf(list, marked, changed),
{
    assert forall|key: Seq<char>| #[trigger] marked.contains(key) implies !changed.contains_key(
        key,
    ) && exists|i: int| 0 <= i < list.len() && (#[trigger] list[i])@ == key by {
        let i = choose|i: int| 0 <= i < list.len() && (#[trigger] list[i])@ == key;
        assert(list[i]@ == key);
    }
}

/// One more mark, for a key without a record, keeps the marks in order.
proof fn lemma_marks_push(list: Seq<String>, marked: Set<Seq<char>>, model: Records, key: String)
    requires
        marks_wf(list, marked, model),
        !model.contains_key(key@),
    ensures
        marks_wf(list.push(key), marked.insert(key@), model),
{
    let list2 = list.push(key);
    let marked2 = marked.insert(key@);
    assert forall|i: int| 0 <= i < list2.len() implies marked2.contains((#[trigger] list2[i])@) by {
        if i < list.len() {
            assert(list2[i] == list[i]);
        }
    }
    assert forall|k: Seq<char>| #[trigger] marked2.contains(k) implies !model.contains_key(k)
        && exists|i: int| 0 <= i < list2.len() && (#[trigger] list2[i])@ == k by {
        if k == key@ {
            assert(list2[list.len() as int]@ == k);
        } else {
            let i = choose|i: int| 0 <= i < list.len() && (#[trigger] list[i])@ == k;
            assert(list2[i]@ == k);
        }
    }
}

/// A table holds valid records.
proof fn lemma_table_valid(rows: Seq<TaigaTaskRecord>, model: Records)
    requires
        table_wf(rows, model),
    ensures
        valid_records(model),
{
    assert forall|key: Seq<char>| #[trigger] model.contains_key(key) implies {
        &&& model[key].task_key == key
        &&& FIRST_DAY <= model[key].first_seen <= LAST_DAY
        &&& FIRST_DAY <= model[key].last_seen <= LAST_DAY
        &&& model[key].total_days >= 1
    } by {
        let i = choose|i: int| 0 <= i < rows.len() && (#[trigger] rows[i]).task_key@ == key;
        assert(rows[i].wf());
    }
}

/// The task-duration store.
pub struct DatabaseClient {
    records: Vec<TaigaTaskRecord>,
    unreadable: Vec<String>,
    available: bool,
    model: Ghost<Records>,
    marked: Ghost<Set<Seq<char>>>,
}

impl View for DatabaseClient {
    type V = DatabaseView;

    closed spec fn view(&self) -> DatabaseView {
        DatabaseView {
            available: self.available,
            records: self.model@,
            unreadable: self.marked@,
        }
    }
}

impl DatabaseClient {
    /// The rows of the table, in the order in which they were added.
    pub closed spec fn rows(&self) -> Seq<TaigaTaskRecord> {
        self.records@
    }

    /// The keys that are marked unreadable, in the order in which they
    /// were marked.
    pub closed spec fn unreadable_rows(&self) -> Seq<String> {
        self.unreadable@
    }

    /// The table holds one row per key, the rows are the records, and the
    /// keys that are marked unreadable are those of the list and have no
    /// record.
    pub closed spec fn wf(&self) -> bool {
        &&& table_wf(self.records@, self.model@)
        &&& marks_wf(self.unreadable@, self.marked@, self.model@)
    }

    /// A well-formed store holds valid records, one per row, and no key is
    /// both on record and unreadable.
    pub proof fn lemma_wf(&self)
        requires
            self.wf(),
        ensures
            valid_records(self@.records),
            table_wf(self.rows(), self@.records),
            forall|key: Seq<char>| #[trigger]
                self@.unreadable.contains(key) ==> !self@.records.contains_key(key),
            forall|i: int|
                0 <= i < self.unreadable_rows().len() ==> self@.unreadable.contains(
                    (#[trigger] self.unreadable_rows()[i])@,
                ),
    {
        lemma_table_valid(self.records@, self.model@);
    }

    /// An empty store that is ready for use.
    pub fn new() -> (store: DatabaseClient)
        ensures
            store.wf(),
            store@ == (DatabaseView {
                available: true,
                records: Map::<Seq<char>, TaskRecordView>::empty(),
                unreadable: Set::<Seq<char>>::empty(),
            }),
            store.rows().len() == 0,
    {
        DatabaseClient {
            records: Vec::new(),
            unreadable: Vec::new(),
            available: true,
            model: Ghost(Map::empty()),
            marked: Ghost(Set::empty()),
        }
    }

    /// The handle that stands for a store that could not be reached.
    pub fn unavailable() -> (store: DatabaseClient)
        ensures
            store.wf(),
            store@ == (DatabaseView {
                available: false,
                records: Map::<Seq<char>, TaskRecordView>::empty(),
                unreadable: Set::<Seq<char>>::empty(),
            }),
            store.rows().len() == 0,
    {
        DatabaseClient {
            records: Vec::new(),
            unreadable: Vec::new(),
            available: false,
            model: Ghost(Map::empty()),
            marked: Ghost(Set::empty()),
        }
    }

    /// Whether the store can be used.
    pub fn is_available(&self) -> (b: bool)
        ensures
            b == self@.available,
    {
        self.available
    }

    /// The rows of the table, for whoever writes them to disk.
    pub fn records(&self) -> (rows: &Vec<TaigaTaskRecord>)
        ensures
            rows@ == self.rows(),
    {
        &self.records
    }

    /// The keys whose rows on disk must be left as they are.
    pub fn unreadable_keys(&self) -> (keys: &Vec<String>)
        ensures
            keys@ == self.unreadable_rows(),
    {
        &self.unreadable
    }

    /// The row that holds `key`, if there is one.
    fn position_of(&self, key: &str) -> (found: Option<usize>)
        requires
            self.wf(),
        ensures
            match found {
                Some(i) => i < self.rows().len() && self.rows()[i as int].task_key@ == key@
                    && self.rows()[i as int].wf() && self@.records.contains_key(key@)
                    && self@.records[key@] == self.rows()[i as int]@,
                None => !self@.records.contains_key(key@),
            },
    {
        let mut i: usize = 0;
        while i < self.records.len()
            invariant
                self.wf(),
                i <= self.records@.len(),
                forall|k: int| 0 <= k < i ==> (#[trigger] self.records@[k]).task_key@ != key@,
            decreases self.records.len() - i,
        {
            if same_text(self.records[i].task_key.as_str(), key) {
                assert(self.records@[i as int].wf());
                return Some(i);
            }
            i += 1;
        }
        None
    }

    /// Whether `key` is marked unreadable.
    fn is_marked(&self, key: &str) -> (b: bool)
        requires
            self.wf(),
        ensures
            b == self@.unreadable.contains(key@),
    {
        let mut i: usize = 0;
        while i < self.unreadable.len()
            invariant
                self.wf(),
                i <= self.unreadable@.len(),
                forall|k: int| 0 <= k < i ==> (#[trigger] self.unreadable@[k])@ != key@,
            decreases self.unreadable.len() - i,
        {
            if same_text(self.unreadable[i].as_str(), key) {
                return true;
            }
            i += 1;
        }
        false
    }

    /// Adds the row `record` for a key that has none.
    fn push_row(&mut self, record: TaigaTaskRecord)
        requires
            old(self).wf(),
            record.wf(),
            !old(self)@.records.contains_key(record.task_key@),
            !old(self)@.unreadable.contains(record.task_key@),
        ensures
            final(self).wf(),
            final(self)@ == (DatabaseView {
                records: old(self)@.records.insert(record.task_key@, record@),
                ..old(self)@
            }),
    {
        proof {
            lemma_table_push(self.records@, self.model@, record);
            lemma_marks_keep(
                self.unreadable@,
                self.marked@,
                self.model@,
                self.model@.insert(record.task_key@, record@),
            );
        }
        self.model = Ghost(self.model@.insert(record.task_key@, record@));
        self.records.push(record);
    }

    /// Puts `record` in the place of row `at`, which holds the same key.
    fn replace_row(&mut self, at: usize, record: TaigaTaskRecord)
        requires
            old(self).wf(),
            at < old(self).rows().len(),
            record.wf(),
            record.task_key@ == old(self).rows()[at as int].task_key@,
        ensures
            final(self).wf(),
            final(self)@ == (DatabaseView {
                records: old(self)@.records.insert(record.task_key@, record@),
                ..old(self)@
            }),
    {
        proof {
            lemma_table_update(self.records@, self.model@, at as int, record);
            assert(self.records@[at as int].wf());
            assert(self.model@.contains_key(record.task_key@));
            lemma_marks_keep(
                self.unreadable@,
                self.marked@,
                self.model@,
                self.model@.insert(record.task_key@, record@),
            );
        }
        self.model = Ghost(self.model@.insert(record.task_key@, record@));
        self.records.set(at, record);
    }

    /// Marks `key`, which has no record, as unreadable.
    fn mark(&mut self, key: &str)
        requires
            old(self).wf(),
            !old(self)@.records.contains_key(key@),
        ensures
            final(self).wf(),
            final(self)@ == (DatabaseView {
                unreadable: old(self)@.unreadable.insert(key@),
                ..old(self)@
            }),
    {
        let owned = key.to_owned();
        proof {
            lemma_marks_push(self.unreadable@, self.marked@, self.model@, owned);
        }
        self.marked = Ghost(self.marked@.insert(key@));
        self.unreadable.push(owned);
    }

    /// Puts a row back into the table, with dates that have been read. The
    /// day count is computed from the two dates. Returns `false`, and
    /// changes nothing, where the key already has a row or a mark, or the
    /// store is unavailable.
    pub fn restore_record(
        &mut self,
        task_key: &str,
        first_seen_date: CalendarDate,
        last_seen_date: CalendarDate,
    ) -> (added: bool)
        requires
            old(self).wf(),
            first_seen_date.valid(),
            last_seen_date.valid(),
        ensures
            final(self).wf(),
            added == (old(self)@.available && !old(self)@.records.contains_key(task_key@)
                && !old(self)@.unreadable.contains(task_key@)),
            added ==> final(self)@ == (DatabaseView {
                records: old(self)@.records.insert(
                    task_key@,
                    TaskRecordView {
                        task_key: task_key@,
                        first_seen: first_seen_date@,
                        last_seen: last_seen_date@,
                        total_days: business_days(first_seen_date@, last_seen_date@),
                    },
                ),
                ..old(self)@
            }),
            !added ==> final(self)@ == old(self)@,
    {
        if !self.available || self.is_marked(task_key) {
            return false;
        }
        match self.position_of(task_key) {
            Some(_) => false,
            None => {
                let record = TaigaTaskRecord {
                    task_key: task_key.to_owned(),
                    first_seen_date,
                    last_seen_date,
                    total_days: business_days_between(first_seen_date, last_seen_date),
                };
                self.push_row(record);
                true
            },
        }
    }

    /// Puts a row back into the table as it stands on disk, with its dates
    /// as text.
    ///
    /// Where both dates can be read the row becomes a record, and the
    /// answer is `Ok(true)`. Where one of them cannot, the key is marked
    /// unreadable and the answer is `InvalidDate`. Where the key already
    /// has a row or a mark, or the store is unavailable, nothing changes
    /// and the answer is `Ok(false)`.
    pub fn restore_row(
        &mut self,
        task_key: &str,
        first_seen_date: &str,
        last_seen_date: &str,
    ) -> (added: Result<bool, StandupError>)
        requires
            old(self).wf(),
        ensures
            final(self).wf(),
            ({
                let free = old(self)@.available && !old(self)@.records.contains_key(task_key@)
                    && !old(self)@.unreadable.contains(task_key@);
                let first = parsed_day_number(first_seen_date@, date_format());
                let last = parsed_day_number(last_seen_date@, date_format());
                let readable = first is Some && FIRST_DAY <= first->0 <= LAST_DAY && last is Some
                    && FIRST_DAY <= last->0 <= LAST_DAY;
                if !free {
                    added == Ok::<bool, StandupError>(false) && final(self)@ == old(self)@
                } else if readable {
                    added == Ok::<bool, StandupError>(true) && final(self)@ == (DatabaseView {
                        records: old(self)@.records.insert(
                            task_key@,
                            TaskRecordView {
                                task_key: task_key@,
                                first_seen: first->0,
                                last_seen: last->0,
                                total_days: business_days(first->0, last->0),
                            },
                        ),
                        ..old(self)@
                    })
                } else {
                    added == Err::<bool, StandupError>(StandupError::InvalidDate) && final(self)@
                        == (DatabaseView {
                        unreadable: old(self)@.unreadable.insert(task_key@),
                        ..old(self)@
                    })
                }
            }),
    {
        if !self.available || self.is_marked(task_key) {
            return Ok(false);
        }
        if self.position_of(task_key).is_some() {
            return Ok(false);
        }
        let first = CalendarDate::parse(first_seen_date);
        let last = CalendarDate::parse(last_seen_date);
        match (first, last) {
            (Ok(first), Ok(last)) => {
                let added = self.restore_record(task_key, first, last);
                Ok(added)
            },
            _ => {
                self.mark(task_key);
                Err(StandupError::InvalidDate)
            },
        }
    }

    /// Records that the task `task_key` was seen on the day `today`, and
    /// returns the business days that it has been open.
    ///
    /// A key that is new gets a record that starts today, with a count of
    /// 1. A key with a record keeps its first day, gets `today` as its last
    /// day, and the count is made anew from the two. A `today` before the
    /// first day gives 1. A key whose row holds a date that cannot be read
    /// is answered with `InvalidDate`, and an unavailable store with
    /// `StoreUnavailable`; neither changes anything.
    pub fn record_taiga_task(&mut self, task_key: &str, today: CalendarDate) -> (days: Result<
        i32,
        StandupError,
    >)
        requires
            old(self).wf(),
            today.valid(),
        ensures
            final(self).wf(),
            final(self)@ == after_observation(old(self)@, task_key@, today@),
            match days {
                Ok(n) => n >= 1 && observation(old(self)@, task_key@, today@) == Ok::<
                    int,
                    StandupError,
                >(n as int),
                Err(e) => observation(old(self)@, task_key@, today@) == Err::<int, StandupError>(e),
            },
    {
        if !self.available {
            return Err(StandupError::StoreUnavailable);
        }
        if self.is_marked(task_key) {
            return Err(StandupError::InvalidDate);
        }
        proof {
            self.lemma_wf();
            lemma_observed_valid(self@.records, task_key@, today@);
        }
        match self.position_of(task_key) {
            Some(i) => {
                let first = self.records[i].first_seen_date;
                let total = business_days_between(first, today);
                let record = TaigaTaskRecord {
                    task_key: self.records[i].task_key.clone(),
                    first_seen_date: first,
                    last_seen_date: today,
                    total_days: total,
                };
                self.replace_row(i, record);
                Ok(total)
            },
            None => {
                let record = TaigaTaskRecord {
                    task_key: task_key.to_owned(),
                    first_seen_date: today,
                    last_seen_date: today,
                    total_days: 1,
                };
                self.push_row(record);
                Ok(1)
            },
        }
    }

    /// The record of `task_key`.
    ///
    /// `NotFound` means that the key has no record, which is no failure:
    /// the task is on day one.
    pub fn get_task_record(&self, task_key: &str) -> (found: Result<TaigaTaskRecord, StandupError>)
        requires
            self.wf(),
        ensures
            match found {
                Ok(record) => lookup(self@, task_key@) == Ok::<TaskRecordView, StandupError>(
                    record@,
                ) && record.wf(),
                Err(e) => lookup(self@, task_key@) == Err::<TaskRecordView, StandupError>(e),
            },
    {
        if !self.available {
            return Err(StandupError::StoreUnavailable);
        }
        if self.is_marked(task_key) {
            return Err(StandupError::InvalidDate);
        }
        match self.position_of(task_key) {
            Some(i) => Ok(self.records[i].duplicate()),
            None => Err(StandupError::NotFound),
        }
    }

    /// The business days on record for `task_key`; 1 where the key has no
    /// record. Fails only where the store is unavailable or the key's row
    /// cannot be read.
    pub fn get_task_days(&self, task_key: &str) -> (days: Result<i32, StandupError>)
        requires
            self.wf(),
        ensures
            match days {
                Ok(n) => n >= 1 && n == duration_of(self@.records, task_key@) && (lookup(
                    self@,
                    task_key@,
                ) is Ok || lookup(self@, task_key@) == Err::<TaskRecordView, StandupError>(
                    StandupError::NotFound,
                )),
                Err(e) => e != StandupError::NotFound && lookup(self@, task_key@) == Err::<
                    TaskRecordView,
                    StandupError,
                >(e),
            },
    {
        match self.get_task_record(task_key) {
            Ok(record) => Ok(record.total_days),
            Err(StandupError::NotFound) => Ok(1),
            Err(e) => Err(e),
        }
    }

    /// The business days between two dates written as `YYYY-MM-DD`.
    ///
    /// Fails with `InvalidDate` exactly where one of the two texts is not a
    /// date in range.
    pub fn calculate_work_days(start_date: &str, end_date: &str) -> (days: Result<
        i32,
        StandupError,
    >)
        ensures
            days is Ok <==> ({
                &&& parsed_day_number(start_date@, date_format()) matches Some(first)
                &&& FIRST_DAY <= first <= LAST_DAY
                &&& parsed_day_number(end_date@, date_format()) matches Some(last)
                &&& FIRST_DAY <= last <= LAST_DAY
            }),
            days matches Ok(n) ==> n >= 1 && n == business_days(
                parsed_day_number(start_date@, date_format())->0,
                parsed_day_number(end_date@, date_format())->0,
            ),
            days matches Err(e) ==> e == StandupError::InvalidDate,
    {
        let start = match CalendarDate::parse(start_date) {
            Ok(date) => date,
            Err(e) => {
                return Err(e);
            },
        };
        let end = match CalendarDate::parse(end_date) {
            Ok(date) => date,
            Err(e) => {
                return Err(e);
            },
        };
        Ok(business_days_between(start, end))
    }

    /// Reads the task key `<slug>#<digits>` off a tracker link.
    pub fn extract_task_key_from_url(url: &str) -> (key: Option<String>)
        ensures
            match key {
                Some(k) => task_key_from_url(url@) == Some(k@),
                None => task_key_from_url(url@) is None,
            },
    {
        extract_task_key_from_url(url)
    }

    /// Records one observation for every URL that names a task key, in the
    /// order given, and returns each key with its day count. A URL that
    /// names no key is passed over. Where an observation fails, the day
    /// count of its key is 1.
    pub fn process_taiga_urls(&mut self, urls: Vec<&str>, today: CalendarDate) -> (results: Vec<
        (String, i32),
    >)
        requires
            old(self).wf(),
            today.valid(),
        ensures
            final(self).wf(),
            final(self)@ == processed_store(
                old(self)@,
                Seq::new(urls@.len(), |k: int| urls@[k]@),
                urls@.len() as int,
                today@,
            ),
            results@.len() == processed_results(
                old(self)@,
                Seq::new(urls@.len(), |k: int| urls@[k]@),
                urls@.len() as int,
                today@,
            ).len(),
            forall|j: int|
                0 <= j < results@.len() ==> (#[trigger] results@[j]).0@ == processed_results(
                    old(self)@,
                    Seq::new(urls@.len(), |k: int| urls@[k]@),
                    urls@.len() as int,
                    today@,
                )[j].0 && results@[j].1 == processed_results(
                    old(self)@,
                    Seq::new(urls@.len(), |k: int| urls@[k]@),
                    urls@.len() as int,
                    today@,
                )[j].1,
    {
        let ghost texts = Seq::new(urls@.len(), |k: int| urls@[k]@);
        let ghost start = self@;
        let mut results: Vec<(String, i32)> = Vec::new();
        let mut i: usize = 0;
        while i < urls.len()
            invariant
                self.wf(),
                today.valid(),
                texts == Seq::new(urls@.len(), |k: int| urls@[k]@),
                i <= urls@.len(),
                self@ == processed_store(start, texts, i as int, today@),
                results@.len() == processed_results(start, texts, i as int, today@).len(),
                forall|j: int|
                    0 <= j < results@.len() ==> (#[trigger] results@[j]).0@ == processed_results(
                        start,
                        texts,
                        i as int,
                        today@,
                    )[j].0 && results@[j].1 == processed_results(
                        start,
                        texts,
                        i as int,
                        today@,
                    )[j].1,
            decreases urls.len() - i,
        {
            assert(texts[i as int] == urls@[i as int]@);
            match extract_task_key_from_url(urls[i]) {
                Some(key) => {
                    let days = match self.record_taiga_task(key.as_str(), today) {
                        Ok(days) => days,
                        Err(_) => 1,
                    };
                    results.push((key, days));
                },
                None => {},
            }
            i += 1;
        }
        results
    }

    /// Removes every record that was last seen more than `retention_days`
    /// days before `reference_date`, and no other. Keys that are marked
    /// unreadable stay marked.
    pub fn sweep_stale(&mut self, reference_date: CalendarDate, retention_days: u32) -> (done:
        Result<(), StandupError>)
        requires
            old(self).wf(),
            reference_date.valid(),
        ensures
            final(self).wf(),
            done is Ok <==> old(self)@.available,
            done matches Err(e) ==> e == StandupError::StoreUnavailable && final(self)@ == old(
                self,
            )@,
            done is Ok ==> final(self)@ == (DatabaseView {
                records: swept(old(self)@.records, reference_date@, retention_days as int),
                ..old(self)@
            }),
    {
        if !self.available {
            return Err(StandupError::StoreUnavailable);
        }
        let cutoff: i64 = reference_date.day_number() as i64 - retention_days as i64;
        let mut kept: Vec<TaigaTaskRecord> = Vec::new();
        let mut i: usize = 0;
        while i < self.records.len()
            invariant
                self.wf(),
                cutoff == reference_date@ - retention_days,
                i <= self.records@.len(),
                kept@.len() == fresh_positions(
                    self.records@,
                    i as int,
                    reference_date@,
                    retention_days as int,
                ).len(),
                forall|j: int|
                    #![trigger kept@[j]]
                    0 <= j < kept@.len() ==> kept@[j].wf() && kept@[j]@
                        == self.records@[fresh_positions(
                        self.records@,
                        i as int,
                        reference_date@,
                        retention_days as int,
                    )[j]]@,
            decreases self.records.len() - i,
        {
            assert(self.records@[i as int].wf());
            if self.records[i].last_seen_date.day_number() as i64 >= cutoff {
                kept.push(self.records[i].duplicate());
            }
            i += 1;
        }
        proof {
            lemma_sweep_table(
                self.records@,
                self.model@,
                kept@,
                reference_date@,
                retention_days as int,
            );
            lemma_marks_keep(
                self.unreadable@,
                self.marked@,
                self.model@,
                swept(self.model@, reference_date@, retention_days as int),
            );
        }
        self.model = Ghost(swept(self.model@, reference_date@, retention_days as int));
        self.records = kept;
        Ok(())
    }

    /// Removes the records of tasks that have not been seen for more than
    /// thirty days before `today`.
    pub fn cleanup_old_tasks(&mut self, today: CalendarDate) -> (done: Result<(), StandupError>)
        requires
            old(self).wf(),
            today.valid(),
        ensures
            final(self).wf(),
            done is Ok <==> old(self)@.available,
            done matches Err(e) ==> e == StandupError::StoreUnavailable && final(self)@ == old(
                self,
            )@,
            done is Ok ==> final(self)@ == (DatabaseView {
                records: swept(old(self)@.records, today@, RETENTION_DAYS as int),
                ..old(self)@
            }),
    {
        self.sweep_stale(today, RETENTION_DAYS)
    }
}

} // verus!
