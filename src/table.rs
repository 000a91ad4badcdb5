//! A model of the `AirlineSafetyDB` table as a load script leaves it, and the
//! laws that loads obey.

use vstd::prelude::*;
use crate::loader::{csv_records, load_script_of, step_of, ActionModel, RecordModel, FIELD_COUNT};

verus! {

/// The table: whether it exists, its rows as (key, fields) in insertion order,
/// and the key that the next insert receives.
pub struct TableModel {
    pub present: bool,
    pub rows: Seq<(int, Seq<Seq<char>>)>,
    pub next_id: int,
}

/// The table after one step that the database runs without error. Dropping the
/// table also forgets its key sequence, so a newly created table numbers its
/// rows from 1 again.
pub open spec fn apply_action(t: TableModel, a: ActionModel) -> TableModel {
    match a {
        ActionModel::DropTable => TableModel { present: false, rows: seq![], next_id: 1 },
        ActionModel::CreateTable => TableModel { present: true, rows: seq![], next_id: 1 },
        ActionModel::Insert(f) => TableModel {
            present: t.present,
            rows: t.rows.push((t.next_id, f)),
            next_id: t.next_id + 1,
        },
        ActionModel::SkipRow(_) => t,
    }
}

/// The table after a whole script, step by step in order.
pub open spec fn apply_script(t: TableModel, s: Seq<ActionModel>) -> TableModel
    decreases s.len(),
{
    if s.len() == 0 {
        t
    } else {
        apply_script(apply_action(t, s[0]), s.drop_first())
    }
}

/// How many steps of a script skip a record.
pub open spec fn count_skips(s: Seq<ActionModel>) -> nat
    decreases s.len(),
{
    if s.len() == 0 {
        0
    } else {
        (if s[0] is SkipRow { 1nat } else { 0nat }) + count_skips(s.drop_first())
    }
}

/// A record that the reader read, with exactly the table's eight fields.
pub open spec fn well_formed(r: RecordModel) -> bool {
    r is Ok && r->Ok_0.len() == FIELD_COUNT
}

/// The steps for a run of records.
pub open spec fn record_steps(records: Seq<RecordModel>) -> Seq<ActionModel> {
    records.map_values(|r: RecordModel| step_of(r))
}

proof fn lemma_record_steps_drop_first(records: Seq<RecordModel>)
    requires
        records.len() > 0,
    ensures
        record_steps(records)[0] == step_of(records[0]),
        record_steps(records).drop_first() == record_steps(records.drop_first()),
{
    assert(record_steps(records).drop_first() =~= record_steps(records.drop_first()));
}

/// Whatever the table was before, a load leaves what running its record steps
/// on a new, empty table leaves.
proof fn lemma_load_starts_fresh(prior: TableModel, records: Seq<RecordModel>)
    ensures
        apply_script(prior, load_script_of(records)) == apply_script(
            TableModel { present: true, rows: seq![], next_id: 1 },
            record_steps(records),
        ),
{
    let s = load_script_of(records);
    let s1 = s.drop_first();
    assert(s[0] == ActionModel::DropTable);
    assert(s1[0] == ActionModel::CreateTable);
    assert(s1.drop_first() =~= record_steps(records));
    let dropped = apply_action(prior, s[0]);
    assert(apply_script(prior, s) == apply_script(dropped, s1));
    assert(apply_script(dropped, s1) == apply_script(apply_action(dropped, s1[0]), s1.drop_first()));
}

/// The table-level steps of a load skip nothing.
proof fn lemma_load_skips(records: Seq<RecordModel>)
    ensures
        count_skips(load_script_of(records)) == count_skips(record_steps(records)),
{
    let s = load_script_of(records);
    let s1 = s.drop_first();
    assert(s1.drop_first() =~= record_steps(records));
    assert(count_skips(s) == count_skips(s1));
    assert(count_skips(s1) == count_skips(s1.drop_first()));
}

/// Well-formed records are inserted one after another, keys counting on from
/// the table's next key.
proof fn lemma_insert_all(t: TableModel, records: Seq<RecordModel>)
    requires
        forall|i: int| 0 <= i < records.len() ==> well_formed(#[trigger] records[i]),
    ensures
        apply_script(t, record_steps(records)) == (TableModel {
            present: t.present,
            rows: t.rows + Seq::new(records.len(), |i: int| (t.next_id + i, records[i]->Ok_0)),
            next_id: t.next_id + records.len(),
        }),
    decreases records.len(),
{
    let expect = TableModel {
        present: t.present,
        rows: t.rows + Seq::new(records.len(), |i: int| (t.next_id + i, records[i]->Ok_0)),
        next_id: t.next_id + records.len(),
    };
    if records.len() == 0 {
        assert(expect.rows =~= t.rows);
    } else {
        lemma_record_steps_drop_first(records);
        let f = records[0]->Ok_0;
        assert(well_formed(records[0]));
        assert(f.subrange(0, FIELD_COUNT as int) =~= f);
        let t1 = apply_action(t, step_of(records[0]));
        let rest = records.drop_first();
        assert forall|i: int| 0 <= i < rest.len() implies well_formed(#[trigger] rest[i]) by {
            assert(rest[i] == records[i + 1]);
        }
        lemma_insert_all(t1, rest);
        assert(t1.rows + Seq::new(rest.len(), |i: int| (t1.next_id + i, rest[i]->Ok_0))
            =~= expect.rows);
    }
}

/// Each step inserts one row or skips one record: the rows gained are the
/// records that were not skipped.
proof fn lemma_rows_gained(t: TableModel, records: Seq<RecordModel>)
    ensures
        apply_script(t, record_steps(records)).rows.len() + count_skips(record_steps(records))
            == t.rows.len() + records.len(),
    decreases records.len(),
{
    if records.len() > 0 {
        lemma_record_steps_drop_first(records);
        lemma_rows_gained(apply_action(t, step_of(records[0])), records.drop_first());
    }
}

/// Well-formed records are never skipped.
proof fn lemma_no_skips(records: Seq<RecordModel>)
    requires
        forall|i: int| 0 <= i < records.len() ==> well_formed(#[trigger] records[i]),
    ensures
        count_skips(record_steps(records)) == 0,
    decreases records.len(),
{
    if records.len() > 0 {
        lemma_record_steps_drop_first(records);
        let rest = records.drop_first();
        assert(well_formed(records[0]));
        assert forall|i: int| 0 <= i < rest.len() implies well_formed(#[trigger] rest[i]) by {
            assert(rest[i] == records[i + 1]);
        }
        lemma_no_skips(rest);
    }
}

/// One record that the reader rejects among well-formed ones is skipped once.
proof fn lemma_one_skip(records: Seq<RecordModel>, bad: int)
    requires
        0 <= bad < records.len(),
        records[bad] is Err,
        forall|i: int| 0 <= i < records.len() && i != bad ==> well_formed(#[trigger] records[i]),
    ensures
        count_skips(record_steps(records)) == 1,
    decreases records.len(),
{
    lemma_record_steps_drop_first(records);
    let rest = records.drop_first();
    if bad == 0 {
        assert forall|i: int| 0 <= i < rest.len() implies well_formed(#[trigger] rest[i]) by {
            assert(rest[i] == records[i + 1]);
        }
        lemma_no_skips(rest);
    } else {
        assert(well_formed(records[0]));
        assert(rest[bad - 1] == records[bad]);
        assert forall|i: int| 0 <= i < rest.len() && i != bad - 1 implies well_formed(
            #[trigger] rest[i],
        ) by {
            assert(rest[i] == records[i + 1]);
        }
        lemma_one_skip(rest, bad - 1);
    }
}

/// Loading a dataset whose N records are all well formed leaves exactly N rows,
/// keyed 1 to N in the order of the records, each holding its record's fields;
/// what the table held before does not matter.
pub proof fn lemma_load_well_formed(prior: TableModel, data: Seq<u8>)
    requires
        forall|i: int|
            0 <= i < csv_records(data).len() ==> well_formed(#[trigger] csv_records(data)[i]),
    ensures
        apply_script(prior, load_script_of(csv_records(data))).present,
        apply_script(prior, load_script_of(csv_records(data))).rows.len() == csv_records(
            data,
        ).len(),
        forall|i: int|
            0 <= i < csv_records(data).len() ==> #[trigger] apply_script(
                prior,
                load_script_of(csv_records(data)),
            ).rows[i] == (i + 1, csv_records(data)[i]->Ok_0),
        count_skips(load_script_of(csv_records(data))) == 0,
{
    let records = csv_records(data);
    let fresh = TableModel { present: true, rows: seq![], next_id: 1 };
    lemma_load_starts_fresh(prior, records);
    lemma_insert_all(fresh, records);
    lemma_no_skips(records);
    lemma_load_skips(records);
}

/// Loading a dataset of N records, of which the one at `bad` cannot be read and
/// the rest are well formed, leaves N - 1 rows and reports exactly one skipped
/// record.
pub proof fn lemma_load_one_malformed(prior: TableModel, data: Seq<u8>, bad: int)
    requires
        0 <= bad < csv_records(data).len(),
        csv_records(data)[bad] is Err,
        forall|i: int|
            0 <= i < csv_records(data).len() && i != bad ==> well_formed(
                #[trigger] csv_records(data)[i],
            ),
    ensures
        apply_script(prior, load_script_of(csv_records(data))).rows.len() == csv_records(
            data,
        ).len() - 1,
        count_skips(load_script_of(csv_records(data))) == 1,
{
    let records = csv_records(data);
    let fresh = TableModel { present: true, rows: seq![], next_id: 1 };
    lemma_load_starts_fresh(prior, records);
    lemma_rows_gained(fresh, records);
    lemma_one_skip(records, bad);
    lemma_load_skips(records);
}

/// Loading the same dataset twice in a row leaves the same table, and so the
/// same row count, as loading it once: a load replaces the table rather than
/// adding to it.
pub proof fn lemma_load_twice(prior: TableModel, data: Seq<u8>)
    ensures
        apply_script(
            apply_script(prior, load_script_of(csv_records(data))),
            load_script_of(csv_records(data)),
        ) == apply_script(prior, load_script_of(csv_records(data))),
{
    let records = csv_records(data);
    lemma_load_starts_fresh(prior, records);
    lemma_load_starts_fresh(apply_script(prior, load_script_of(records)), records);
}

} // verus!
