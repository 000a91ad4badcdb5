//! Loading a CSV dataset: the statements that rebuild the table from the
//! dataset's records, and a model of the table that running them leaves.

use vstd::prelude::*;

verus! {

/// Data columns in a record, in the table's column order after the key.
pub const FIELD_COUNT: usize = 8;

/// The database file that loads write and queries read.
pub const DATABASE_PATH: &'static str = "AirlineSafetyDB.db";

/// The audit log that every query appends to.
pub const QUERY_LOG_PATH: &'static str = "query_log.md";

/// Removes the table, if any, together with its key sequence.
pub const DROP_TABLE_SQL: &'static str = "DROP TABLE IF EXISTS AirlineSafetyDB";

/// Creates the empty table: a generated key and the eight data columns.
pub const CREATE_TABLE_SQL: &'static str = "CREATE TABLE AirlineSafetyDB (
    id INTEGER PRIMARY KEY AUTOINCREMENT,
    airline TEXT,
    avail_seat_km_per_week INTEGER,
    incidents_85_99 INTEGER,
    fatal_accidents_85_99 INTEGER,
    fatalities_85_99 INTEGER,
    incidents_00_14 INTEGER,
    fatal_accidents_00_14 INTEGER,
    fatalities_00_14 INTEGER
)";

/// Inserts one record; its eight fields are bound positionally as text.
pub const INSERT_ROW_SQL: &'static str = "INSERT INTO AirlineSafetyDB (
    airline,
    avail_seat_km_per_week,
    incidents_85_99,
    fatal_accidents_85_99,
    fatalities_85_99,
    incidents_00_14,
    fatal_accidents_00_14,
    fatalities_00_14
) VALUES (?, ?, ?, ?, ?, ?, ?, ?)";

/// Why a record of the dataset was left out of the table.
#[derive(Debug, PartialEq, Eq)]
pub enum RowFault {
    /// The CSV reader could not read the record; its error, as text.
    Malformed(String),
    /// The record has this many fields, fewer than the table needs.
    TooFewFields(usize),
}

/// One step of a load, run in order against the database.
#[derive(Debug, PartialEq, Eq)]
pub enum DbAction {
    /// Run `DROP_TABLE_SQL`.
    DropTable,
    /// Run `CREATE_TABLE_SQL`.
    CreateTable,
    /// Run `INSERT_ROW_SQL` with these eight fields.
    Insert(Vec<String>),
    /// Report a record that is skipped; the database is not touched.
    SkipRow(RowFault),
}

/// A `RowFault` over mathematical values.
pub enum FaultModel {
    Malformed(Seq<char>),
    TooFewFields(nat),
}

/// A `DbAction` over mathematical values.
pub enum ActionModel {
    DropTable,
    CreateTable,
    Insert(Seq<Seq<char>>),
    SkipRow(FaultModel),
}

/// A CSV record as the reader hands it over: its fields, or the error's text.
pub type RecordModel = Result<Seq<Seq<char>>, Seq<char>>;

pub open spec fn fields_view(v: Seq<String>) -> Seq<Seq<char>> {
    v.map_values(|s: String| s@)
}

pub open spec fn fault_view(f: RowFault) -> FaultModel {
    match f {
        RowFault::Malformed(m) => FaultModel::Malformed(m@),
        RowFault::TooFewFields(n) => FaultModel::TooFewFields(n as nat),
    }
}

pub open spec fn action_view(a: DbAction) -> ActionModel {
    match a {
        DbAction::DropTable => ActionModel::DropTable,
        DbAction::CreateTable => ActionModel::CreateTable,
        DbAction::Insert(v) => ActionModel::Insert(fields_view(v@)),
        DbAction::SkipRow(f) => ActionModel::SkipRow(fault_view(f)),
    }
}

pub open spec fn actions_view(v: Seq<DbAction>) -> Seq<ActionModel> {
    v.map_values(|a: DbAction| action_view(a))
}

pub open spec fn record_view(r: Result<Vec<String>, String>) -> RecordModel {
    match r {
        Ok(v) => Ok(fields_view(v@)),
        Err(e) => Err(e@),
    }
}

pub open spec fn records_view(v: Seq<Result<Vec<String>, String>>) -> Seq<RecordModel> {
    v.map_values(|r: Result<Vec<String>, String>| record_view(r))
}

/// The records that the CSV reader yields for a dataset, in file order, with
/// the first row taken as the header and left out.
pub uninterp spec fn csv_records(data: Seq<u8>) -> Seq<RecordModel>;

/// The step for one record: insert its first eight fields, or skip it.
pub open spec fn step_of(r: RecordModel) -> ActionModel {
    match r {
        Ok(f) => if f.len() >= FIELD_COUNT {
            ActionModel::Insert(f.subrange(0, FIELD_COUNT as int))
        } else {
            ActionModel::SkipRow(FaultModel::TooFewFields(f.len()))
        },
        Err(m) => ActionModel::SkipRow(FaultModel::Malformed(m)),
    }
}

/// A load: drop the table, create it afresh, then one step per record in order.
pub open spec fn load_script_of(records: Seq<RecordModel>) -> Seq<ActionModel> {
    seq![ActionModel::DropTable, ActionModel::CreateTable] + records.map_values(
        |r: RecordModel| step_of(r),
    )
}

/// Relies on `csv::Reader::from_reader` and `Reader::records` (default
/// settings: a header row, commas, equal field counts): each record after the
/// header in order, as its fields or as the text of its error. The outcome
/// depends on the bytes alone.
#[verifier::external_body]
fn read_csv_records(data: &[u8]) -> (r: Vec<Result<Vec<String>, String>>)
    ensures
        records_view(r@) == csv_records(data@),
{
    csv::Reader::from_reader(data).records().map(|item| match item {
        Ok(record) => Ok(record.iter().map(String::from).collect()),
        Err(err) => Err(format!("{:?}", err)),
    }).collect()
}

/// The load steps for records already read: drop, create, then per record an
/// insert of its first eight fields or a skip that says why.
pub fn load_actions(records: &Vec<Result<Vec<String>, String>>) -> (r: Vec<DbAction>)
    ensures
        actions_view(r@) == load_script_of(records_view(records@)),
{
    let mut out: Vec<DbAction> = Vec::new();
    out.push(DbAction::DropTable);
    out.push(DbAction::CreateTable);
    let ghost recs = records_view(records@);
    let mut i: usize = 0;
    while i < records.len()
        invariant
            i <= records@.len(),
            recs == records_view(records@),
            out@.len() == i + 2,
            action_view(out@[0]) == ActionModel::DropTable,
            action_view(out@[1]) == ActionModel::CreateTable,
            forall|k: int| 0 <= k < i ==> action_view(#[trigger] out@[k + 2]) == step_of(recs[k]),
        decreases records@.len() - i,
    {
        match &records[i] {
            Ok(fields) => {
                if fields.len() >= FIELD_COUNT {
                    let mut row: Vec<String> = Vec::new();
                    let mut j: usize = 0;
                    while j < FIELD_COUNT
                        invariant
                            j <= FIELD_COUNT <= fields@.len(),
                            row@.len() == j,
                            forall|k: int| 0 <= k < j ==> (#[trigger] row@[k])@ == fields@[k]@,
                        decreases FIELD_COUNT - j,
                    {
                        row.push(fields[j].clone());
                        j = j + 1;
                    }
                    assert(fields_view(row@) =~= fields_view(fields@).subrange(0, FIELD_COUNT as int));
                    out.push(DbAction::Insert(row));
                } else {
                    out.push(DbAction::SkipRow(RowFault::TooFewFields(fields.len())));
                }
            },
            Err(msg) => {
                out.push(DbAction::SkipRow(RowFault::Malformed(msg.clone())));
            },
        }
        i = i + 1;
    }
    let ghost steps = recs.map_values(|r: RecordModel| step_of(r));
    assert forall|k: int| 0 <= k < out@.len() implies actions_view(out@)[k] == load_script_of(
        recs,
    )[k] by {
        if k >= 2 {
            assert(out@[(k - 2) + 2] == out@[k]);
            assert(load_script_of(recs)[k] == steps[k - 2]);
        }
    }
    assert(actions_view(out@) =~= load_script_of(recs));
    out
}

/// The load steps for a dataset's bytes, read as CSV with a header row.
pub fn load_script(data: &[u8]) -> (r: Vec<DbAction>)
    ensures
        actions_view(r@) == load_script_of(csv_records(data@)),
{
    let records = read_csv_records(data);
    load_actions(&records)
}

} // verus!
