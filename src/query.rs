//! Ad-hoc statements: telling reads from writes, rendering result rows, and
//! the entry that every statement leaves in the audit log.

use vstd::prelude::*;
use vstd::string::*;
use crate::text::{decimal, decimal_of, lower_of, lowercase, trim, trim_white_space};

verus! {

/// How a statement is run: a read is prepared and its rows are printed; a write
/// (anything else) is executed as a batch and prints nothing.
#[derive(Clone, Copy, Debug, PartialEq, Eq, Structural)]
pub enum StatementKind {
    Read,
    Write,
}

/// The word that marks a read statement.
pub open spec fn select_word() -> Seq<char> {
    seq!['s', 'e', 'l', 'e', 'c', 't']
}

/// The kind of a statement whose text has already been trimmed and lowercased:
/// a read exactly when it begins with `select`.
pub open spec fn kind_of_normalized(t: Seq<char>) -> StatementKind {
    if t.len() >= 6 && t.subrange(0, 6) == select_word() {
        StatementKind::Read
    } else {
        StatementKind::Write
    }
}

/// The kind of a statement as written: trim it, lowercase it, look for `select`.
pub open spec fn kind_of(sql: Seq<char>) -> StatementKind {
    kind_of_normalized(lower_of(trim_white_space(sql)))
}

/// Classifies text that is already trimmed and lowercased.
pub fn normalized_kind(t: &str) -> (r: StatementKind)
    ensures
        r == kind_of_normalized(t@),
{
    let n = t.unicode_len();
    if n < 6 {
        return StatementKind::Write;
    }
    let starts = t.get_char(0) == 's' && t.get_char(1) == 'e' && t.get_char(2) == 'l'
        && t.get_char(3) == 'e' && t.get_char(4) == 'c' && t.get_char(5) == 't';
    if starts {
        assert(t@.subrange(0, 6) =~= select_word());
        StatementKind::Read
    } else {
        assert(t@.subrange(0, 6) != select_word()) by {
            if t@.subrange(0, 6) == select_word() {
                assert(t@[0] == t@.subrange(0, 6)[0]);
                assert(t@[1] == t@.subrange(0, 6)[1]);
                assert(t@[2] == t@.subrange(0, 6)[2]);
                assert(t@[3] == t@.subrange(0, 6)[3]);
                assert(t@[4] == t@.subrange(0, 6)[4]);
                assert(t@[5] == t@.subrange(0, 6)[5]);
            }
        }
        StatementKind::Write
    }
}

/// Classifies a statement as written: a case-insensitive `select` prefix after
/// trimming marks a read; every other statement is a write.
pub fn classify(sql: &str) -> (r: StatementKind)
    ensures
        r == kind_of(sql@),
{
    let trimmed = trim(sql);
    let lowered = lowercase(trimmed);
    normalized_kind(lowered.as_str())
}

/// The audit-log entry for a statement: the statement verbatim inside a fenced
/// `sql` code block, followed by a blank line.
pub open spec fn fenced(sql: Seq<char>) -> Seq<char> {
    "```sql\n"@ + sql + "\n```\n\n"@
}

/// The entry that a statement appends to the audit log.
pub fn log_entry(sql: &str) -> (r: String)
    ensures
        r@ == fenced(sql@),
{
    let mut entry = String::from_str("```sql\n");
    entry.append(sql);
    entry.append("\n```\n\n");
    entry
}

/// Appending a statement's entry to the audit log keeps everything the log held
/// and adds exactly one block: the `sql` fence line, the statement verbatim, the
/// closing fence and a blank line. Distinct statements leave distinct entries.
pub proof fn lemma_log_append(log: Seq<char>, sql: Seq<char>, other: Seq<char>)
    ensures
        (log + fenced(sql)).len() == log.len() + sql.len() + 13,
        (log + fenced(sql)).subrange(0, log.len() as int) == log,
        (log + fenced(sql)).subrange(log.len() as int, log.len() + 7int) == seq![
            '`', '`', '`', 's', 'q', 'l', '\n'],
        (log + fenced(sql)).subrange(log.len() + 7int, log.len() + 7int + sql.len()) == sql,
        (log + fenced(sql)).subrange(log.len() + 7int + sql.len(), log.len() + sql.len() + 13int)
            == seq!['\n', '`', '`', '`', '\n', '\n'],
        fenced(sql) == fenced(other) ==> sql == other,
{
    reveal_strlit("```sql\n");
    reveal_strlit("\n```\n\n");
    let n = log.len() as int;
    let m = sql.len() as int;
    let open = "```sql\n"@;
    let close = "\n```\n\n"@;
    let all = log + fenced(sql);
    assert(all =~= log + open + sql + close);
    assert(all.subrange(0, n) =~= log);
    assert(all.subrange(n, n + 7) =~= open);
    assert(all.subrange(n + 7, n + 7 + m) =~= sql);
    assert(all.subrange(n + 7 + m, n + m + 13) =~= close);
    if fenced(sql) == fenced(other) {
        let k = other.len() as int;
        assert(fenced(sql).len() == fenced(other).len());
        assert(sql =~= fenced(sql).subrange(7, 7 + m));
        assert(other =~= fenced(other).subrange(7, 7 + k));
    }
}

/// One row of the table as a read decodes it, surrogate key first.
#[derive(Debug, PartialEq, Eq)]
pub struct AirlineRow {
    pub id: i64,
    pub airline: String,
    pub avail_seat_km_per_week: i64,
    pub incidents_85_99: i64,
    pub fatal_accidents_85_99: i64,
    pub fatalities_85_99: i64,
    pub incidents_00_14: i64,
    pub fatal_accidents_00_14: i64,
    pub fatalities_00_14: i64,
}

/// The line printed for a row: each column as `name=value`, in schema order.
pub open spec fn row_line(row: AirlineRow) -> Seq<char> {
    "Result: id="@ + decimal_of(row.id as int) + ", airline="@ + row.airline@
        + ", avail_seat_km_per_week="@ + decimal_of(row.avail_seat_km_per_week as int)
        + ", incidents_85_99="@ + decimal_of(row.incidents_85_99 as int)
        + ", fatal_accidents_85_99="@ + decimal_of(row.fatal_accidents_85_99 as int)
        + ", fatalities_85_99="@ + decimal_of(row.fatalities_85_99 as int)
        + ", incidents_00_14="@ + decimal_of(row.incidents_00_14 as int)
        + ", fatal_accidents_00_14="@ + decimal_of(row.fatal_accidents_00_14 as int)
        + ", fatalities_00_14="@ + decimal_of(row.fatalities_00_14 as int)
}

/// Renders a row as the line that a read prints for it.
pub fn render_row(row: &AirlineRow) -> (r: String)
    ensures
        r@ == row_line(*row),
{
    let mut line = String::from_str("Result: id=");
    line.append(decimal(row.id).as_str());
    line.append(", airline=");
    line.append(row.airline.as_str());
    line.append(", avail_seat_km_per_week=");
    line.append(decimal(row.avail_seat_km_per_week).as_str());
    line.append(", incidents_85_99=");
    line.append(decimal(row.incidents_85_99).as_str());
    line.append(", fatal_accidents_85_99=");
    line.append(decimal(row.fatal_accidents_85_99).as_str());
    line.append(", fatalities_85_99=");
    line.append(decimal(row.fatalities_85_99).as_str());
    line.append(", incidents_00_14=");
    line.append(decimal(row.incidents_00_14).as_str());
    line.append(", fatal_accidents_00_14=");
    line.append(decimal(row.fatal_accidents_00_14).as_str());
    line.append(", fatalities_00_14=");
    line.append(decimal(row.fatalities_00_14).as_str());
    line
}

/// A line of output from a read: a rendered row for standard output, or a
/// row-level fault for the diagnostic stream.
#[derive(Debug, PartialEq, Eq)]
pub enum Report {
    Stdout(String),
    Stderr(String),
}

/// The text of a report line and the stream it goes to (`true` for stdout).
pub open spec fn report_view(r: Report) -> (bool, Seq<char>) {
    match r {
        Report::Stdout(s) => (true, s@),
        Report::Stderr(s) => (false, s@),
    }
}

/// What a read reports for one result: the row's line, or the fault's text.
pub open spec fn report_of(item: Result<AirlineRow, String>) -> (bool, Seq<char>) {
    match item {
        Ok(row) => (true, row_line(row)),
        Err(msg) => (false, "Error in row: "@ + msg@),
    }
}

/// Reports the results of a read, one line each and in order: a row that
/// failed to decode is reported on its own and does not stop the rest.
pub fn report_rows(results: &Vec<Result<AirlineRow, String>>) -> (r: Vec<Report>)
    ensures
        r@.len() == results@.len(),
        forall|i: int| 0 <= i < r@.len() ==> report_view(#[trigger] r@[i]) == report_of(results@[i]),
{
    let mut out: Vec<Report> = Vec::new();
    let mut i: usize = 0;
    while i < results.len()
        invariant
            i <= results@.len(),
            out@.len() == i,
            forall|k: int| 0 <= k < i ==> report_view(#[trigger] out@[k]) == report_of(results@[k]),
        decreases results@.len() - i,
    {
        match &results[i] {
            Ok(row) => {
                out.push(Report::Stdout(render_row(row)));
            },
            Err(msg) => {
                let mut line = String::from_str("Error in row: ");
                line.append(msg.as_str());
                out.push(Report::Stderr(line));
            },
        }
        i = i + 1;
    }
    out
}

} // verus!
