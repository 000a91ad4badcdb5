use tina_yi_sqlite::loader::{
    load_actions, load_script, DbAction, RowFault, CREATE_TABLE_SQL, DATABASE_PATH,
    DROP_TABLE_SQL, FIELD_COUNT, INSERT_ROW_SQL, QUERY_LOG_PATH,
};
use tina_yi_sqlite::query::{
    classify, log_entry, normalized_kind, render_row, report_rows, AirlineRow, Report,
    StatementKind,
};

const HEADER: &str = "airline,avail_seat_km_per_week,incidents_85_99,fatal_accidents_85_99,fatalities_85_99,incidents_00_14,fatal_accidents_00_14,fatalities_00_14\n";

fn fields(v: &[&str]) -> Vec<String> {
    v.iter().map(|s| s.to_string()).collect()
}

fn inserts(actions: &[DbAction]) -> Vec<Vec<String>> {
    actions
        .iter()
        .filter_map(|a| match a {
            DbAction::Insert(f) => Some(f.clone()),
            _ => None,
        })
        .collect()
}

fn skips(actions: &[DbAction]) -> usize {
    actions.iter().filter(|a| matches!(a, DbAction::SkipRow(_))).count()
}

fn sample_row() -> AirlineRow {
    AirlineRow {
        id: 1,
        airline: "Alaska Airlines".to_string(),
        avail_seat_km_per_week: 965346773,
        incidents_85_99: 5,
        fatal_accidents_85_99: 1,
        fatalities_85_99: 88,
        incidents_00_14: 2,
        fatal_accidents_00_14: 0,
        fatalities_00_14: -3,
    }
}

#[test]
fn select_on_airline_is_a_read() {
    let q = "SELECT * FROM AirlineSafetyDB WHERE airline = 'Alaska Airlines';";
    assert_eq!(classify(q), StatementKind::Read);
}

#[test]
fn delete_is_a_write() {
    assert_eq!(classify("DELETE FROM AirlineSafetyDB WHERE id = 1"), StatementKind::Write);
}

#[test]
fn classification_trims_and_ignores_case() {
    assert_eq!(classify("   select id FROM AirlineSafetyDB"), StatementKind::Read);
    assert_eq!(classify("\u{3000}\tSeLeCt 1"), StatementKind::Read);
    assert_eq!(classify("Select 1"), StatementKind::Read);
    assert_eq!(classify("SELECT"), StatementKind::Read);
}

#[test]
fn classification_trims_unicode_white_space_only() {
    assert_eq!(classify("\u{85}\u{a0}\u{2028}SELECT 1\u{3000}\n"), StatementKind::Read);
    assert_eq!(classify("\u{200b}SELECT 1"), StatementKind::Write);
    assert_eq!(classify("\u{feff}select 1"), StatementKind::Write);
}

#[test]
fn only_a_leading_select_is_a_read() {
    assert_eq!(classify("pragma table_info(AirlineSafetyDB)"), StatementKind::Write);
    assert_eq!(classify("EXPLAIN SELECT 1"), StatementKind::Write);
    assert_eq!(classify("WITH x AS (SELECT 1) SELECT * FROM x"), StatementKind::Write);
    assert_eq!(classify("SELEC"), StatementKind::Write);
    assert_eq!(classify(""), StatementKind::Write);
    assert_eq!(classify("   "), StatementKind::Write);
}

#[test]
fn normalized_kind_needs_lowercase_prefix() {
    assert_eq!(normalized_kind("select * from t"), StatementKind::Read);
    assert_eq!(normalized_kind("SELECT * from t"), StatementKind::Write);
    assert_eq!(normalized_kind(" select"), StatementKind::Write);
    assert_eq!(normalized_kind("selec"), StatementKind::Write);
    assert_eq!(normalized_kind("selection"), StatementKind::Read);
}

#[test]
fn log_entry_fences_the_statement() {
    let q = "DELETE FROM AirlineSafetyDB WHERE id = 1";
    assert_eq!(
        log_entry(q),
        "```sql\nDELETE FROM AirlineSafetyDB WHERE id = 1\n```\n\n"
    );
    assert_eq!(log_entry(""), "```sql\n\n```\n\n");
}

#[test]
fn log_entries_append_one_block_per_statement() {
    let mut log = String::new();
    log.push_str(&log_entry("SELECT 1"));
    log.push_str(&log_entry("DROP TABLE x"));
    assert_eq!(log, "```sql\nSELECT 1\n```\n\n```sql\nDROP TABLE x\n```\n\n");
    assert_eq!(log.matches("```sql\n").count(), 2);
}

#[test]
fn render_row_lists_every_column() {
    assert_eq!(
        render_row(&sample_row()),
        "Result: id=1, airline=Alaska Airlines, avail_seat_km_per_week=965346773, incidents_85_99=5, fatal_accidents_85_99=1, fatalities_85_99=88, incidents_00_14=2, fatal_accidents_00_14=0, fatalities_00_14=-3"
    );
}

#[test]
fn render_row_prints_values_beyond_32_bits() {
    let row = AirlineRow {
        id: 1,
        airline: "United / Continental".to_string(),
        avail_seat_km_per_week: 7139291291,
        incidents_85_99: 19,
        fatal_accidents_85_99: 8,
        fatalities_85_99: 319,
        incidents_00_14: 14,
        fatal_accidents_00_14: 2,
        fatalities_00_14: 109,
    };
    assert_eq!(
        render_row(&row),
        "Result: id=1, airline=United / Continental, avail_seat_km_per_week=7139291291, incidents_85_99=19, fatal_accidents_85_99=8, fatalities_85_99=319, incidents_00_14=14, fatal_accidents_00_14=2, fatalities_00_14=109"
    );
    let out = report_rows(&vec![Ok(row)]);
    assert!(matches!(&out[0], Report::Stdout(s) if s.contains("=7139291291,")));
}

#[test]
fn render_row_prints_the_extreme_integers() {
    let row = AirlineRow {
        id: i64::MAX,
        fatalities_00_14: i64::MIN,
        incidents_00_14: 0,
        ..sample_row()
    };
    let line = render_row(&row);
    assert!(line.starts_with("Result: id=9223372036854775807, airline=Alaska Airlines, "));
    assert!(line.contains(", incidents_00_14=0, "));
    assert!(line.ends_with(", fatalities_00_14=-9223372036854775808"));
}

#[test]
fn report_rows_keeps_going_after_a_bad_row() {
    let results = vec![
        Ok(sample_row()),
        Err("Invalid column type Null at index: 2".to_string()),
        Ok(AirlineRow { id: 2, ..sample_row() }),
    ];
    let out = report_rows(&results);
    assert_eq!(out.len(), 3);
    assert!(matches!(&out[0], Report::Stdout(s) if s.starts_with("Result: id=1, ")));
    assert_eq!(
        out[1],
        Report::Stderr("Error in row: Invalid column type Null at index: 2".to_string())
    );
    assert!(matches!(&out[2], Report::Stdout(s) if s.starts_with("Result: id=2, ")));
}

#[test]
fn report_rows_of_no_result_is_empty() {
    assert!(report_rows(&Vec::new()).is_empty());
}

#[test]
fn load_script_inserts_each_record_in_order() {
    let data = format!(
        "{}Aer Lingus,320906734,2,0,0,0,0,0\nAeroflot*,1197672318,76,14,128,6,1,88\nAlaska Airlines,965346773,5,0,0,5,1,88\n",
        HEADER
    );
    let actions = load_script(data.as_bytes());
    assert_eq!(actions.len(), 5);
    assert_eq!(actions[0], DbAction::DropTable);
    assert_eq!(actions[1], DbAction::CreateTable);
    assert_eq!(
        inserts(&actions),
        vec![
            fields(&["Aer Lingus", "320906734", "2", "0", "0", "0", "0", "0"]),
            fields(&["Aeroflot*", "1197672318", "76", "14", "128", "6", "1", "88"]),
            fields(&["Alaska Airlines", "965346773", "5", "0", "0", "5", "1", "88"]),
        ]
    );
    assert_eq!(skips(&actions), 0);
}

#[test]
fn load_script_of_header_only_just_rebuilds() {
    let actions = load_script(HEADER.as_bytes());
    assert_eq!(actions, vec![DbAction::DropTable, DbAction::CreateTable]);
    let empty = load_script(b"");
    assert_eq!(empty, vec![DbAction::DropTable, DbAction::CreateTable]);
}

#[test]
fn load_script_skips_one_malformed_record() {
    let data = format!(
        "{}Aer Lingus,320906734,2,0,0,0,0,0\nbroken,1,2\nAlaska Airlines,965346773,5,0,0,5,1,88\n",
        HEADER
    );
    let actions = load_script(data.as_bytes());
    assert_eq!(inserts(&actions).len(), 2);
    assert_eq!(skips(&actions), 1);
    assert!(matches!(&actions[3], DbAction::SkipRow(RowFault::Malformed(_))));
}

#[test]
fn load_script_skips_records_too_short_for_the_table() {
    let data = "a,b,c\nx,1,2\n";
    let actions = load_script(data.as_bytes());
    assert_eq!(
        actions,
        vec![
            DbAction::DropTable,
            DbAction::CreateTable,
            DbAction::SkipRow(RowFault::TooFewFields(3)),
        ]
    );
}

#[test]
fn load_script_twice_gives_the_same_steps() {
    let data = format!("{}Aer Lingus,320906734,2,0,0,0,0,0\n", HEADER);
    assert_eq!(load_script(data.as_bytes()), load_script(data.as_bytes()));
}

#[test]
fn load_actions_take_the_first_eight_fields() {
    let records = vec![
        Ok(fields(&["A", "1", "2", "3", "4", "5", "6", "7", "extra"])),
        Err("bad record".to_string()),
        Ok(fields(&["B", "1"])),
    ];
    let actions = load_actions(&records);
    assert_eq!(
        actions,
        vec![
            DbAction::DropTable,
            DbAction::CreateTable,
            DbAction::Insert(fields(&["A", "1", "2", "3", "4", "5", "6", "7"])),
            DbAction::SkipRow(RowFault::Malformed("bad record".to_string())),
            DbAction::SkipRow(RowFault::TooFewFields(2)),
        ]
    );
}

#[test]
fn fixed_names_and_statements() {
    assert_eq!(DATABASE_PATH, "AirlineSafetyDB.db");
    assert_eq!(QUERY_LOG_PATH, "query_log.md");
    assert_eq!(FIELD_COUNT, 8);
    assert_eq!(DROP_TABLE_SQL, "DROP TABLE IF EXISTS AirlineSafetyDB");
    assert!(CREATE_TABLE_SQL.contains("id INTEGER PRIMARY KEY AUTOINCREMENT"));
    assert_eq!(INSERT_ROW_SQL.matches('?').count(), FIELD_COUNT);
}
