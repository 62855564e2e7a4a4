use csv2lite::config::CliCfg;
use csv2lite::error::LoadError;
use csv2lite::field::Field;
use csv2lite::import::{create_table, reconcile_table, schema};
use csv2lite::load::{check_row, is_header, write_to_db, LoadOutcome};
use csv2lite::error::{RowWidthError, SchemaMismatchError};
use csv2lite::reconcile::Plan;
use csv2lite::record::{Records, StringRecordParamed};
use csv2lite::store::{places_in_table_info, reported_field, store_error, ColumnPlaces, Session};
use csv::StringRecord;
use rusqlite::Connection;
use std::path::PathBuf;

fn store_options(overwrite: bool) -> CliCfg {
    CliCfg {
        files: Vec::new(),
        file_re: None,
        tablename: Some("t".to_string()),
        db_file: PathBuf::new(),
        verbose: 0,
        field_sep: b',',
        overwrite_tables: overwrite,
        quote: b'"',
        escape: None,
        comment: None,
        headeron: false,
        sanity_sample: 0,
        ignore_field_count: false,
        sqls: Vec::new(),
        out_delimiter: ",".to_string(),
        memory: true,
    }
}

fn field(pos: u32, name: &str, db_type: &str) -> Field {
    Field { pos, name: name.to_string(), db_type: db_type.to_string() }
}

fn count(conn: &Connection, table: &str) -> i64 {
    conn.query_row(&format!("select count(*) from {}", table), [], |row| row.get(0)).unwrap()
}

#[test]
fn absent_table_has_no_columns() {
    let conn = Connection::open_in_memory().unwrap();
    let mut session = Session::new(&conn);
    assert_eq!(session.table_columns("absent"), Ok(Vec::new()));
    assert_eq!(schema(&store_options(false), &mut session, "absent"), Ok(Vec::new()));
}

#[test]
fn columns_come_in_order_as_the_store_reports_them() {
    let conn = Connection::open_in_memory().unwrap();
    conn.execute_batch("create table mixed ([x] TEXT, [y z] INTEGER, [w] VarChar(10));").unwrap();
    let mut session = Session::new(&conn);
    assert_eq!(
        session.table_columns("mixed"),
        Ok(vec![field(0, "x", "TEXT"), field(1, "y z", "INTEGER"), field(2, "w", "VarChar(10)")])
    );
}

#[test]
fn created_table_is_seen_with_its_schema() {
    let conn = Connection::open_in_memory().unwrap();
    let mut session = Session::new(&conn);
    let wanted = vec![field(0, "a", "TEXT"), field(1, "b", "VarChar(3)")];
    assert_eq!(create_table(&mut session, "t", &wanted), Ok(()));
    assert_eq!(schema(&store_options(false), &mut session, "t"), Ok(wanted.clone()));
    assert!(matches!(create_table(&mut session, "t", &wanted), Err(LoadError::StoreAccess(_))));
    assert!(matches!(create_table(&mut session, "e", &Vec::new()), Err(LoadError::StoreAccess(_))));
}

#[test]
fn reported_columns_are_kept_as_they_are() {
    assert_eq!(
        reported_field(3, "Name".to_string(), "TEXT".to_string()),
        field(3, "Name", "TEXT")
    );
    assert_eq!(reported_field(0, String::new(), String::new()), field(0, "", ""));
}

#[test]
fn overwrite_drops_and_sees_nothing() {
    let conn = Connection::open_in_memory().unwrap();
    conn.execute_batch("create table t ([a] text); insert into t values ('1');").unwrap();
    let mut session = Session::new(&conn);
    assert_eq!(schema(&store_options(true), &mut session, "t"), Ok(Vec::new()));
    assert_eq!(session.table_columns("t"), Ok(Vec::new()));
    assert_eq!(schema(&store_options(true), &mut session, "t"), Ok(Vec::new()));
}

#[test]
fn table_is_fitted_to_the_file() {
    let conn = Connection::open_in_memory().unwrap();
    let mut session = Session::new(&conn);
    let file = vec![field(0, "a", "TEXT"), field(1, "b", "TEXT")];
    assert_eq!(reconcile_table(&store_options(false), &mut session, "t", &file), Ok(Plan::Create));
    assert_eq!(reconcile_table(&store_options(false), &mut session, "t", &file), Ok(Plan::Validate));
    conn.execute_batch("insert into t values ('1', '2');").unwrap();
    let other = vec![field(0, "a", "TEXT")];
    assert_eq!(
        reconcile_table(&store_options(false), &mut session, "t", &other),
        Err(LoadError::SchemaMismatch(SchemaMismatchError::FieldCount { expected: 2, found: 1 }))
    );
    let spelled = vec![field(0, "a", "text"), field(1, "b", "TEXT")];
    assert_eq!(
        reconcile_table(&store_options(false), &mut session, "t", &spelled),
        Err(LoadError::SchemaMismatch(SchemaMismatchError::Type {
            position: 0,
            expected: "TEXT".to_string(),
            found: "text".to_string()
        }))
    );
    assert_eq!(count(&conn, "t"), 1);
    assert_eq!(reconcile_table(&store_options(true), &mut session, "t", &other), Ok(Plan::Create));
    assert_eq!(count(&conn, "t"), 0);
    assert_eq!(session.table_columns("t"), Ok(other));
}

#[test]
fn transaction_is_undone_by_rollback_and_kept_by_commit() {
    let conn = Connection::open_in_memory().unwrap();
    let mut session = Session::new(&conn);
    let cols = vec![field(0, "a", "text"), field(1, "b", "text")];
    create_table(&mut session, "t", &cols).unwrap();
    let mut ins = session.prepare_insert("t", &cols).unwrap();
    let rec = StringRecordParamed::new(StringRecord::from(vec!["1", "2"]));
    assert_eq!(session.begin(), Ok(()));
    assert_eq!(session.insert(&mut ins, &rec), Ok(()));
    assert_eq!(session.insert(&mut ins, &rec), Ok(()));
    assert_eq!(session.rollback(), Ok(()));
    assert_eq!(count(&conn, "t"), 0);
    assert_eq!(session.begin(), Ok(()));
    assert_eq!(session.insert(&mut ins, &rec), Ok(()));
    assert_eq!(session.commit(), Ok(()));
    assert_eq!(count(&conn, "t"), 1);
    assert!(matches!(session.commit(), Err(LoadError::StoreAccess(_))));
    assert!(matches!(session.rollback(), Err(LoadError::StoreAccess(_))));
    let short = StringRecordParamed::new(StringRecord::from(vec!["1"]));
    assert!(matches!(session.insert(&mut ins, &short), Err(LoadError::StoreAccess(_))));
    assert_eq!(count(&conn, "t"), 1);
}

#[test]
fn statement_for_a_missing_table_is_refused() {
    let conn = Connection::open_in_memory().unwrap();
    let mut session = Session::new(&conn);
    let cols = vec![field(0, "a", "text")];
    assert!(matches!(session.prepare_insert("missing", &cols), Err(LoadError::StoreAccess(_))));
}

#[test]
fn drop_of_a_missing_table_is_refused() {
    let conn = Connection::open_in_memory().unwrap();
    let mut session = Session::new(&conn);
    assert!(matches!(session.drop_table("missing"), Err(LoadError::StoreAccess(_))));
    conn.execute_batch("create table here ([a] text);").unwrap();
    assert_eq!(session.drop_table("here"), Ok(()));
}

#[test]
fn load_without_a_table_sends_nothing_more() {
    let conn = Connection::open_in_memory().unwrap();
    let cfg = store_options(false);
    let mut session = Session::new(&conn);
    let mut records = Records::over_bytes(&cfg, b"1,2\n");
    let cols = vec![field(0, "a", "text"), field(1, "b", "text")];
    let res = write_to_db(&cfg, &mut session, &mut records, "missing", &cols);
    assert!(matches!(res, Err(LoadError::StoreAccess(_))));
    assert_eq!(records.handed_out(), 0);
    assert!(conn.is_autocommit());
}

#[test]
fn load_leaves_no_transaction_open() {
    let conn = Connection::open_in_memory().unwrap();
    let cfg = store_options(false);
    let mut session = Session::new(&conn);
    let cols = vec![field(0, "a", "text"), field(1, "b", "text")];
    create_table(&mut session, "t", &cols).unwrap();
    let mut good = Records::over_bytes(&cfg, b"1,2\n3,4\n");
    assert_eq!(
        write_to_db(&cfg, &mut session, &mut good, "t", &cols),
        Ok(LoadOutcome { rows_written: 2, fields_written: 4 })
    );
    assert!(conn.is_autocommit());
    let mut bad = Records::over_bytes(&cfg, b"5,6\n7\n");
    assert_eq!(
        write_to_db(&cfg, &mut session, &mut bad, "t", &cols),
        Err(LoadError::RowWidth(RowWidthError { line: 2, expected: 2, found: 1 }))
    );
    assert!(conn.is_autocommit());
    assert_eq!(count(&conn, "t"), 2);
    let mut none = Records::over_bytes(&cfg, b"");
    assert_eq!(
        write_to_db(&cfg, &mut session, &mut none, "t", &cols),
        Ok(LoadOutcome { rows_written: 0, fields_written: 0 })
    );
}

#[test]
fn rows_are_held_to_the_width() {
    assert_eq!(check_row(3, 2, 2, false), Ok(()));
    assert_eq!(check_row(3, 1, 2, false), Err(RowWidthError { line: 3, expected: 2, found: 1 }));
    assert_eq!(check_row(3, 1, 2, true), Ok(()));
    assert!(is_header(1, true));
    assert!(!is_header(2, true));
    assert!(!is_header(1, false));
}

#[test]
fn store_refusals_become_store_errors() {
    let conn = Connection::open_in_memory().unwrap();
    let e = conn.execute_batch("not sql").unwrap_err();
    assert!(matches!(store_error(&e), LoadError::StoreAccess(_)));
}

#[test]
fn refused_drop_is_set_aside_and_is_no_failure() {
    let conn = Connection::open_in_memory().unwrap();
    let mut session = Session::new(&conn);
    assert_eq!(session.take_unreported(), Vec::new());
    assert_eq!(schema(&store_options(true), &mut session, "absent"), Ok(Vec::new()));
    let refusals = session.take_unreported();
    assert_eq!(refusals.len(), 1);
    assert!(matches!(refusals[0], LoadError::StoreAccess(_)));
    assert_eq!(session.take_unreported(), Vec::new());
    conn.execute_batch("create table here ([a] text);").unwrap();
    assert_eq!(schema(&store_options(true), &mut session, "here"), Ok(Vec::new()));
    assert_eq!(session.take_unreported(), Vec::new());
}

#[test]
fn refusals_are_taken_in_the_order_they_were_set_aside() {
    let conn = Connection::open_in_memory().unwrap();
    let mut session = Session::new(&conn);
    session.set_aside(LoadError::StoreAccess("first".to_string()));
    session.set_aside(LoadError::StoreAccess("second".to_string()));
    assert_eq!(
        session.take_unreported(),
        vec![LoadError::StoreAccess("first".to_string()), LoadError::StoreAccess("second".to_string())]
    );
    assert_eq!(session.take_unreported(), Vec::new());
}

#[test]
fn load_that_rolls_back_sets_nothing_aside_when_the_store_agrees() {
    let conn = Connection::open_in_memory().unwrap();
    let cfg = store_options(false);
    let mut session = Session::new(&conn);
    let cols = vec![field(0, "a", "text"), field(1, "b", "text")];
    create_table(&mut session, "t", &cols).unwrap();
    let mut bad = Records::over_bytes(&cfg, b"5,6\n7\n");
    assert_eq!(
        write_to_db(&cfg, &mut session, &mut bad, "t", &cols),
        Err(LoadError::RowWidth(RowWidthError { line: 2, expected: 2, found: 1 }))
    );
    assert_eq!(session.take_unreported(), Vec::new());
}

#[test]
fn ordinal_name_and_type_stand_first_second_and_third() {
    assert_eq!(places_in_table_info(), ColumnPlaces { pos_at: 0, name_at: 1, type_at: 2 });
}

#[test]
fn name_and_type_are_not_swapped() {
    let conn = Connection::open_in_memory().unwrap();
    conn.execute_batch("create table swap ([TEXT] VarChar(7), [n] TEXT);").unwrap();
    let mut session = Session::new(&conn);
    assert_eq!(
        session.table_columns("swap"),
        Ok(vec![field(0, "TEXT", "VarChar(7)"), field(1, "n", "TEXT")])
    );
}

#[test]
fn rows_go_to_the_columns_that_the_schema_names() {
    let conn = Connection::open_in_memory().unwrap();
    conn.execute_batch("create table t ([b] text, [a] text);").unwrap();
    let cfg = store_options(false);
    let mut session = Session::new(&conn);
    let cols = vec![field(0, "a", "text"), field(1, "b", "text")];
    let mut records = Records::over_bytes(&cfg, b"1,2\n");
    assert_eq!(
        write_to_db(&cfg, &mut session, &mut records, "t", &cols),
        Ok(LoadOutcome { rows_written: 1, fields_written: 2 })
    );
    let (a, b): (String, String) =
        conn.query_row("select a, b from t", [], |row| Ok((row.get(0)?, row.get(1)?))).unwrap();
    assert_eq!((a.as_str(), b.as_str()), ("1", "2"));
}
