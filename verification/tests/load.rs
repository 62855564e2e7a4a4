use csv2lite::config::CliCfg;
use csv2lite::error::{LoadError, RowWidthError, SchemaInconsistencyError, SchemaMismatchError};
use csv2lite::import::load_file;
use csv2lite::load::{write_to_db, LoadOutcome};
use csv2lite::probe::detect_file_schema;
use csv2lite::record::Records;
use csv2lite::store::Session;
use rusqlite::Connection;
use std::path::PathBuf;

fn options(header: bool, sample: u64) -> CliCfg {
    CliCfg {
        files: Vec::new(),
        file_re: None,
        tablename: Some("t".to_string()),
        db_file: PathBuf::new(),
        verbose: 0,
        field_sep: b',',
        overwrite_tables: false,
        quote: b'"',
        escape: None,
        comment: None,
        headeron: header,
        sanity_sample: sample,
        ignore_field_count: false,
        sqls: Vec::new(),
        out_delimiter: ",".to_string(),
        memory: true,
    }
}

fn load(conn: &Connection, cfg: &CliCfg, table: &str, text: &str) -> Result<LoadOutcome, LoadError> {
    let mut session = Session::new(conn);
    let mut probe = Records::over_bytes(cfg, text.as_bytes());
    let mut data = Records::over_bytes(cfg, text.as_bytes());
    load_file(cfg, &mut session, &mut probe, &mut data, table)
}

fn append(conn: &Connection, cfg: &CliCfg, table: &str, text: &str) -> Result<LoadOutcome, LoadError> {
    let mut session = Session::new(conn);
    let mut probe = Records::over_bytes(cfg, text.as_bytes());
    let mut data = Records::over_bytes(cfg, text.as_bytes());
    let found = detect_file_schema(cfg, &mut probe)?;
    write_to_db(cfg, &mut session, &mut data, table, &found.fields)
}

fn declared_types(conn: &Connection, table: &str) -> Vec<String> {
    let mut stmt = conn.prepare(&format!("pragma table_info({});", table)).unwrap();
    let mut rows = stmt.query([]).unwrap();
    let mut out = Vec::new();
    while let Some(row) = rows.next().unwrap() {
        out.push(row.get::<usize, String>(2).unwrap());
    }
    out
}

fn rows_of(conn: &Connection, table: &str) -> Vec<Vec<String>> {
    let mut stmt = conn.prepare(&format!("select * from {} order by rowid", table)).unwrap();
    let n = stmt.column_count();
    let mut rows = stmt.query([]).unwrap();
    let mut out = Vec::new();
    while let Some(row) = rows.next().unwrap() {
        let mut r = Vec::new();
        for i in 0..n {
            r.push(row.get::<usize, String>(i).unwrap());
        }
        out.push(r);
    }
    out
}

fn columns_of(conn: &Connection, table: &str) -> Vec<(String, String)> {
    let mut stmt = conn.prepare(&format!("pragma table_info({});", table)).unwrap();
    let mut rows = stmt.query([]).unwrap();
    let mut out = Vec::new();
    while let Some(row) = rows.next().unwrap() {
        let declared = row.get::<usize, String>(2).unwrap();
        out.push((row.get::<usize, String>(1).unwrap(), declared.to_lowercase()));
    }
    out
}

fn strs(v: &[&str]) -> Vec<String> {
    v.iter().map(|s| s.to_string()).collect()
}

#[test]
fn header_file_creates_table_and_loads_rows() {
    let conn = Connection::open_in_memory().unwrap();
    let cfg = options(true, 0);
    let res = load(&conn, &cfg, "t", "a,b\n1,2\n3,4\n");
    assert_eq!(res, Ok(LoadOutcome { rows_written: 2, fields_written: 4 }));
    assert_eq!(
        columns_of(&conn, "t"),
        vec![("a".to_string(), "text".to_string()), ("b".to_string(), "text".to_string())]
    );
    assert_eq!(rows_of(&conn, "t"), vec![strs(&["1", "2"]), strs(&["3", "4"])]);
}

#[test]
fn second_load_appends_to_existing_table() {
    let conn = Connection::open_in_memory().unwrap();
    let cfg = options(true, 0);
    let text = "a,b\n1,2\n3,4\n";
    assert_eq!(load(&conn, &cfg, "t", text), Ok(LoadOutcome { rows_written: 2, fields_written: 4 }));
    assert_eq!(append(&conn, &cfg, "t", text), Ok(LoadOutcome { rows_written: 2, fields_written: 4 }));
    assert_eq!(
        rows_of(&conn, "t"),
        vec![strs(&["1", "2"]), strs(&["3", "4"]), strs(&["1", "2"]), strs(&["3", "4"])]
    );
}

#[test]
fn reload_goes_by_the_types_that_the_store_reports() {
    let conn = Connection::open_in_memory().unwrap();
    let cfg = options(true, 0);
    let text = "a,b\n1,2\n3,4\n";
    assert_eq!(load(&conn, &cfg, "t", text), Ok(LoadOutcome { rows_written: 2, fields_written: 4 }));
    let reported = declared_types(&conn, "t");
    let again = load(&conn, &cfg, "t", text);
    if reported == strs(&["text", "text"]) {
        assert_eq!(again, Ok(LoadOutcome { rows_written: 2, fields_written: 4 }));
        assert_eq!(rows_of(&conn, "t").len(), 4);
    } else {
        assert_eq!(
            again,
            Err(LoadError::SchemaMismatch(SchemaMismatchError::Type {
                position: 0,
                expected: reported[0].clone(),
                found: "text".to_string()
            }))
        );
        assert_eq!(rows_of(&conn, "t"), vec![strs(&["1", "2"]), strs(&["3", "4"])]);
    }
    assert_eq!(columns_of(&conn, "t").len(), 2);
}

#[test]
fn wide_row_beyond_the_sample_rolls_the_load_back() {
    let conn = Connection::open_in_memory().unwrap();
    let cfg = options(true, 1);
    assert_eq!(
        load(&conn, &cfg, "t", "a,b\n1,2\n3,4\n"),
        Ok(LoadOutcome { rows_written: 2, fields_written: 4 })
    );
    let res = append(&conn, &cfg, "t", "a,b\n5,6\n7,8\n9,10,11\n");
    assert_eq!(res, Err(LoadError::RowWidth(RowWidthError { line: 4, expected: 2, found: 3 })));
    assert_eq!(rows_of(&conn, "t"), vec![strs(&["1", "2"]), strs(&["3", "4"])]);
}

#[test]
fn wide_row_beyond_the_sample_leaves_a_new_table_empty() {
    let conn = Connection::open_in_memory().unwrap();
    let cfg = options(true, 1);
    let res = load(&conn, &cfg, "t", "a,b\n5,6\n7,8\n9,10,11\n");
    assert_eq!(res, Err(LoadError::RowWidth(RowWidthError { line: 4, expected: 2, found: 3 })));
    assert_eq!(rows_of(&conn, "t"), Vec::<Vec<String>>::new());
    assert_eq!(columns_of(&conn, "t").len(), 2);
}

#[test]
fn wide_row_inside_the_sample_fails_the_probe() {
    let conn = Connection::open_in_memory().unwrap();
    let cfg = options(true, 0);
    assert_eq!(
        load(&conn, &cfg, "t", "a,b\n1,2\n3,4\n"),
        Ok(LoadOutcome { rows_written: 2, fields_written: 4 })
    );
    let res = load(&conn, &cfg, "t", "a,b\n5,6\n7,8\n9,10,11\n");
    assert_eq!(
        res,
        Err(LoadError::SchemaInconsistency(SchemaInconsistencyError { line: 4, found: 3, expected: 2 }))
    );
    assert_eq!(rows_of(&conn, "t"), vec![strs(&["1", "2"]), strs(&["3", "4"])]);
}

#[test]
fn overwrite_repeats_the_row_count() {
    let conn = Connection::open_in_memory().unwrap();
    let text = "a,b\n1,2\n3,4\n5,6\n";
    let first = load(&conn, &options(true, 0), "t", text);
    assert_eq!(first, Ok(LoadOutcome { rows_written: 3, fields_written: 6 }));
    assert_eq!(rows_of(&conn, "t").len(), 3);
    let mut cfg = options(true, 0);
    cfg.overwrite_tables = true;
    let second = load(&conn, &cfg, "t", text);
    assert_eq!(second, first);
    assert_eq!(rows_of(&conn, "t").len(), 3);
}

#[test]
fn overwrite_of_a_table_that_is_not_there_creates_it() {
    let conn = Connection::open_in_memory().unwrap();
    let mut cfg = options(true, 0);
    cfg.overwrite_tables = true;
    assert_eq!(
        load(&conn, &cfg, "t", "a,b\n1,2\n"),
        Ok(LoadOutcome { rows_written: 1, fields_written: 2 })
    );
    assert_eq!(rows_of(&conn, "t"), vec![strs(&["1", "2"])]);
}

#[test]
fn failure_on_the_last_record_leaves_no_row() {
    let conn = Connection::open_in_memory().unwrap();
    let cfg = options(false, 2);
    let res = load(&conn, &cfg, "t", "1,2\n3,4\n5,6\n7,8\n9\n");
    assert_eq!(res, Err(LoadError::RowWidth(RowWidthError { line: 5, expected: 2, found: 1 })));
    assert_eq!(rows_of(&conn, "t"), Vec::<Vec<String>>::new());
    assert_eq!(
        columns_of(&conn, "t"),
        vec![("f0".to_string(), "text".to_string()), ("f1".to_string(), "text".to_string())]
    );
}

#[test]
fn header_is_never_inserted_whatever_the_sample() {
    for sample in [0u64, 1, 2, 5, u64::MAX] {
        let conn = Connection::open_in_memory().unwrap();
        let cfg = options(true, sample);
        assert_eq!(
            load(&conn, &cfg, "t", "a,b\n1,2\n3,4\n"),
            Ok(LoadOutcome { rows_written: 2, fields_written: 4 })
        );
        assert_eq!(rows_of(&conn, "t"), vec![strs(&["1", "2"]), strs(&["3", "4"])]);
    }
}

#[test]
fn headerless_file_gets_numbered_columns() {
    let conn = Connection::open_in_memory().unwrap();
    let cfg = options(false, 0);
    assert_eq!(
        load(&conn, &cfg, "t", "x,y,z\n1,2,3\n"),
        Ok(LoadOutcome { rows_written: 2, fields_written: 6 })
    );
    assert_eq!(
        columns_of(&conn, "t"),
        vec![
            ("f0".to_string(), "text".to_string()),
            ("f1".to_string(), "text".to_string()),
            ("f2".to_string(), "text".to_string())
        ]
    );
    assert_eq!(rows_of(&conn, "t"), vec![strs(&["x", "y", "z"]), strs(&["1", "2", "3"])]);
}

#[test]
fn empty_file_has_no_schema() {
    let conn = Connection::open_in_memory().unwrap();
    assert_eq!(load(&conn, &options(false, 0), "t", ""), Err(LoadError::EmptySchema));
    assert_eq!(load(&conn, &options(true, 0), "t", ""), Err(LoadError::EmptySchema));
    assert_eq!(columns_of(&conn, "t"), Vec::new());
}

#[test]
fn header_without_data_has_no_schema() {
    let conn = Connection::open_in_memory().unwrap();
    assert_eq!(load(&conn, &options(true, 0), "t", "a,b\n"), Err(LoadError::EmptySchema));
    assert_eq!(columns_of(&conn, "t"), Vec::new());
}

#[test]
fn mismatch_with_the_table_sends_nothing() {
    let conn = Connection::open_in_memory().unwrap();
    let cfg = options(true, 0);
    assert_eq!(
        load(&conn, &cfg, "t", "a,b\n1,2\n"),
        Ok(LoadOutcome { rows_written: 1, fields_written: 2 })
    );
    let res = load(&conn, &cfg, "t", "b,a\n3,4\n");
    assert_eq!(
        res,
        Err(LoadError::SchemaMismatch(csv2lite::error::SchemaMismatchError::Name {
            position: 0,
            expected: "a".to_string(),
            found: "b".to_string()
        }))
    );
    assert_eq!(rows_of(&conn, "t"), vec![strs(&["1", "2"])]);
}

#[test]
fn tolerated_width_is_left_to_the_store() {
    let conn = Connection::open_in_memory().unwrap();
    let mut cfg = options(true, 0);
    cfg.ignore_field_count = true;
    let res = load(&conn, &cfg, "t", "a,b\n1,2\n3\n");
    assert!(matches!(res, Err(LoadError::StoreAccess(_))));
    assert_eq!(rows_of(&conn, "t"), Vec::<Vec<String>>::new());
}

#[test]
fn comment_lines_and_other_separators_are_honoured() {
    let conn = Connection::open_in_memory().unwrap();
    let mut cfg = options(true, 0);
    cfg.field_sep = b'|';
    cfg.comment = Some(b'#');
    assert_eq!(
        load(&conn, &cfg, "t", "a|b\n# not data\n1|\"2|3\"\n"),
        Ok(LoadOutcome { rows_written: 1, fields_written: 2 })
    );
    assert_eq!(rows_of(&conn, "t"), vec![strs(&["1", "2|3"])]);
}

#[test]
fn bytes_that_are_not_text_are_malformed() {
    let conn = Connection::open_in_memory().unwrap();
    let cfg = options(true, 0);
    let mut session = Session::new(&conn);
    let bytes: &[u8] = b"a,b\n1,\xff\n";
    let mut probe = Records::over_bytes(&cfg, bytes);
    let mut data = Records::over_bytes(&cfg, bytes);
    let res = load_file(&cfg, &mut session, &mut probe, &mut data, "t");
    assert!(matches!(res, Err(LoadError::MalformedRecord(_))));
    assert_eq!(columns_of(&conn, "t"), Vec::new());
}

#[test]
fn overwrite_with_a_file_that_fails_the_probe_keeps_the_table() {
    let conn = Connection::open_in_memory().unwrap();
    assert_eq!(
        load(&conn, &options(true, 0), "t", "a,b\n1,2\n"),
        Ok(LoadOutcome { rows_written: 1, fields_written: 2 })
    );
    let mut cfg = options(true, 0);
    cfg.overwrite_tables = true;
    assert_eq!(load(&conn, &cfg, "t", "a,b\n"), Err(LoadError::EmptySchema));
    assert_eq!(rows_of(&conn, "t"), vec![strs(&["1", "2"])]);
}

#[test]
fn overwrite_replaces_the_schema() {
    let conn = Connection::open_in_memory().unwrap();
    assert_eq!(
        load(&conn, &options(true, 0), "t", "a,b\n1,2\n"),
        Ok(LoadOutcome { rows_written: 1, fields_written: 2 })
    );
    let mut cfg = options(true, 0);
    cfg.overwrite_tables = true;
    assert_eq!(
        load(&conn, &cfg, "t", "x,y,z\n7,8,9\n"),
        Ok(LoadOutcome { rows_written: 1, fields_written: 3 })
    );
    assert_eq!(rows_of(&conn, "t"), vec![strs(&["7", "8", "9"])]);
    assert_eq!(
        columns_of(&conn, "t"),
        vec![
            ("x".to_string(), "text".to_string()),
            ("y".to_string(), "text".to_string()),
            ("z".to_string(), "text".to_string())
        ]
    );
}

#[test]
fn failed_load_after_a_good_one_keeps_the_good_rows() {
    let conn = Connection::open_in_memory().unwrap();
    let cfg = options(true, 1);
    assert_eq!(
        load(&conn, &cfg, "t", "a,b\n1,2\n3,4\n"),
        Ok(LoadOutcome { rows_written: 2, fields_written: 4 })
    );
    let before = rows_of(&conn, "t");
    let res = append(&conn, &cfg, "t", "a,b\n5,6\n7,8\n9,10\n11\n");
    assert_eq!(res, Err(LoadError::RowWidth(RowWidthError { line: 5, expected: 2, found: 1 })));
    assert_eq!(rows_of(&conn, "t"), before);
    assert!(conn.is_autocommit());
}
