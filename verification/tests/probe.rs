use csv2lite::config::CliCfg;
use csv2lite::error::{LoadError, SchemaInconsistencyError};
use csv2lite::field::{header_fields, numbered_fields, text_field, Field};
use csv2lite::probe::{check_sample, conclude, detect_file_schema, sample_limit_of, FileSchema};
use csv2lite::record::Records;
use std::path::PathBuf;

fn probe_options(header: bool, sample: u64, ignore: bool) -> CliCfg {
    CliCfg {
        files: Vec::new(),
        file_re: None,
        tablename: None,
        db_file: PathBuf::new(),
        verbose: 0,
        field_sep: b',',
        overwrite_tables: false,
        quote: b'"',
        escape: None,
        comment: None,
        headeron: header,
        sanity_sample: sample,
        ignore_field_count: ignore,
        sqls: Vec::new(),
        out_delimiter: ",".to_string(),
        memory: false,
    }
}

fn probe_text(cfg: &CliCfg, text: &str) -> (Result<FileSchema, LoadError>, u64) {
    let mut records = Records::over_bytes(cfg, text.as_bytes());
    let res = detect_file_schema(cfg, &mut records);
    (res, records.handed_out())
}

fn text(pos: u32, name: &str) -> Field {
    Field { pos, name: name.to_string(), db_type: "text".to_string() }
}

#[test]
fn header_names_the_columns() {
    let (res, read) = probe_text(&probe_options(true, 0, false), "id,name\n1,x\n2,y\n");
    assert_eq!(
        res,
        Ok(FileSchema { fields: vec![text(0, "id"), text(1, "name")], width: 2, header_present: true })
    );
    assert_eq!(read, 3);
}

#[test]
fn positions_name_the_columns_without_a_header() {
    let (res, read) = probe_text(&probe_options(false, 0, false), "1,x,q\n2,y,r\n");
    assert_eq!(
        res,
        Ok(FileSchema {
            fields: vec![text(0, "f0"), text(1, "f1"), text(2, "f2")],
            width: 3,
            header_present: false
        })
    );
    assert_eq!(read, 2);
}

#[test]
fn sample_bounds_the_records_read() {
    let body = "a,b\n1,2\n3,4\n5,6\n7,8\n";
    assert_eq!(probe_text(&probe_options(true, 1, false), body).1, 2);
    assert_eq!(probe_text(&probe_options(true, 3, false), body).1, 4);
    assert_eq!(probe_text(&probe_options(false, 1, false), body).1, 1);
    assert_eq!(probe_text(&probe_options(false, 3, false), body).1, 3);
    assert_eq!(probe_text(&probe_options(false, 0, false), body).1, 5);
    assert_eq!(probe_text(&probe_options(true, 100, false), body).1, 5);
}

#[test]
fn sample_limit_counts_the_header() {
    assert_eq!(sample_limit_of(false, 0), u64::MAX);
    assert_eq!(sample_limit_of(true, 0), u64::MAX);
    assert_eq!(sample_limit_of(false, 5), 5);
    assert_eq!(sample_limit_of(true, 5), 6);
    assert_eq!(sample_limit_of(true, u64::MAX), u64::MAX);
    assert_eq!(sample_limit_of(false, u64::MAX), u64::MAX);
    assert_eq!(sample_limit_of(true, u64::MAX - 1), u64::MAX);
}

#[test]
fn drift_inside_the_sample_is_reported_at_its_line() {
    let (res, read) = probe_text(&probe_options(true, 0, false), "a,b\n1,2\n3\n4,5\n6\n");
    assert_eq!(
        res,
        Err(LoadError::SchemaInconsistency(SchemaInconsistencyError { line: 3, found: 1, expected: 2 }))
    );
    assert_eq!(read, 3);
}

#[test]
fn drift_in_the_first_data_record_is_reported() {
    let (res, _) = probe_text(&probe_options(true, 0, false), "a,b\n1,2,3\n");
    assert_eq!(
        res,
        Err(LoadError::SchemaInconsistency(SchemaInconsistencyError { line: 2, found: 3, expected: 2 }))
    );
}

#[test]
fn drift_beyond_the_sample_is_not_seen() {
    let (res, read) = probe_text(&probe_options(true, 1, false), "a,b\n1,2\n3\n");
    assert_eq!(
        res,
        Ok(FileSchema { fields: vec![text(0, "a"), text(1, "b")], width: 2, header_present: true })
    );
    assert_eq!(read, 2);
}

#[test]
fn drift_is_let_through_when_ignored() {
    let (res, read) = probe_text(&probe_options(false, 0, true), "1,2\n3\n4,5,6\n");
    assert_eq!(
        res,
        Ok(FileSchema { fields: vec![text(0, "f0"), text(1, "f1")], width: 2, header_present: false })
    );
    assert_eq!(read, 3);
}

#[test]
fn nothing_to_probe_is_an_empty_schema() {
    assert_eq!(probe_text(&probe_options(false, 0, false), "").0, Err(LoadError::EmptySchema));
    assert_eq!(probe_text(&probe_options(true, 0, false), "").0, Err(LoadError::EmptySchema));
    assert_eq!(probe_text(&probe_options(true, 0, false), "a,b\n").0, Err(LoadError::EmptySchema));
    assert_eq!(probe_text(&probe_options(true, 7, false), "a,b\n").0, Err(LoadError::EmptySchema));
    let mut cfg = probe_options(false, 0, false);
    cfg.comment = Some(b'#');
    assert_eq!(probe_text(&cfg, "# a\n# b\n").0, Err(LoadError::EmptySchema));
}

#[test]
fn one_record_without_header_is_enough() {
    let (res, _) = probe_text(&probe_options(false, 0, false), "only\n");
    assert_eq!(res, Ok(FileSchema { fields: vec![text(0, "f0")], width: 1, header_present: false }));
}

#[test]
fn unreadable_bytes_end_the_probe() {
    let cfg = probe_options(true, 0, false);
    let bytes: &[u8] = b"a,b\n\xff\xfe,2\n";
    let mut records = Records::over_bytes(&cfg, bytes);
    let res = detect_file_schema(&cfg, &mut records);
    assert!(matches!(res, Err(LoadError::MalformedRecord(_))));
}

#[test]
fn sampled_widths_are_checked() {
    assert_eq!(check_sample(2, 3, 3, false), Ok(()));
    assert_eq!(
        check_sample(9, 4, 3, false),
        Err(SchemaInconsistencyError { line: 9, found: 4, expected: 3 })
    );
    assert_eq!(check_sample(9, 4, 3, true), Ok(()));
    assert_eq!(check_sample(9, 0, 0, false), Ok(()));
}

#[test]
fn conclusion_needs_a_data_record_and_a_width() {
    let names = vec!["a".to_string(), "b".to_string()];
    assert_eq!(conclude(true, &names, 2, 1), Err(LoadError::EmptySchema));
    assert_eq!(conclude(true, &names, 2, 0), Err(LoadError::EmptySchema));
    assert_eq!(
        conclude(true, &names, 2, 2),
        Ok(FileSchema { fields: vec![text(0, "a"), text(1, "b")], width: 2, header_present: true })
    );
    assert_eq!(conclude(false, &Vec::new(), 0, 3), Err(LoadError::EmptySchema));
    assert_eq!(conclude(false, &Vec::new(), 2, 0), Err(LoadError::EmptySchema));
    assert_eq!(
        conclude(false, &Vec::new(), 1, 1),
        Ok(FileSchema { fields: vec![text(0, "f0")], width: 1, header_present: false })
    );
}

#[test]
fn fields_are_built_in_order() {
    assert_eq!(text_field(4, "x".to_string()), text(4, "x"));
    assert_eq!(
        header_fields(&vec!["b".to_string(), "a".to_string(), "b".to_string()]),
        vec![text(0, "b"), text(1, "a"), text(2, "b")]
    );
    assert_eq!(header_fields(&Vec::new()), Vec::new());
    let many = numbered_fields(12);
    assert_eq!(many.len(), 12);
    assert_eq!(many[0], text(0, "f0"));
    assert_eq!(many[9], text(9, "f9"));
    assert_eq!(many[10], text(10, "f10"));
    assert_eq!(many[11], text(11, "f11"));
    assert_eq!(numbered_fields(0), Vec::new());
}
