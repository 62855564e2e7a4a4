use csv2lite::emit::{header_line, row_line, val_append, Value};

#[test]
fn values_are_appended_as_written() {
    let mut s = String::new();
    val_append(&mut s, Value::Null);
    assert_eq!(s, "NULL");
    val_append(&mut s, Value::Integer(-17));
    assert_eq!(s, "NULL-17");
    val_append(&mut s, Value::Text("a b".to_string()));
    assert_eq!(s, "NULL-17a b");
    val_append(&mut s, Value::Blob(vec![1, 2, 3]));
    assert_eq!(s, "NULL-17a b..BLOB..");
    val_append(&mut s, Value::Real("1.5".to_string()));
    assert_eq!(s, "NULL-17a b..BLOB..1.5");
    val_append(&mut s, Value::Integer(0));
    assert_eq!(s, "NULL-17a b..BLOB..1.50");
}

#[test]
fn header_line_joins_the_names() {
    assert_eq!(header_line(&vec!["a".to_string(), "b".to_string(), "c".to_string()], ","), "a,b,c");
    assert_eq!(header_line(&vec!["a".to_string(), "b".to_string()], " | "), "a | b");
    assert_eq!(header_line(&vec!["only".to_string()], ","), "only");
    assert_eq!(header_line(&Vec::new(), ","), "");
}

#[test]
fn row_line_joins_the_values() {
    let row = vec![
        Value::Integer(1),
        Value::Null,
        Value::Text("x,y".to_string()),
        Value::Blob(Vec::new()),
        Value::Real("-0.25".to_string()),
        Value::Integer(i64::MIN),
    ];
    assert_eq!(row_line(&row, ";"), "1;NULL;x,y;..BLOB..;-0.25;-9223372036854775808");
    assert_eq!(row_line(&vec![Value::Text("".to_string())], ";"), "");
    assert_eq!(row_line(&vec![Value::Null, Value::Null], ""), "NULLNULL");
    assert_eq!(row_line(&Vec::new(), ";"), "");
}
