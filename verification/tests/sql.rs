use csv2lite::field::Field;
use csv2lite::sql::{create_sql, drop_sql, insert_sql, table_info_sql};

fn column(pos: u32, name: &str, db_type: &str) -> Field {
    Field { pos, name: name.to_string(), db_type: db_type.to_string() }
}

#[test]
fn insert_statement_names_columns_and_numbers_parameters() {
    let schema = vec![column(0, "a", "text"), column(1, "b c", "text"), column(2, "d", "text")];
    assert_eq!(
        insert_sql("t", &schema),
        "insert into t ( [a], [b c], [d] ) \nvalues( ?1, ?2, ?3 );"
    );
    assert_eq!(insert_sql("one", &vec![column(0, "x", "text")]), "insert into one ( [x] ) \nvalues( ?1 );");
    assert_eq!(insert_sql("none", &Vec::new()), "insert into none (  ) \nvalues(  );");
}

#[test]
fn insert_statement_numbers_beyond_nine() {
    let schema: Vec<Field> = (0..11).map(|i| column(i, &format!("f{}", i), "text")).collect();
    assert_eq!(
        insert_sql("w", &schema),
        "insert into w ( [f0], [f1], [f2], [f3], [f4], [f5], [f6], [f7], [f8], [f9], [f10] ) \nvalues( ?1, ?2, ?3, ?4, ?5, ?6, ?7, ?8, ?9, ?10, ?11 );"
    );
}

#[test]
fn create_statement_lists_every_column() {
    let schema = vec![column(0, "a", "text"), column(1, "b", "text")];
    assert_eq!(create_sql("t", &schema), "create table t (\n\t[a] text,\t[b] text\n);");
    assert_eq!(create_sql("t", &vec![column(0, "a", "integer")]), "create table t (\n\t[a] integer\n);");
    assert_eq!(create_sql("t", &Vec::new()), "create table t (\n\n);");
}

#[test]
fn drop_and_inspect_statements() {
    assert_eq!(drop_sql("flights"), "drop table flights;");
    assert_eq!(table_info_sql("flights"), "pragma table_info(flights);");
}
