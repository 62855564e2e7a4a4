use csv2lite::error::{MismatchKind, SchemaMismatchError};
use csv2lite::field::Field;
use csv2lite::reconcile::{reconcile, Plan};

fn col(pos: u32, name: &str, db_type: &str) -> Field {
    Field { pos, name: name.to_string(), db_type: db_type.to_string() }
}

#[test]
fn absent_table_is_created() {
    let file = vec![col(0, "a", "text"), col(1, "b", "text")];
    assert_eq!(reconcile(&Vec::new(), &file, false), Ok(Plan::Create));
    assert_eq!(reconcile(&Vec::new(), &file, true), Ok(Plan::Create));
    assert_eq!(reconcile(&Vec::new(), &Vec::new(), false), Ok(Plan::Create));
}

#[test]
fn equal_schemas_are_validated() {
    let table = vec![col(0, "a", "text"), col(1, "b", "text")];
    let file = vec![col(0, "a", "text"), col(1, "b", "text")];
    assert_eq!(reconcile(&table, &file, false), Ok(Plan::Validate));
    assert_eq!(reconcile(&table, &file, true), Ok(Plan::Validate));
}

#[test]
fn same_names_in_another_order_do_not_fit() {
    let table = vec![col(0, "a", "text"), col(1, "b", "text")];
    let file = vec![col(0, "b", "text"), col(1, "a", "text")];
    let expected = SchemaMismatchError::Name {
        position: 0,
        expected: "a".to_string(),
        found: "b".to_string(),
    };
    assert_eq!(reconcile(&table, &file, false), Err(expected.clone()));
    assert_eq!(reconcile(&table, &file, true), Err(expected));
}

#[test]
fn count_is_reported_before_names() {
    let table = vec![col(0, "a", "text"), col(1, "b", "text")];
    let file = vec![col(0, "x", "text")];
    assert_eq!(
        reconcile(&table, &file, false),
        Err(SchemaMismatchError::FieldCount { expected: 2, found: 1 })
    );
    assert_eq!(
        reconcile(&table, &file, true),
        Err(SchemaMismatchError::Name { position: 0, expected: "a".to_string(), found: "x".to_string() })
    );
}

#[test]
fn count_can_be_ignored_but_positions_cannot() {
    let table = vec![col(0, "a", "text"), col(1, "b", "text")];
    let longer = vec![col(0, "a", "text"), col(1, "b", "text"), col(2, "c", "text")];
    let shorter = vec![col(0, "a", "text")];
    assert_eq!(
        reconcile(&table, &longer, false),
        Err(SchemaMismatchError::FieldCount { expected: 2, found: 3 })
    );
    assert_eq!(reconcile(&table, &longer, true), Ok(Plan::Validate));
    assert_eq!(reconcile(&table, &shorter, true), Ok(Plan::Validate));
    let off = vec![col(0, "a", "text"), col(1, "z", "text"), col(2, "c", "text")];
    assert_eq!(
        reconcile(&table, &off, true),
        Err(SchemaMismatchError::Name { position: 1, expected: "b".to_string(), found: "z".to_string() })
    );
}

#[test]
fn type_is_reported_where_names_agree() {
    let table = vec![col(0, "a", "text"), col(1, "b", "integer")];
    let file = vec![col(0, "a", "text"), col(1, "b", "text")];
    assert_eq!(
        reconcile(&table, &file, false),
        Err(SchemaMismatchError::Type {
            position: 1,
            expected: "integer".to_string(),
            found: "text".to_string()
        })
    );
}

#[test]
fn first_divergence_wins_and_name_goes_before_type() {
    let table = vec![col(0, "a", "int"), col(1, "b", "text"), col(2, "c", "text")];
    let file = vec![col(0, "a", "int"), col(1, "x", "blob"), col(2, "y", "text")];
    assert_eq!(
        reconcile(&table, &file, false),
        Err(SchemaMismatchError::Name { position: 1, expected: "b".to_string(), found: "x".to_string() })
    );
}

#[test]
fn positions_are_those_of_the_sequence() {
    let table = vec![col(7, "a", "text"), col(3, "b", "text")];
    let file = vec![col(0, "a", "text"), col(1, "b", "text")];
    assert_eq!(reconcile(&table, &file, false), Ok(Plan::Validate));
}

#[test]
fn kinds_of_mismatch() {
    assert_eq!(SchemaMismatchError::FieldCount { expected: 1, found: 2 }.kind(), MismatchKind::FieldCount);
    assert_eq!(
        SchemaMismatchError::Name { position: 0, expected: "a".to_string(), found: "b".to_string() }.kind(),
        MismatchKind::Name
    );
    assert_eq!(
        SchemaMismatchError::Type { position: 0, expected: "a".to_string(), found: "b".to_string() }.kind(),
        MismatchKind::Type
    );
}
