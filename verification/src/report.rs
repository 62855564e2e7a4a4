//! What is said to the user about one file.

use crate::error::{LoadError, SchemaMismatchError};
use crate::load::LoadOutcome;
use crate::text::{decimal, push_decimal};
use vstd::prelude::*;

verus! {

/// The message for a divergence between the schemas of `table` and of `file`.
pub open spec fn mismatch_described(m: SchemaMismatchError, table: Seq<char>, file: Seq<char>) -> Seq<
    char,
> {
    let place = "  table: "@ + table + "  file: "@ + file;
    match m {
        SchemaMismatchError::FieldCount { expected, found } =>
            "Schema diff in number of fields: table fields "@ + decimal(expected as nat)
            + " vs file field "@ + decimal(found as nat) + place,
        SchemaMismatchError::Name { expected, found, .. } =>
            "Schema diff in name: table field "@ + expected@ + " vs file field "@ + found@ + place,
        SchemaMismatchError::Type { expected, found, .. } =>
            "Schema diff in type: table field "@ + expected@ + " vs file field "@ + found@ + place,
    }
}

/// The message for a load of `file` into `table` that was abandoned for `e`.
pub open spec fn described(e: LoadError, table: Seq<char>, file: Seq<char>) -> Seq<char> {
    match e {
        LoadError::Io(msg) => "Cannot read file \""@ + file + "\", due to error: "@ + msg@,
        LoadError::MalformedRecord(msg) => "Malformed record in file \""@ + file + "\": "@ + msg@,
        LoadError::EmptySchema => "Did not find anything (empty?) to schema-check on file: "@
            + file,
        LoadError::SchemaInconsistency(e) => "Field count inconsistency: line: "@ + decimal(
            e.line as nat,
        ) + "  field count: "@ + decimal(e.found as nat) + "  expected field count: "@ + decimal(
            e.expected as nat,
        ) + "  file: "@ + file,
        LoadError::SchemaMismatch(m) => mismatch_described(m, table, file),
        LoadError::RowWidth(e) => "Error trying batch insert record "@ + file + ":"@ + decimal(
            e.line as nat,
        ) + " field expected: "@ + decimal(e.expected as nat) + "  fields found: "@ + decimal(
            e.found as nat,
        ),
        LoadError::StoreAccess(msg) => "Store error on table \""@ + table + "\": "@ + msg@,
        LoadError::TooLarge => "Too many records or fields to count in file: "@ + file,
    }
}

/// The message for a load that went through.
pub open spec fn summarized(outcome: LoadOutcome, table: Seq<char>) -> Seq<char> {
    "Loaded "@ + decimal(outcome.rows_written as nat) + "/"@ + decimal(
        outcome.fields_written as nat,
    ) + " rows/fields into \""@ + table + "\""@
}

fn describe_mismatch(m: &SchemaMismatchError, tablename: &str, file: &str) -> (s: String)
    ensures
        s@ == mismatch_described(*m, tablename@, file@),
{
    let mut s = String::new();
    match m {
        SchemaMismatchError::FieldCount { expected, found } => {
            s.append("Schema diff in number of fields: table fields ");
            push_decimal(&mut s, *expected as u64);
            s.append(" vs file field ");
            push_decimal(&mut s, *found as u64);
        },
        SchemaMismatchError::Name { expected, found, .. } => {
            s.append("Schema diff in name: table field ");
            s.append(expected.as_str());
            s.append(" vs file field ");
            s.append(found.as_str());
        },
        SchemaMismatchError::Type { expected, found, .. } => {
            s.append("Schema diff in type: table field ");
            s.append(expected.as_str());
            s.append(" vs file field ");
            s.append(found.as_str());
        },
    }
    s.append("  table: ");
    s.append(tablename);
    s.append("  file: ");
    s.append(file);
    assert(s@ =~= mismatch_described(*m, tablename@, file@));
    s
}

impl LoadError {
    /// Says, for the user, why the load of `file` into `tablename` was abandoned.
    pub fn describe(&self, tablename: &str, file: &str) -> (s: String)
        ensures
            s@ == described(*self, tablename@, file@),
    {
        let mut s = String::new();
        match self {
            LoadError::Io(msg) => {
                s.append("Cannot read file \"");
                s.append(file);
                s.append("\", due to error: ");
                s.append(msg.as_str());
            },
            LoadError::MalformedRecord(msg) => {
                s.append("Malformed record in file \"");
                s.append(file);
                s.append("\": ");
                s.append(msg.as_str());
            },
            LoadError::EmptySchema => {
                s.append("Did not find anything (empty?) to schema-check on file: ");
                s.append(file);
            },
            LoadError::SchemaInconsistency(e) => {
                s.append("Field count inconsistency: line: ");
                push_decimal(&mut s, e.line);
                s.append("  field count: ");
                push_decimal(&mut s, e.found as u64);
                s.append("  expected field count: ");
                push_decimal(&mut s, e.expected as u64);
                s.append("  file: ");
                s.append(file);
            },
            LoadError::SchemaMismatch(m) => {
                return describe_mismatch(m, tablename, file);
            },
            LoadError::RowWidth(e) => {
                s.append("Error trying batch insert record ");
                s.append(file);
                s.append(":");
                push_decimal(&mut s, e.line);
                s.append(" field expected: ");
                push_decimal(&mut s, e.expected as u64);
                s.append("  fields found: ");
                push_decimal(&mut s, e.found as u64);
            },
            LoadError::StoreAccess(msg) => {
                s.append("Store error on table \"");
                s.append(tablename);
                s.append("\": ");
                s.append(msg.as_str());
            },
            LoadError::TooLarge => {
                s.append("Too many records or fields to count in file: ");
                s.append(file);
            },
        }
        assert(s@ =~= described(*self, tablename@, file@));
        s
    }
}

impl LoadOutcome {
    /// Says, for the user, what a load into `tablename` has written.
    pub fn summary(&self, tablename: &str) -> (s: String)
        ensures
            s@ == summarized(*self, tablename@),
    {
        let mut s = String::from_str("Loaded ");
        push_decimal(&mut s, self.rows_written);
        s.append("/");
        push_decimal(&mut s, self.fields_written);
        s.append(" rows/fields into \"");
        s.append(tablename);
        s.append("\"");
        assert(s@ =~= summarized(*self, tablename@));
        s
    }
}

} // verus!
