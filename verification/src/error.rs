//! What can go wrong while one file is loaded.

use vstd::prelude::*;

verus! {

/// A sampled record whose field count differs from the reference width.
#[derive(Debug, Clone, Copy, PartialEq, Eq, Structural)]
pub struct SchemaInconsistencyError {
    /// One-based number of the offending record.
    pub line: u64,
    /// Field count of the offending record.
    pub found: usize,
    /// The reference width.
    pub expected: usize,
}

/// A data record whose field count differs from the schema's width.
#[derive(Debug, Clone, Copy, PartialEq, Eq, Structural)]
pub struct RowWidthError {
    /// One-based number of the offending record.
    pub line: u64,
    /// Width of the schema.
    pub expected: usize,
    /// Field count of the offending record.
    pub found: usize,
}

/// The three ways in which a file's schema can diverge from a table's.
#[derive(Debug, Clone, Copy, PartialEq, Eq, Structural)]
pub enum MismatchKind {
    FieldCount,
    Name,
    Type,
}

/// A divergence between the schema of a table and that of a file.
/// `expected` is what the table has, `found` what the file has.
#[derive(Debug, Clone, PartialEq, Eq)]
pub enum SchemaMismatchError {
    FieldCount { expected: usize, found: usize },
    Name { position: usize, expected: String, found: String },
    Type { position: usize, expected: String, found: String },
}

/// What a [`SchemaMismatchError`] stands for.
pub enum Mismatch {
    FieldCount { expected: nat, found: nat },
    Name { position: nat, expected: Seq<char>, found: Seq<char> },
    Type { position: nat, expected: Seq<char>, found: Seq<char> },
}

impl View for SchemaMismatchError {
    type V = Mismatch;

    open spec fn view(&self) -> Mismatch {
        match *self {
            SchemaMismatchError::FieldCount { expected, found } => Mismatch::FieldCount {
                expected: expected as nat,
                found: found as nat,
            },
            SchemaMismatchError::Name { position, expected, found } => Mismatch::Name {
                position: position as nat,
                expected: expected@,
                found: found@,
            },
            SchemaMismatchError::Type { position, expected, found } => Mismatch::Type {
                position: position as nat,
                expected: expected@,
                found: found@,
            },
        }
    }
}

impl SchemaMismatchError {
    /// Which of the three divergences this is.
    pub fn kind(&self) -> (k: MismatchKind)
        ensures
            k == MismatchKind::FieldCount <==> self@ is FieldCount,
            k == MismatchKind::Name <==> self@ is Name,
            k == MismatchKind::Type <==> self@ is Type,
    {
        match self {
            SchemaMismatchError::FieldCount { .. } => MismatchKind::FieldCount,
            SchemaMismatchError::Name { .. } => MismatchKind::Name,
            SchemaMismatchError::Type { .. } => MismatchKind::Type,
        }
    }
}

/// Why the load of one file was abandoned.
#[derive(Debug, Clone, PartialEq, Eq)]
pub enum LoadError {
    /// The input stream could not be read; holds the reader's message.
    Io(String),
    /// A record broke the text format; holds the reader's message.
    MalformedRecord(String),
    /// The file gave nothing from which a schema could be taken.
    EmptySchema,
    /// The sampled records disagree on their width.
    SchemaInconsistency(SchemaInconsistencyError),
    /// The file's schema does not fit the table's.
    SchemaMismatch(SchemaMismatchError),
    /// A data record has the wrong width.
    RowWidth(RowWidthError),
    /// The store refused an operation; holds the store's message.
    StoreAccess(String),
    /// The input holds more records, or the load more fields, than a 64-bit counter can number.
    TooLarge,
}

} // verus!
