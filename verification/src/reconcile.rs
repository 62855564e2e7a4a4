//! Deciding whether a file fits a table: by position, never by name.

use crate::error::{Mismatch, SchemaMismatchError};
use crate::field::{columns, Column, Field};
use vstd::prelude::*;

verus! {

/// What to do with the table before the load.
#[derive(Debug, Clone, Copy, PartialEq, Eq, Structural)]
pub enum Plan {
    /// The table is not there: create it with the file's columns.
    Create,
    /// The table is there and fits: append to it.
    Validate,
}

/// The columns at `i` of the two schemas have the same name and the same declared type.
pub open spec fn agree_at(table: Seq<Column>, file: Seq<Column>, i: int) -> bool {
    table[i].name == file[i].name && table[i].db_type == file[i].db_type
}

/// Two schemas are compatible when they are equally long and agree at every position.
pub open spec fn compatible(table: Seq<Column>, file: Seq<Column>) -> bool {
    &&& table.len() == file.len()
    &&& forall|i: int| 0 <= i < table.len() ==> agree_at(table, file, i)
}

/// The number of positions that both schemas have.
pub open spec fn shared(table: Seq<Column>, file: Seq<Column>) -> int {
    if table.len() <= file.len() {
        table.len() as int
    } else {
        file.len() as int
    }
}

/// The first among the positions `0 .. n` at which the schemas do not agree, if there is one.
pub open spec fn first_conflict(table: Seq<Column>, file: Seq<Column>, n: int) -> Option<int>
    decreases n,
{
    if n <= 0 {
        None
    } else {
        match first_conflict(table, file, n - 1) {
            Some(i) => Some(i),
            None => if agree_at(table, file, n - 1) {
                None
            } else {
                Some(n - 1)
            },
        }
    }
}

/// The divergence at position `i`: the names where they differ, else the declared types.
pub open spec fn conflict_at(table: Seq<Column>, file: Seq<Column>, i: int) -> Mismatch {
    if table[i].name != file[i].name {
        Mismatch::Name { position: i as nat, expected: table[i].name, found: file[i].name }
    } else {
        Mismatch::Type { position: i as nat, expected: table[i].db_type, found: file[i].db_type }
    }
}

/// The outcome of holding the schema of a file against that of a table.
///
/// A table without columns is absent and gets created. Otherwise the counts must be equal,
/// unless `ignore_field_count` lets that pass, and the shared positions must agree, which
/// nothing lets pass. The count is reported before any position, and of the positions the
/// first.
pub open spec fn reconciled(table: Seq<Column>, file: Seq<Column>, ignore_field_count: bool) -> Result<
    Plan,
    Mismatch,
> {
    if table.len() == 0 {
        Ok(Plan::Create)
    } else if !ignore_field_count && table.len() != file.len() {
        Err(Mismatch::FieldCount { expected: table.len(), found: file.len() })
    } else {
        match first_conflict(table, file, shared(table, file)) {
            Some(i) => Err(conflict_at(table, file, i)),
            None => Ok(Plan::Validate),
        }
    }
}

/// The first conflict is the least position at which the schemas do not agree.
pub proof fn lemma_first_conflict_is_least(table: Seq<Column>, file: Seq<Column>, n: int)
    ensures
        first_conflict(table, file, n) matches Some(i) ==> {
            &&& 0 <= i < n
            &&& !agree_at(table, file, i)
            &&& forall|j: int| 0 <= j < i ==> agree_at(table, file, j)
        },
        first_conflict(table, file, n) is None ==> forall|j: int|
            0 <= j < n ==> agree_at(table, file, j),
    decreases n,
{
    if n > 0 {
        lemma_first_conflict_is_least(table, file, n - 1);
    }
}

/// A first disagreement stays the first conflict however far one looks beyond it.
pub proof fn lemma_first_conflict_found(table: Seq<Column>, file: Seq<Column>, i: int, n: int)
    requires
        0 <= i < n,
        first_conflict(table, file, i) is None,
        !agree_at(table, file, i),
    ensures
        first_conflict(table, file, n) == Some(i),
    decreases n,
{
    if n > i + 1 {
        lemma_first_conflict_found(table, file, i, n - 1);
    }
}

/// With the count policed, a file is appended to a table exactly when the two schemas are
/// compatible.
pub proof fn lemma_validate_iff_compatible(table: Seq<Column>, file: Seq<Column>)
    requires
        table.len() > 0,
    ensures
        reconciled(table, file, false) == Ok::<Plan, Mismatch>(Plan::Validate) <==> compatible(
            table,
            file,
        ),
{
    lemma_first_conflict_is_least(table, file, shared(table, file));
}

/// Compatibility goes by position. Where the names at one shared position of a table that is
/// there differ, the file is refused, whatever names stand elsewhere and whatever is ignored:
/// the same names in another order do not fit.
pub proof fn lemma_reconcile_is_positional(
    table: Seq<Column>,
    file: Seq<Column>,
    ignore_field_count: bool,
    i: int,
)
    requires
        0 <= i < table.len(),
        i < file.len(),
        table[i].name != file[i].name,
    ensures
        reconciled(table, file, ignore_field_count) is Err,
        reconciled(table, file, ignore_field_count) matches Err(Mismatch::Name { position, .. })
            ==> position <= i,
        reconciled(table, file, ignore_field_count) matches Err(Mismatch::Type { position, .. })
            ==> position < i,
{
    lemma_first_conflict_is_least(table, file, shared(table, file));
    assert(!agree_at(table, file, i));
}

/// Holds the schema of a file against the schema of a table.
pub fn reconcile(table: &Vec<Field>, file: &Vec<Field>, ignore_field_count: bool) -> (res: Result<
    Plan,
    SchemaMismatchError,
>)
    ensures
        match res {
            Ok(plan) => reconciled(columns(table@), columns(file@), ignore_field_count) == Ok::<
                Plan,
                Mismatch,
            >(plan),
            Err(e) => reconciled(columns(table@), columns(file@), ignore_field_count) == Err::<
                Plan,
                Mismatch,
            >(e@),
        },
{
    let ghost t = columns(table@);
    let ghost f = columns(file@);
    if table.len() == 0 {
        return Ok(Plan::Create);
    }
    if !ignore_field_count && table.len() != file.len() {
        return Err(SchemaMismatchError::FieldCount { expected: table.len(), found: file.len() });
    }
    let n = if table.len() <= file.len() {
        table.len()
    } else {
        file.len()
    };
    let mut i: usize = 0;
    while i < n
        invariant
            0 <= i <= n,
            table.len() > 0,
            ignore_field_count || table.len() == file.len(),
            n == shared(t, f),
            t == columns(table@),
            f == columns(file@),
            first_conflict(t, f, i as int) is None,
        decreases n - i,
    {
        proof {
            if !agree_at(t, f, i as int) {
                lemma_first_conflict_found(t, f, i as int, n as int);
            }
        }
        if table[i].name != file[i].name {
            return Err(
                SchemaMismatchError::Name {
                    position: i,
                    expected: table[i].name.clone(),
                    found: file[i].name.clone(),
                },
            );
        } else if table[i].db_type != file[i].db_type {
            return Err(
                SchemaMismatchError::Type {
                    position: i,
                    expected: table[i].db_type.clone(),
                    found: file[i].db_type.clone(),
                },
            );
        }
        i = i + 1;
    }
    Ok(Plan::Validate)
}

} // verus!
