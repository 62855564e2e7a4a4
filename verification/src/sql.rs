//! The statements sent to the store, as text.

use crate::field::{columns, Column, Field};
use crate::text::{decimal, join, lemma_join_step, push_decimal};
use vstd::prelude::*;

verus! {

/// A column name as an identifier: in square brackets.
pub open spec fn bracketed(name: Seq<char>) -> Seq<char> {
    "["@ + name + "]"@
}

/// The names of a schema, each as an identifier.
pub open spec fn identifiers(schema: Seq<Column>) -> Seq<Seq<char>> {
    Seq::new(schema.len(), |i: int| bracketed(schema[i].name))
}

/// The parameter that takes the field at position `i`: numbered from one.
pub open spec fn placeholder(i: int) -> Seq<char> {
    "?"@ + decimal((i + 1) as nat)
}

/// The parameters for `width` fields.
pub open spec fn placeholders(width: nat) -> Seq<Seq<char>> {
    Seq::new(width, |i: int| placeholder(i))
}

/// The definition of one column: a tab, the name as an identifier, the declared type.
pub open spec fn column_def(c: Column) -> Seq<char> {
    "\t["@ + c.name + "] "@ + c.db_type
}

/// The definitions of the columns of a schema.
pub open spec fn column_defs(schema: Seq<Column>) -> Seq<Seq<char>> {
    Seq::new(schema.len(), |i: int| column_def(schema[i]))
}

/// The statement that inserts one record into `table`: the columns of the schema by name,
/// and one numbered parameter for each.
pub open spec fn insert_text(table: Seq<char>, schema: Seq<Column>) -> Seq<char> {
    "insert into "@ + table + " ( "@ + join(identifiers(schema), ", "@) + " ) \nvalues( "@ + join(
        placeholders(schema.len()),
        ", "@,
    ) + " );"@
}

/// The statement that creates `table` with exactly the columns of the schema.
pub open spec fn create_text(table: Seq<char>, schema: Seq<Column>) -> Seq<char> {
    "create table "@ + table + " (\n"@ + join(column_defs(schema), ","@) + "\n);"@
}

/// The statement that drops `table`.
pub open spec fn drop_text(table: Seq<char>) -> Seq<char> {
    "drop table "@ + table + ";"@
}

/// The query for the columns of `table`.
pub open spec fn table_info_text(table: Seq<char>) -> Seq<char> {
    "pragma table_info("@ + table + ");"@
}

fn push_identifiers(out: &mut String, f_sch: &Vec<Field>)
    ensures
        final(out)@ == old(out)@ + join(identifiers(columns(f_sch@)), ", "@),
{
    let ghost parts = identifiers(columns(f_sch@));
    let mut i: usize = 0;
    while i < f_sch.len()
        invariant
            0 <= i <= f_sch.len(),
            parts == identifiers(columns(f_sch@)),
            out@ == old(out)@ + join(parts.take(i as int), ", "@),
        decreases f_sch.len() - i,
    {
        proof {
            lemma_join_step(parts, ", "@, i as int);
        }
        if i > 0 {
            out.append(", ");
        }
        out.append("[");
        out.append(f_sch[i].name.as_str());
        out.append("]");
        i = i + 1;
        assert(out@ =~= old(out)@ + join(parts.take(i as int), ", "@));
    }
    assert(parts.take(f_sch.len() as int) =~= parts);
}

fn push_placeholders(out: &mut String, width: usize)
    ensures
        final(out)@ == old(out)@ + join(placeholders(width as nat), ", "@),
{
    let ghost parts = placeholders(width as nat);
    let mut i: usize = 0;
    while i < width
        invariant
            0 <= i <= width,
            parts == placeholders(width as nat),
            out@ == old(out)@ + join(parts.take(i as int), ", "@),
        decreases width - i,
    {
        proof {
            lemma_join_step(parts, ", "@, i as int);
        }
        if i > 0 {
            out.append(", ");
        }
        out.append("?");
        push_decimal(out, (i + 1) as u64);
        i = i + 1;
        assert(out@ =~= old(out)@ + join(parts.take(i as int), ", "@));
    }
    assert(parts.take(width as int) =~= parts);
}

fn push_column_defs(out: &mut String, f_sch: &Vec<Field>)
    ensures
        final(out)@ == old(out)@ + join(column_defs(columns(f_sch@)), ","@),
{
    let ghost parts = column_defs(columns(f_sch@));
    let mut i: usize = 0;
    while i < f_sch.len()
        invariant
            0 <= i <= f_sch.len(),
            parts == column_defs(columns(f_sch@)),
            out@ == old(out)@ + join(parts.take(i as int), ","@),
        decreases f_sch.len() - i,
    {
        proof {
            lemma_join_step(parts, ","@, i as int);
        }
        if i > 0 {
            out.append(",");
        }
        out.append("\t[");
        out.append(f_sch[i].name.as_str());
        out.append("] ");
        out.append(f_sch[i].db_type.as_str());
        i = i + 1;
        assert(out@ =~= old(out)@ + join(parts.take(i as int), ","@));
    }
    assert(parts.take(f_sch.len() as int) =~= parts);
}

/// Writes the statement that inserts one record with the columns of `f_sch` into `tablename`.
pub fn insert_sql(tablename: &str, f_sch: &Vec<Field>) -> (sql: String)
    ensures
        sql@ == insert_text(tablename@, columns(f_sch@)),
{
    let mut sql = String::from_str("insert into ");
    sql.append(tablename);
    sql.append(" ( ");
    push_identifiers(&mut sql, f_sch);
    sql.append(" ) \nvalues( ");
    push_placeholders(&mut sql, f_sch.len());
    sql.append(" );");
    assert(sql@ =~= insert_text(tablename@, columns(f_sch@)));
    sql
}

/// Writes the statement that creates `tablename` with the columns of `f_sch`.
pub fn create_sql(tablename: &str, f_sch: &Vec<Field>) -> (sql: String)
    ensures
        sql@ == create_text(tablename@, columns(f_sch@)),
{
    let mut sql = String::from_str("create table ");
    sql.append(tablename);
    sql.append(" (\n");
    push_column_defs(&mut sql, f_sch);
    sql.append("\n);");
    assert(sql@ =~= create_text(tablename@, columns(f_sch@)));
    sql
}

/// Writes the statement that drops `tablename`.
pub fn drop_sql(tablename: &str) -> (sql: String)
    ensures
        sql@ == drop_text(tablename@),
{
    let mut sql = String::from_str("drop table ");
    sql.append(tablename);
    sql.append(";");
    assert(sql@ =~= drop_text(tablename@));
    sql
}

/// Writes the query for the columns of `tablename`.
pub fn table_info_sql(tablename: &str) -> (sql: String)
    ensures
        sql@ == table_info_text(tablename@),
{
    let mut sql = String::from_str("pragma table_info(");
    sql.append(tablename);
    sql.append(");");
    assert(sql@ =~= table_info_text(tablename@));
    sql
}

} // verus!
