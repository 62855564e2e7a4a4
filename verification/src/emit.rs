//! Result sets as delimited text.

use crate::text::{join, lemma_join_step, push_joined, push_signed_decimal, signed_decimal, texts};
use vstd::prelude::*;

verus! {

/// One value of a result row.
#[derive(Debug, Clone, PartialEq, Eq)]
pub enum Value {
    /// No value.
    Null,
    /// A whole number.
    Integer(i64),
    /// A text.
    Text(String),
    /// Raw bytes.
    Blob(Vec<u8>),
    /// A real number, held as the decimal text that stands for it.
    Real(String),
}

/// What a [`Value`] stands for.
pub enum Shown {
    Null,
    Integer(int),
    Text(Seq<char>),
    Blob(Seq<u8>),
    Real(Seq<char>),
}

impl View for Value {
    type V = Shown;

    open spec fn view(&self) -> Shown {
        match *self {
            Value::Null => Shown::Null,
            Value::Integer(i) => Shown::Integer(i as int),
            Value::Text(t) => Shown::Text(t@),
            Value::Blob(b) => Shown::Blob(b@),
            Value::Real(t) => Shown::Real(t@),
        }
    }
}

/// How a value is written: a fixed word for no value, decimal text for numbers, a text as it
/// is, and a fixed mark in place of raw bytes.
pub open spec fn rendered(v: Shown) -> Seq<char> {
    match v {
        Shown::Null => "NULL"@,
        Shown::Integer(i) => signed_decimal(i),
        Shown::Text(t) => t,
        Shown::Blob(_) => "..BLOB.."@,
        Shown::Real(t) => t,
    }
}

/// The values of a row, each as it is written.
pub open spec fn rendered_row(values: Seq<Value>) -> Seq<Seq<char>> {
    Seq::new(values.len(), |i: int| rendered(values[i]@))
}

fn push_value(s: &mut String, val: &Value)
    ensures
        final(s)@ == old(s)@ + rendered(val@),
{
    match val {
        Value::Null => s.append("NULL"),
        Value::Integer(v) => push_signed_decimal(s, *v),
        Value::Text(v) => s.append(v.as_str()),
        Value::Blob(_) => s.append("..BLOB.."),
        Value::Real(v) => s.append(v.as_str()),
    }
}

/// Appends `val`, as it is written, to `s`.
pub fn val_append(s: &mut String, val: Value)
    ensures
        final(s)@ == old(s)@ + rendered(val@),
{
    push_value(s, &val)
}

/// The header line of a report: the column names with the delimiter between them.
pub fn header_line(names: &Vec<String>, delimiter: &str) -> (line: String)
    ensures
        line@ == join(texts(names@), delimiter@),
{
    let mut line = String::new();
    push_joined(&mut line, names, delimiter);
    assert(line@ =~= join(texts(names@), delimiter@));
    line
}

/// One line of a report: the values of a row, as they are written, with the delimiter between
/// them.
pub fn row_line(values: &Vec<Value>, delimiter: &str) -> (line: String)
    ensures
        line@ == join(rendered_row(values@), delimiter@),
{
    let ghost parts = rendered_row(values@);
    let mut line = String::new();
    let mut i: usize = 0;
    while i < values.len()
        invariant
            0 <= i <= values.len(),
            parts == rendered_row(values@),
            line@ == join(parts.take(i as int), delimiter@),
        decreases values.len() - i,
    {
        proof {
            lemma_join_step(parts, delimiter@, i as int);
        }
        if i > 0 {
            line.append(delimiter);
        }
        push_value(&mut line, &values[i]);
        i = i + 1;
        assert(line@ =~= join(parts.take(i as int), delimiter@));
    }
    assert(parts.take(values.len() as int) =~= parts);
    line
}

} // verus!
