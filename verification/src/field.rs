//! Column descriptors and the schemas they form.

use crate::text::{decimal, push_decimal, texts};
use vstd::prelude::*;

verus! {

/// One column of a schema.
#[derive(Debug, Clone, PartialEq, Eq)]
pub struct Field {
    /// Zero-based ordinal of the column within its schema.
    pub pos: u32,
    /// Column name, used verbatim as the store's column identifier.
    pub name: String,
    /// Declared type of the column.
    pub db_type: String,
}

/// What a [`Field`] stands for.
pub struct Column {
    pub pos: nat,
    pub name: Seq<char>,
    pub db_type: Seq<char>,
}

impl View for Field {
    type V = Column;

    open spec fn view(&self) -> Column {
        Column { pos: self.pos as nat, name: self.name@, db_type: self.db_type@ }
    }
}

/// The columns that a sequence of fields stands for.
pub open spec fn columns(fields: Seq<Field>) -> Seq<Column> {
    fields.map_values(|f: Field| f@)
}

/// The one declared type that inferred columns get.
pub open spec fn text_type() -> Seq<char> {
    "text"@
}

/// The positions of a schema count up from zero without a gap.
pub open spec fn ordered(schema: Seq<Column>) -> bool {
    forall|i: int| 0 <= i < schema.len() ==> (#[trigger] schema[i]).pos == i
}

/// Every column of a schema has a name.
pub open spec fn named(schema: Seq<Column>) -> bool {
    forall|i: int| 0 <= i < schema.len() ==> (#[trigger] schema[i]).name.len() > 0
}

/// The schema that a header record names: one text column per header field.
pub open spec fn named_columns(names: Seq<Seq<char>>) -> Seq<Column> {
    Seq::new(names.len(), |i: int| Column { pos: i as nat, name: names[i], db_type: text_type() })
}

/// The name given to the column at position `i` of a file without a header.
pub open spec fn numbered_name(i: nat) -> Seq<char> {
    seq!['f'] + decimal(i)
}

/// The schema of a file without a header: `width` text columns named by their position.
pub open spec fn numbered_columns(width: nat) -> Seq<Column> {
    Seq::new(width, |i: int| Column { pos: i as nat, name: numbered_name(i as nat), db_type: text_type() })
}

/// Columns named by their position are in order and all have a name. Columns named by a
/// header are in order, and all have a name exactly when no header field is empty.
pub proof fn lemma_inferred_columns(names: Seq<Seq<char>>, width: nat)
    ensures
        ordered(numbered_columns(width)),
        named(numbered_columns(width)),
        numbered_columns(width).len() == width,
        ordered(named_columns(names)),
        named_columns(names).len() == names.len(),
        named(named_columns(names)) <==> forall|i: int|
            0 <= i < names.len() ==> (#[trigger] names[i]).len() > 0,
{
    if named(named_columns(names)) {
        assert forall|i: int| 0 <= i < names.len() implies (#[trigger] names[i]).len() > 0 by {
            assert(named_columns(names)[i].name == names[i]);
        }
    }
}

/// A text column at `pos` called `name`.
pub fn text_field(pos: u32, name: String) -> (f: Field)
    ensures
        f@ == (Column { pos: pos as nat, name: name@, db_type: text_type() }),
{
    Field { pos, name, db_type: String::from_str("text") }
}

/// Builds the schema that the header fields `names` describe.
pub fn header_fields(names: &Vec<String>) -> (fields: Vec<Field>)
    requires
        names.len() <= u32::MAX,
    ensures
        columns(fields@) == named_columns(texts(names@)),
        ordered(columns(fields@)),
{
    let mut fields: Vec<Field> = Vec::new();
    let mut i: usize = 0;
    while i < names.len()
        invariant
            0 <= i <= names.len(),
            names.len() <= u32::MAX,
            fields.len() == i,
            forall|j: int| 0 <= j < i ==> (#[trigger] fields[j])@ == named_columns(texts(names@))[j],
        decreases names.len() - i,
    {
        let f = text_field(i as u32, names[i].clone());
        fields.push(f);
        i = i + 1;
    }
    assert(columns(fields@) =~= named_columns(texts(names@)));
    fields
}

/// Builds the schema of a headerless file whose records have `width` fields.
pub fn numbered_fields(width: u32) -> (fields: Vec<Field>)
    ensures
        columns(fields@) == numbered_columns(width as nat),
        ordered(columns(fields@)),
{
    let mut fields: Vec<Field> = Vec::new();
    let mut i: u32 = 0;
    while i < width
        invariant
            0 <= i <= width,
            fields.len() == i,
            forall|j: int| 0 <= j < i ==> (#[trigger] fields[j])@ == numbered_columns(width as nat)[j],
        decreases width - i,
    {
        proof {
            reveal_strlit("f");
        }
        let mut name = String::from_str("f");
        push_decimal(&mut name, i as u64);
        assert(name@ =~= numbered_name(i as nat));
        fields.push(text_field(i, name));
        i = i + 1;
    }
    assert(columns(fields@) =~= numbered_columns(width as nat));
    fields
}

} // verus!
