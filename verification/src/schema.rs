//! The target column schema, and its inference from a header row.

use vstd::prelude::*;

use crate::cell::Cell;
use crate::numtext::{int_to_decimal, spec_dec_str};

verus! {

/// The target type a schema entry declares for its column.
///
/// The five implemented targets, plus `Other` for a declared type the
/// converter does not implement, carried by its display name; a schema may
/// be supplied externally, so the set of declarable types is open.
#[derive(Debug, Clone, PartialEq)]
pub enum ColumnType {
    Int64,
    Float64,
    Utf8,
    Boolean,
    TimestampNanosecond,
    Other { name: String },
}

/// One schema entry: a column name and the target type governing the
/// column at this entry's position.
#[derive(Debug, Clone, PartialEq)]
pub struct Field {
    pub name: String,
    pub column_type: ColumnType,
}

/// An ordered, immutable sequence of schema entries; entry `i` governs
/// column `i` of every row. Never mutated by conversion: batches are built
/// against it and do not own it.
#[derive(Debug, Clone, PartialEq)]
pub struct Schema {
    pub fields: Vec<Field>,
}

/// The target type inferred from the kind of one header cell: each kind
/// maps to the target of the same shape, and any other kind falls back to
/// text.
pub open spec fn inferred_type(c: Cell) -> ColumnType {
    match c {
        Cell::Int { .. } => ColumnType::Int64,
        Cell::Float { .. } => ColumnType::Float64,
        Cell::Str { .. } => ColumnType::Utf8,
        Cell::Bool { .. } => ColumnType::Boolean,
        Cell::DateTime { .. } => ColumnType::TimestampNanosecond,
        Cell::Other { .. } => ColumnType::Utf8,
    }
}

/// The textual rendering of a header cell, used as the inferred column
/// name, whatever the cell's kind: integers and booleans render
/// canonically, and the other kinds carry the display form the source
/// gave them.
pub open spec fn cell_rendering(c: Cell) -> Seq<char> {
    match c {
        Cell::Int { value, .. } => spec_dec_str(value as int),
        Cell::Float { rendered, .. } => rendered@,
        Cell::Str { text, .. } => text@,
        Cell::Bool { value } => if value {
            "true"@
        } else {
            "false"@
        },
        Cell::DateTime { rendered, .. } => rendered@,
        Cell::Other { rendered } => rendered@,
    }
}

/// The textual rendering of one cell, as `cell_rendering` states it.
pub fn render_cell(c: &Cell) -> (r: String)
    ensures
        r@ == cell_rendering(*c),
{
    match c {
        Cell::Int { value, .. } => int_to_decimal(*value),
        Cell::Float { rendered, .. } => rendered.clone(),
        Cell::Str { text, .. } => text.clone(),
        Cell::Bool { value } => if *value {
            "true".to_owned()
        } else {
            "false".to_owned()
        },
        Cell::DateTime { rendered, .. } => rendered.clone(),
        Cell::Other { rendered } => rendered.clone(),
    }
}

/// Derive a schema from one header row: one entry per header cell, named
/// by the cell's rendering and typed by the cell's kind. Total over any
/// header row — no validation, no failure path.
pub fn infer_schema(header: &Vec<Cell>) -> (r: Schema)
    ensures
        r.fields@.len() == header@.len(),
        forall|i: int|
            0 <= i < header@.len() ==> (#[trigger] r.fields@[i]).column_type == inferred_type(
                header@[i],
            ) && r.fields@[i].name@ == cell_rendering(header@[i]),
{
    let mut fields: Vec<Field> = Vec::new();
    let mut i: usize = 0;
    while i < header.len()
        invariant
            i <= header@.len(),
            fields@.len() == i,
            forall|k: int|
                0 <= k < i ==> (#[trigger] fields@[k]).column_type == inferred_type(header@[k])
                    && fields@[k].name@ == cell_rendering(header@[k]),
        decreases header@.len() - i,
    {
        let c = &header[i];
        let column_type = match c {
            Cell::Int { .. } => ColumnType::Int64,
            Cell::Float { .. } => ColumnType::Float64,
            Cell::Str { .. } => ColumnType::Utf8,
            Cell::Bool { .. } => ColumnType::Boolean,
            Cell::DateTime { .. } => ColumnType::TimestampNanosecond,
            Cell::Other { .. } => ColumnType::Utf8,
        };
        let name = render_cell(c);
        fields.push(Field { name, column_type });
        i += 1;
    }
    Schema { fields }
}

} // verus!
