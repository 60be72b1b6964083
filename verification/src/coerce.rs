//! The coercion matrix: for each target type, which source cell kinds are
//! accepted and how they convert; every other kind, and an absent cell,
//! degrades to null — never to an error.

use vstd::prelude::*;

use crate::cell::Cell;
use crate::numtext::{int_to_decimal, parse_int64, spec_dec_str, spec_parse_int64};
use crate::timeparse::{parse_timestamp_nanos, ts_parse_of};

verus! {

/// The cell at position `j` of a row, or `None` where the row is shorter.
pub open spec fn cell_at(row: Seq<Cell>, j: int) -> Option<Cell> {
    if 0 <= j < row.len() {
        Some(row[j])
    } else {
        None
    }
}

/// The integer64 slot for a cell: an integer as itself, a float truncated
/// toward zero, text parsed as a base-10 integer where it fully matches;
/// everything else is null.
pub open spec fn int64_slot(c: Option<Cell>) -> Option<i64> {
    match c {
        Some(Cell::Int { value, .. }) => Some(value),
        Some(Cell::Float { truncated, .. }) => Some(truncated),
        Some(Cell::Str { text, .. }) => spec_parse_int64(text@),
        _ => None,
    }
}

/// The float64 slot for a cell, as an IEEE-754 bit pattern: a float as
/// itself, an integer widened, text parsed as a floating-point literal
/// where it fully matches; everything else is null.
pub open spec fn float64_slot(c: Option<Cell>) -> Option<u64> {
    match c {
        Some(Cell::Float { bits, .. }) => Some(bits),
        Some(Cell::Int { widened_bits, .. }) => Some(widened_bits),
        Some(Cell::Str { parsed_float_bits, .. }) => parsed_float_bits,
        _ => None,
    }
}

/// The text slot for a cell: text as itself; an integer, float or boolean
/// as its canonical rendering; everything else is null.
pub open spec fn utf8_slot(c: Option<Cell>) -> Option<Seq<char>> {
    match c {
        Some(Cell::Str { text, .. }) => Some(text@),
        Some(Cell::Int { value, .. }) => Some(spec_dec_str(value as int)),
        Some(Cell::Float { rendered, .. }) => Some(rendered@),
        Some(Cell::Bool { value }) => Some(if value { "true"@ } else { "false"@ }),
        _ => None,
    }
}

/// The character-sequence reading of an optional owned string.
pub open spec fn opt_str_view(o: Option<String>) -> Option<Seq<char>> {
    match o {
        Some(s) => Some(s@),
        None => None,
    }
}

/// The boolean slot for a cell: a boolean as itself; everything else is
/// null.
pub open spec fn boolean_slot(c: Option<Cell>) -> Option<bool> {
    match c {
        Some(Cell::Bool { value }) => Some(value),
        _ => None,
    }
}

/// The fixed pattern a text cell is parsed with when targeted at
/// timestamp-nanosecond: `YYYY-MM-DDTHH:MM:SS[.fraction]`.
pub open spec fn spec_ts_format() -> Seq<char> {
    "%Y-%m-%dT%H:%M:%S%.f"@
}

/// The timestamp-nanosecond slot for a cell: a date-time cell as its
/// nanosecond count since the epoch (UTC) where representable; an integer
/// or float cell as the instant it names when read as an Excel serial
/// date-time, where representable; a text cell parsed with the fixed
/// pattern; everything else is null.
pub open spec fn timestamp_slot(c: Option<Cell>) -> Option<i64> {
    match c {
        Some(Cell::DateTime { nanos, .. }) => nanos,
        Some(Cell::Int { serial_nanos, .. }) => serial_nanos,
        Some(Cell::Float { serial_nanos, .. }) => serial_nanos,
        Some(Cell::Str { text, .. }) => ts_parse_of(text@, spec_ts_format()),
        _ => None,
    }
}

/// The integer64 coercion of the cell at position `j` of `row`.
pub fn coerce_int64_at(row: &Vec<Cell>, j: usize) -> (r: Option<i64>)
    ensures
        r == int64_slot(cell_at(row@, j as int)),
{
    if j < row.len() {
        match &row[j] {
            Cell::Int { value, .. } => Some(*value),
            Cell::Float { truncated, .. } => Some(*truncated),
            Cell::Str { text, .. } => parse_int64(text.as_str()),
            _ => None,
        }
    } else {
        None
    }
}

/// The float64 coercion of the cell at position `j` of `row`, as an
/// IEEE-754 bit pattern.
pub fn coerce_float64_at(row: &Vec<Cell>, j: usize) -> (r: Option<u64>)
    ensures
        r == float64_slot(cell_at(row@, j as int)),
{
    if j < row.len() {
        match &row[j] {
            Cell::Float { bits, .. } => Some(*bits),
            Cell::Int { widened_bits, .. } => Some(*widened_bits),
            Cell::Str { parsed_float_bits, .. } => *parsed_float_bits,
            _ => None,
        }
    } else {
        None
    }
}

/// The text coercion of the cell at position `j` of `row`.
pub fn coerce_utf8_at(row: &Vec<Cell>, j: usize) -> (r: Option<String>)
    ensures
        opt_str_view(r) == utf8_slot(cell_at(row@, j as int)),
{
    if j < row.len() {
        match &row[j] {
            Cell::Str { text, .. } => Some(text.clone()),
            Cell::Int { value, .. } => Some(int_to_decimal(*value)),
            Cell::Float { rendered, .. } => Some(rendered.clone()),
            Cell::Bool { value } => Some(
                if *value {
                    "true".to_owned()
                } else {
                    "false".to_owned()
                },
            ),
            _ => None,
        }
    } else {
        None
    }
}

/// The boolean coercion of the cell at position `j` of `row`.
pub fn coerce_boolean_at(row: &Vec<Cell>, j: usize) -> (r: Option<bool>)
    ensures
        r == boolean_slot(cell_at(row@, j as int)),
{
    if j < row.len() {
        match &row[j] {
            Cell::Bool { value } => Some(*value),
            _ => None,
        }
    } else {
        None
    }
}

/// The timestamp-nanosecond coercion of the cell at position `j` of `row`.
pub fn coerce_timestamp_at(row: &Vec<Cell>, j: usize) -> (r: Option<i64>)
    ensures
        r == timestamp_slot(cell_at(row@, j as int)),
{
    if j < row.len() {
        match &row[j] {
            Cell::DateTime { nanos, .. } => *nanos,
            Cell::Int { serial_nanos, .. } => *serial_nanos,
            Cell::Float { serial_nanos, .. } => *serial_nanos,
            Cell::Str { text, .. } => parse_timestamp_nanos(text.as_str(), "%Y-%m-%dT%H:%M:%S%.f"),
            _ => None,
        }
    } else {
        None
    }
}

/// Coercion never raises an error: for every target type, a cell of a kind
/// the matrix does not accept — and an absent cell — yields a null slot,
/// never a propagated failure.
pub proof fn lemma_coercion_never_throws(c: Option<Cell>)
    ensures
        !(c matches Some(Cell::Int { .. }) || c matches Some(Cell::Float { .. }) || c matches Some(
            Cell::Str { .. },
        )) ==> int64_slot(c) is None,
        !(c matches Some(Cell::Int { .. }) || c matches Some(Cell::Float { .. }) || c matches Some(
            Cell::Str { .. },
        )) ==> float64_slot(c) is None,
        !(c matches Some(Cell::Int { .. }) || c matches Some(Cell::Float { .. }) || c matches Some(
            Cell::Str { .. },
        ) || c matches Some(Cell::Bool { .. })) ==> utf8_slot(c) is None,
        !(c matches Some(Cell::Bool { .. })) ==> boolean_slot(c) is None,
        !(c matches Some(Cell::DateTime { .. }) || c matches Some(Cell::Str { .. }) || c matches Some(
            Cell::Int { .. },
        ) || c matches Some(Cell::Float { .. })) ==> timestamp_slot(c) is None,
{
}

} // verus!
