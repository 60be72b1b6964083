//! The loosely-typed cell value read from one sheet position.
//!
//! This library holds no floating-point values: every floating-point reading
//! of a cell that the coercion matrix needs travels as plain data prepared by
//! the boundary that builds the cells — the IEEE-754 bit pattern of the
//! value, its truncation toward zero, and its canonical decimal rendering.

use vstd::prelude::*;

verus! {

/// One untyped data value from one sheet position.
///
/// A closed tagged union: the coercion matrix dispatches on the variant by
/// explicit matching, so every (target type, cell kind) pair is covered.
#[derive(Debug, Clone, PartialEq)]
pub enum Cell {
    /// An integer cell: its value, with two boundary-prepared readings —
    /// the bit pattern of the value widened to a 64-bit float, and the
    /// instant the value names when read as an Excel serial date-time, as
    /// whole nanoseconds since the epoch (UTC), `None` where that count
    /// does not fit a 64-bit integer.
    Int { value: i64, widened_bits: u64, serial_nanos: Option<i64> },
    /// A floating-point cell, entirely as prepared by the boundary: its
    /// IEEE-754 bit pattern, its truncation toward zero saturated to the
    /// 64-bit integer range, its canonical decimal rendering, and the
    /// instant it names when read as an Excel serial date-time, as whole
    /// nanoseconds since the epoch (UTC) where representable.
    Float { bits: u64, truncated: i64, rendered: String, serial_nanos: Option<i64> },
    /// A text cell: the text itself, and the bit pattern of the value it
    /// parses to as a 64-bit floating-point literal where it fully matches
    /// one, prepared by the boundary.
    Str { text: String, parsed_float_bits: Option<u64> },
    /// A boolean cell.
    Bool { value: bool },
    /// A date-time cell: its instant as whole nanoseconds since the epoch
    /// (UTC), or `None` where that count does not fit a 64-bit integer,
    /// and its display form as the source renders it.
    DateTime { nanos: Option<i64>, rendered: String },
    /// Any cell kind the engine does not represent (an error marker, an
    /// empty cell, a duration), kept only as its display form.
    Other { rendered: String },
}

} // verus!
