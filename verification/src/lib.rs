//! A tabular-to-columnar conversion engine.
//!
//! Loosely-typed rows of cells, as a spreadsheet reader produces them, are
//! converted against a declared column schema into fixed-size, strongly-typed
//! columnar batches, with per-column type coercion and a null-on-failure
//! policy.

pub mod cell;
pub mod coerce;
pub mod convert;
pub mod numtext;
pub mod schema;
pub mod timeparse;
