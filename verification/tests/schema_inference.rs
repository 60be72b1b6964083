use x2arrow::cell::Cell;
use x2arrow::schema::{infer_schema, ColumnType};

fn float_cell(v: f64) -> Cell {
    Cell::Float {
        bits: v.to_bits(),
        truncated: v as i64,
        rendered: v.to_string(),
        serial_nanos: None,
    }
}

fn header_row() -> Vec<Cell> {
    vec![
        Cell::Int {
            value: -7,
            widened_bits: (-7.0f64).to_bits(),
            serial_nanos: None,
        },
        float_cell(2.5),
        Cell::Str {
            text: "name".to_string(),
            parsed_float_bits: None,
        },
        Cell::Bool { value: false },
        // A date-time header keeps the display form its source gave it —
        // for an Excel serial date-time, the serial value.
        Cell::DateTime {
            nanos: Some(123),
            rendered: "45306.4375".to_string(),
        },
        // An error cell keeps its display text.
        Cell::Other {
            rendered: "#DIV/0!".to_string(),
        },
    ]
}

#[test]
fn header_kinds_map_to_target_types() {
    let schema = infer_schema(&header_row());
    assert_eq!(schema.fields.len(), 6);
    let types: Vec<&ColumnType> = schema.fields.iter().map(|f| &f.column_type).collect();
    assert_eq!(*types[0], ColumnType::Int64);
    assert_eq!(*types[1], ColumnType::Float64);
    assert_eq!(*types[2], ColumnType::Utf8);
    assert_eq!(*types[3], ColumnType::Boolean);
    assert_eq!(*types[4], ColumnType::TimestampNanosecond);
    assert_eq!(*types[5], ColumnType::Utf8);
}

#[test]
fn entry_names_are_the_header_cells_display_forms() {
    let schema = infer_schema(&header_row());
    let names: Vec<&str> = schema.fields.iter().map(|f| f.name.as_str()).collect();
    assert_eq!(
        names,
        vec!["-7", "2.5", "name", "false", "45306.4375", "#DIV/0!"]
    );
}

#[test]
fn empty_header_gives_empty_schema() {
    let schema = infer_schema(&Vec::new());
    assert_eq!(schema.fields.len(), 0);
}
