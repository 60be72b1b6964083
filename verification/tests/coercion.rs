use calamine::{Data, DataType as CalamineDataType};
use x2arrow::cell::Cell;
use x2arrow::coerce::{
    coerce_boolean_at, coerce_float64_at, coerce_int64_at, coerce_timestamp_at, coerce_utf8_at,
};

// The boundary readings, prepared the same way the application layer
// prepares them: the serial conversion is bounded, since calamine panics
// far outside Excel's serial range.
fn serial_nanos(d: &Data) -> Option<i64> {
    let in_range = match d {
        Data::Int(v) => (-200_000..=200_000).contains(v),
        Data::Float(f) => f.is_finite() && f.abs() <= 200_000.0,
        _ => true,
    };
    if in_range {
        d.as_datetime()
            .and_then(|ndt| ndt.and_utc().timestamp_nanos_opt())
    } else {
        None
    }
}

fn int_cell(v: i64) -> Cell {
    Cell::Int {
        value: v,
        widened_bits: (v as f64).to_bits(),
        serial_nanos: serial_nanos(&Data::Int(v)),
    }
}

fn float_cell(v: f64) -> Cell {
    Cell::Float {
        bits: v.to_bits(),
        truncated: v as i64,
        rendered: v.to_string(),
        serial_nanos: serial_nanos(&Data::Float(v)),
    }
}

fn str_cell(s: &str) -> Cell {
    Cell::Str {
        text: s.to_string(),
        parsed_float_bits: s.parse::<f64>().ok().map(|f| f.to_bits()),
    }
}

fn bool_cell(v: bool) -> Cell {
    Cell::Bool { value: v }
}

fn datetime_cell(nanos: Option<i64>) -> Cell {
    Cell::DateTime {
        nanos,
        rendered: "45306.4375".to_string(),
    }
}

fn other_cell() -> Cell {
    Cell::Other {
        rendered: String::new(),
    }
}

#[test]
fn int64_accepts_int_float_and_matching_text() {
    assert_eq!(coerce_int64_at(&vec![int_cell(5)], 0), Some(5));
    assert_eq!(coerce_int64_at(&vec![float_cell(3.7)], 0), Some(3));
    assert_eq!(coerce_int64_at(&vec![float_cell(-3.7)], 0), Some(-3));
    assert_eq!(coerce_int64_at(&vec![str_cell("123")], 0), Some(123));
    assert_eq!(coerce_int64_at(&vec![str_cell("+42")], 0), Some(42));
    assert_eq!(coerce_int64_at(&vec![str_cell("-7")], 0), Some(-7));
}

#[test]
fn int64_rejects_everything_else_as_null() {
    assert_eq!(coerce_int64_at(&vec![str_cell("12.5")], 0), None);
    assert_eq!(coerce_int64_at(&vec![str_cell("")], 0), None);
    assert_eq!(
        coerce_int64_at(&vec![str_cell("9223372036854775808")], 0),
        None
    );
    assert_eq!(coerce_int64_at(&vec![bool_cell(true)], 0), None);
    assert_eq!(coerce_int64_at(&vec![datetime_cell(Some(1))], 0), None);
    assert_eq!(coerce_int64_at(&vec![other_cell()], 0), None);
    // absent position
    assert_eq!(coerce_int64_at(&vec![], 0), None);
}

#[test]
fn int64_text_parse_edges() {
    assert_eq!(coerce_int64_at(&vec![str_cell("0042")], 0), Some(42));
    assert_eq!(
        coerce_int64_at(&vec![str_cell("9223372036854775807")], 0),
        Some(i64::MAX)
    );
    assert_eq!(
        coerce_int64_at(&vec![str_cell("+9223372036854775807")], 0),
        Some(i64::MAX)
    );
    assert_eq!(
        coerce_int64_at(&vec![str_cell("-9223372036854775808")], 0),
        Some(i64::MIN)
    );
    assert_eq!(
        coerce_int64_at(&vec![str_cell("-9223372036854775809")], 0),
        None
    );
    assert_eq!(coerce_int64_at(&vec![str_cell(" 42")], 0), None);
    assert_eq!(coerce_int64_at(&vec![str_cell("42 ")], 0), None);
    assert_eq!(coerce_int64_at(&vec![str_cell("4_2")], 0), None);
    assert_eq!(coerce_int64_at(&vec![str_cell("+")], 0), None);
    assert_eq!(coerce_int64_at(&vec![str_cell("-")], 0), None);
    assert_eq!(coerce_int64_at(&vec![str_cell("+-3")], 0), None);
}

#[test]
fn utf8_renders_integer_extremes() {
    assert_eq!(
        coerce_utf8_at(&vec![int_cell(i64::MIN)], 0),
        Some("-9223372036854775808".to_string())
    );
    assert_eq!(
        coerce_utf8_at(&vec![int_cell(i64::MAX)], 0),
        Some("9223372036854775807".to_string())
    );
    assert_eq!(coerce_utf8_at(&vec![int_cell(0)], 0), Some("0".to_string()));
}

#[test]
fn float64_accepts_float_int_and_matching_text() {
    assert_eq!(
        coerce_float64_at(&vec![float_cell(2.5)], 0),
        Some(2.5f64.to_bits())
    );
    assert_eq!(
        coerce_float64_at(&vec![int_cell(2)], 0),
        Some(2.0f64.to_bits())
    );
    assert_eq!(
        coerce_float64_at(&vec![str_cell("1.5")], 0),
        Some(1.5f64.to_bits())
    );
    assert_eq!(coerce_float64_at(&vec![str_cell("abc")], 0), None);
    assert_eq!(coerce_float64_at(&vec![bool_cell(false)], 0), None);
    assert_eq!(coerce_float64_at(&vec![other_cell()], 0), None);
}

#[test]
fn utf8_renders_accepted_kinds() {
    assert_eq!(
        coerce_utf8_at(&vec![str_cell("hello")], 0),
        Some("hello".to_string())
    );
    assert_eq!(coerce_utf8_at(&vec![int_cell(42)], 0), Some("42".to_string()));
    assert_eq!(
        coerce_utf8_at(&vec![int_cell(-17)], 0),
        Some("-17".to_string())
    );
    assert_eq!(
        coerce_utf8_at(&vec![float_cell(2.5)], 0),
        Some("2.5".to_string())
    );
    assert_eq!(
        coerce_utf8_at(&vec![bool_cell(true)], 0),
        Some("true".to_string())
    );
    assert_eq!(
        coerce_utf8_at(&vec![bool_cell(false)], 0),
        Some("false".to_string())
    );
    assert_eq!(coerce_utf8_at(&vec![datetime_cell(Some(5))], 0), None);
    assert_eq!(coerce_utf8_at(&vec![other_cell()], 0), None);
}

#[test]
fn boolean_accepts_only_bool() {
    assert_eq!(coerce_boolean_at(&vec![bool_cell(true)], 0), Some(true));
    assert_eq!(coerce_boolean_at(&vec![bool_cell(false)], 0), Some(false));
    assert_eq!(coerce_boolean_at(&vec![int_cell(1)], 0), None);
    assert_eq!(coerce_boolean_at(&vec![str_cell("true")], 0), None);
    assert_eq!(coerce_boolean_at(&vec![other_cell()], 0), None);
}

#[test]
fn timestamp_accepts_datetime_serial_and_pattern_text() {
    assert_eq!(
        coerce_timestamp_at(&vec![datetime_cell(Some(123))], 0),
        Some(123)
    );
    assert_eq!(coerce_timestamp_at(&vec![datetime_cell(None)], 0), None);
    assert_eq!(
        coerce_timestamp_at(&vec![str_cell("1970-01-01T00:00:01")], 0),
        Some(1_000_000_000)
    );
    assert_eq!(
        coerce_timestamp_at(&vec![str_cell("2024-01-15T10:30:00.500")], 0),
        Some(1_705_314_600_500_000_000)
    );
    assert_eq!(coerce_timestamp_at(&vec![str_cell("not a time")], 0), None);
    // Numeric cells are read as Excel serial date-times: serial 1 is
    // 1900-01-01T00:00:00, serial 45306.4375 is 2024-01-15T10:30:00 (UTC).
    assert_eq!(
        coerce_timestamp_at(&vec![int_cell(1)], 0),
        Some(-2_208_988_800_000_000_000)
    );
    assert_eq!(
        coerce_timestamp_at(&vec![float_cell(45306.4375)], 0),
        Some(1_705_314_600_000_000_000)
    );
    assert_eq!(coerce_timestamp_at(&vec![bool_cell(true)], 0), None);
    assert_eq!(coerce_timestamp_at(&vec![other_cell()], 0), None);
}
