//! Tests of records: field typing, null semantics, and template
//! formatting.

use msica::{Engine, ErrorKind, Field, Record};

#[test]
fn set_string_data_null() {
    let mut engine = Engine::new();
    let record = Record::with_fields(
        &mut engine,
        None,
        vec![Field::StringData("test".to_owned())],
    )
    .unwrap();
    assert_eq!(record.string_data(&engine, 1).unwrap(), "test");

    record.set_string_data(&mut engine, 1, None).unwrap();
    assert!(record.is_null(&engine, 1));
    assert_eq!(record.string_data(&engine, 1).unwrap(), "");
}

#[test]
fn integer_data_from_string() {
    let mut engine = Engine::new();
    let record = Record::with_fields(
        &mut engine,
        None,
        vec![Field::StringData("test".to_owned())],
    )
    .unwrap();
    assert_eq!(record.integer_data(&engine, 1), None);
}

#[test]
fn template_round_trip() {
    // The template written into field 0 reads back unchanged.
    let mut engine = Engine::new();
    let record = Record::with_fields(&mut engine, Some("x"), vec![]).unwrap();
    assert_eq!(record.string_data(&engine, 0).unwrap(), "x");
}

#[test]
fn field_typing() {
    let mut engine = Engine::new();
    let record = Record::new(&mut engine, 1);
    record.set_integer_data(&mut engine, 1, 42).unwrap();
    assert_eq!(record.integer_data(&engine, 1), Some(42));
    assert_eq!(record.string_data(&engine, 1).unwrap(), "42");
}

#[test]
fn fresh_record_is_null() {
    let mut engine = Engine::new();
    let record = Record::new(&mut engine, 1);
    assert!(record.is_null(&engine, 1));
    assert_eq!(record.field_count(&engine), 1);
}

#[test]
fn null_integer_sentinel_clears() {
    let mut engine = Engine::new();
    let record = Record::new(&mut engine, 1);
    record.set_integer_data(&mut engine, 1, 42).unwrap();
    record.set_integer_data(&mut engine, 1, i32::MIN).unwrap();
    assert!(record.is_null(&engine, 1));
    assert_eq!(record.integer_data(&engine, 1), None);
}

#[test]
fn negative_integer_renders_signed() {
    let mut engine = Engine::new();
    let record = Record::new(&mut engine, 1);
    record.set_integer_data(&mut engine, 1, -7).unwrap();
    assert_eq!(record.string_data(&engine, 1).unwrap(), "-7");
}

#[test]
fn field_index_out_of_range() {
    let mut engine = Engine::new();
    let record = Record::new(&mut engine, 1);
    let error = record.set_string_data(&mut engine, 5, Some("x")).unwrap_err();
    assert_eq!(ErrorKind::ErrorCode(87), error.kind());
    let error = record.string_data(&engine, 5).unwrap_err();
    assert_eq!(ErrorKind::ErrorCode(87), error.kind());
}

#[test]
fn embedded_nul_is_conversion_error() {
    let mut engine = Engine::new();
    let record = Record::new(&mut engine, 1);
    let error = record.set_string_data(&mut engine, 1, Some("a\0b")).unwrap_err();
    assert_eq!(ErrorKind::DataConversion, error.kind());
    assert!(record.is_null(&engine, 1));
}

#[test]
fn format_drops_null_braced_span() {
    let mut engine = Engine::new();
    let record = Record::with_fields(
        &mut engine,
        Some("this is [1] [2]{ without [3]}"),
        vec![
            Field::IntegerData(1),
            Field::StringData("example".to_owned()),
            Field::Null,
        ],
    )
    .unwrap();
    assert_eq!(record.format_text(&engine).unwrap(), "this is 1 example");
}

#[test]
fn format_keeps_defined_braced_span() {
    let mut engine = Engine::new();
    let record = Record::with_fields(
        &mut engine,
        Some("v[1]{ and [2]}"),
        vec![
            Field::IntegerData(3),
            Field::StringData("more".to_owned()),
        ],
    )
    .unwrap();
    assert_eq!(record.format_text(&engine).unwrap(), "v3 and more");
}

#[test]
fn format_literal_text() {
    let mut engine = Engine::new();
    let record = Record::with_fields(&mut engine, Some("plain [x] {"), vec![]).unwrap();
    assert_eq!(record.format_text(&engine).unwrap(), "plain [x] {");
}

#[test]
fn with_fields_counts_fields() {
    let mut engine = Engine::new();
    let record = Record::with_fields(
        &mut engine,
        Some("this is [1] [2]"),
        vec![
            Field::IntegerData(1),
            Field::StringData("example".to_owned()),
        ],
    )
    .expect("failed to create record");
    assert_eq!(record.field_count(&engine), 2);
    assert_eq!(record.string_data(&engine, 2).unwrap(), "example");
    assert_eq!(record.integer_data(&engine, 1), Some(1));
}

#[test]
fn format_without_template_is_empty() {
    let mut engine = Engine::new();
    let record = Record::new(&mut engine, 1);
    record.set_string_data(&mut engine, 1, Some("ignored")).unwrap();
    assert_eq!(record.format_text(&engine).unwrap(), "");
}

#[test]
fn format_out_of_range_reference_substitutes_nothing() {
    let mut engine = Engine::new();
    let record = Record::with_fields(&mut engine, Some("[99]ok"), vec![]).unwrap();
    assert_eq!(record.format_text(&engine).unwrap(), "ok");
}

#[test]
fn stream_data_yields_nothing() {
    let mut engine = Engine::new();
    let record = Record::new(&mut engine, 1);
    assert!(record.stream_data(&engine, 1).is_empty());
}
