//! Tests of views and the database: execution sequencing, temporary
//! rows, primary keys, and last-error enrichment.

use msica::{last_error_record, Engine, ErrorKind, Field, ModifyMode, Record, Session};

#[test]
fn execute_twice_rejected() {
    // Executing an executing view is refused until the result set is
    // closed or exhausted.
    let mut engine = Engine::new();
    let session = Session::from_handle(engine.session_handle());
    let db = session.database(&mut engine);
    let view = db.open_view(&mut engine, "SELECT `A` FROM `T`").unwrap();
    view.execute(&mut engine, None).unwrap();
    let second = view.execute(&mut engine, None);
    assert!(second.is_err());
    view.close(&mut engine);
    view.execute(&mut engine, None).unwrap();
    view.release(&mut engine);
    db.release(&mut engine);
}

#[test]
fn temporary_rows_round_trip() {
    let mut engine = Engine::new();
    let session = Session::from_handle(engine.session_handle());
    let db = session.database(&mut engine);
    let view = db.open_view(&mut engine, "SELECT `Name`, `Count` FROM `Temp`").unwrap();
    view.execute(&mut engine, None).unwrap();
    let row = Record::with_fields(
        &mut engine,
        None,
        vec![Field::StringData("alpha".to_owned()), Field::IntegerData(3)],
    )
    .unwrap();
    view.modify(&mut engine, ModifyMode::InsertTemporary, &row).unwrap();
    row.release(&mut engine);
    view.close(&mut engine);

    view.execute(&mut engine, None).unwrap();
    let fetched = view.fetch(&mut engine).unwrap();
    assert_eq!(fetched.string_data(&engine, 1).unwrap(), "alpha");
    assert_eq!(fetched.integer_data(&engine, 2), Some(3));
    fetched.release(&mut engine);
    assert!(view.fetch(&mut engine).is_none());

    // Exhausting the rows released the result set, so execute may run
    // again without an explicit close.
    view.execute(&mut engine, None).unwrap();
    view.release(&mut engine);
    db.release(&mut engine);
}

#[test]
fn persistent_modify_rejected() {
    let mut engine = Engine::new();
    let session = Session::from_handle(engine.session_handle());
    let db = session.database(&mut engine);
    let view = db.open_view(&mut engine, "SELECT `A` FROM `T`").unwrap();
    view.execute(&mut engine, None).unwrap();
    let row = Record::new(&mut engine, 1);
    let error = view.modify(&mut engine, ModifyMode::Insert, &row).unwrap_err();
    assert_eq!(ErrorKind::ErrorCode(1627), error.kind());
    row.release(&mut engine);
    view.release(&mut engine);
    db.release(&mut engine);
}

#[test]
fn failure_prefers_last_error_record() {
    // A native failure is enriched with the engine's pending diagnostic
    // record, which the read consumes: the next failure falls back to
    // the bare status code.
    let mut engine = Engine::new();
    engine.set_last_error_record(vec![
        Field::StringData("boom [1]".to_owned()),
        Field::StringData("x".to_owned()),
    ]);
    let session = Session::from_handle(engine.session_handle());
    let db = session.database(&mut engine);
    let view = db.open_view(&mut engine, "SELECT `A` FROM `T`").unwrap();
    view.execute(&mut engine, None).unwrap();
    let row = Record::new(&mut engine, 1);
    let rich = view.modify(&mut engine, ModifyMode::Update, &row).unwrap_err();
    assert_eq!(ErrorKind::ErrorRecord, rich.kind());
    assert_eq!("boom x", rich.to_string());
    let bare = view.modify(&mut engine, ModifyMode::Update, &row).unwrap_err();
    assert_eq!(ErrorKind::ErrorCode(1627), bare.kind());
    row.release(&mut engine);
    view.release(&mut engine);
    db.release(&mut engine);
}

#[test]
fn last_error_record_is_consumed() {
    let mut engine = Engine::new();
    assert!(last_error_record(&mut engine).is_none());
    engine.set_last_error_record(vec![Field::StringData("diagnostic".to_owned())]);
    let record = last_error_record(&mut engine).unwrap();
    assert_eq!(record.format_text(&engine).unwrap(), "diagnostic");
    record.release(&mut engine);
    assert!(last_error_record(&mut engine).is_none());
}

#[test]
fn primary_keys_describe_table() {
    let mut engine = Engine::new();
    engine.define_table("Registry", vec!["Registry".to_owned(), "Root".to_owned()]);
    let session = Session::from_handle(engine.session_handle());
    let db = session.database(&mut engine);
    let keys = db.primary_keys(&mut engine, "Registry").unwrap();
    assert_eq!(keys.field_count(&engine), 2);
    assert_eq!(keys.string_data(&engine, 0).unwrap(), "Registry");
    assert_eq!(keys.string_data(&engine, 1).unwrap(), "Registry");
    assert_eq!(keys.string_data(&engine, 2).unwrap(), "Root");
    keys.release(&mut engine);

    let error = db.primary_keys(&mut engine, "NoSuchTable").unwrap_err();
    assert_eq!(ErrorKind::ErrorCode(1628), error.kind());
    db.release(&mut engine);
}

#[test]
fn execute_releases_parameter_record() {
    let mut engine = Engine::new();
    let session = Session::from_handle(engine.session_handle());
    let db = session.database(&mut engine);
    let view = db.open_view(&mut engine, "SELECT `A` FROM `T` WHERE `K` = ?").unwrap();
    let params = Record::with_fields(
        &mut engine,
        None,
        vec![Field::StringData("key".to_owned())],
    )
    .unwrap();
    let opened = engine.opened_count();
    view.execute(&mut engine, Some(params)).unwrap();
    assert_eq!(opened, engine.opened_count());
    view.release(&mut engine);
    db.release(&mut engine);
    assert_eq!(engine.opened_count(), engine.closed_count());
}
