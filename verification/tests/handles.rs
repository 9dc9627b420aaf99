//! Tests of handle ownership and release accounting.

use msica::{Engine, Field, MSIHANDLE, Record, Session, BOOL};

#[test]
fn is_null() {
    assert!(MSIHANDLE::null().is_null());
}

#[test]
fn native_bool_values() {
    assert!(BOOL::from(true).as_bool());
    assert!(!BOOL::from(false).as_bool());
    assert!(!BOOL::default().as_bool());
}

#[test]
fn to_owned_keeps_value() {
    let h = MSIHANDLE::null();
    let owned = h.to_owned();
    assert!(owned.handle().is_null());
}

#[test]
fn open_close_balance() {
    // Every handle the layer opens is released exactly once: after all
    // owners are released, the engine's open and close counters agree.
    let mut engine = Engine::new();
    let record = Record::new(&mut engine, 2);
    let session = Session::from_handle(engine.session_handle());
    let db = session.database(&mut engine);
    let view = db.open_view(&mut engine, "SELECT `Value` FROM `Config`").unwrap();
    assert_eq!(3, engine.opened_count());
    assert_eq!(0, engine.closed_count());
    view.release(&mut engine);
    db.release(&mut engine);
    record.release(&mut engine);
    assert_eq!(3, engine.opened_count());
    assert_eq!(3, engine.closed_count());
}

#[test]
fn with_fields_failure_releases() {
    // A record build that fails mid-way still releases the partially
    // built record: the open and close counters agree after the error.
    let mut engine = Engine::new();
    let result = Record::with_fields(
        &mut engine,
        None,
        vec![Field::StringData("bad\0value".to_owned())],
    );
    assert!(result.is_err());
    assert_eq!(1, engine.opened_count());
    assert_eq!(1, engine.closed_count());
}
