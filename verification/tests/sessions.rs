//! Tests of the session façade: properties, actions, modes, messages.

use msica::{Engine, Field, MessageType, Record, RunMode, Session};

#[test]
fn deferred_action_handoff() {
    // Scheduling a deferred action stores its payload under the
    // CustomActionData property and invokes the action; the payload
    // reads back exactly.
    let mut engine = Engine::new();
    let session = Session::from_handle(engine.session_handle());
    session.do_deferred_action(&mut engine, "A", "7");
    assert_eq!(session.property(&engine, "CustomActionData").unwrap(), "7");
    assert_eq!(1, engine.action_count());
    assert_eq!("A", engine.action_at(0));
}

#[test]
fn property_set_get_clear() {
    let mut engine = Engine::new();
    let session = Session::from_handle(engine.session_handle());
    assert_eq!(session.property(&engine, "INSTALLDIR").unwrap(), "");
    session.set_property(&mut engine, "INSTALLDIR", Some("C:\\app"));
    assert_eq!(session.property(&engine, "INSTALLDIR").unwrap(), "C:\\app");
    session.set_property(&mut engine, "INSTALLDIR", None);
    assert_eq!(session.property(&engine, "INSTALLDIR").unwrap(), "");
}

#[test]
fn property_overwrite() {
    let mut engine = Engine::new();
    let session = Session::from_handle(engine.session_handle());
    session.set_property(&mut engine, "NAME", Some("one"));
    session.set_property(&mut engine, "NAME", Some("two"));
    session.set_property(&mut engine, "OTHER", Some("kept"));
    assert_eq!(session.property(&engine, "NAME").unwrap(), "two");
    assert_eq!(session.property(&engine, "OTHER").unwrap(), "kept");
}

#[test]
fn property_empty_value_round_trip() {
    // A value of length zero needs no second buffer call: it reads back
    // as the empty string.
    let mut engine = Engine::new();
    let session = Session::from_handle(engine.session_handle());
    session.set_property(&mut engine, "EMPTY", Some(""));
    assert_eq!(session.property(&engine, "EMPTY").unwrap(), "");
}

#[test]
fn run_mode_flags() {
    let mut engine = Engine::new();
    let session = Session::from_handle(engine.session_handle());
    assert!(!session.mode(&engine, RunMode::Scheduled));
    engine.set_mode(RunMode::Scheduled, true);
    assert!(session.mode(&engine, RunMode::Scheduled));
    assert!(!session.mode(&engine, RunMode::Rollback));
}

#[test]
fn language_passthrough() {
    let mut engine = Engine::new();
    engine.set_language(1033);
    let session = Session::from_handle(engine.session_handle());
    assert_eq!(1033, session.language(&engine));
}

#[test]
fn message_dispatch() {
    let mut engine = Engine::new();
    engine.set_message_response(1);
    let session = Session::from_handle(engine.session_handle());
    let record = Record::with_fields(
        &mut engine,
        Some("installed [1]"),
        vec![Field::StringData("thing".to_owned())],
    )
    .unwrap();
    let response = session.message(&mut engine, MessageType::Info, &record);
    assert_eq!(1, response);
    assert_eq!(1, engine.message_count());
    assert_eq!(0x0400_0000, engine.message_kind_at(0));
    assert_eq!("installed thing", engine.message_text_at(0));
    record.release(&mut engine);
}

#[test]
fn default_action_logged_as_empty_name() {
    let mut engine = Engine::new();
    let session = Session::from_handle(engine.session_handle());
    session.do_action(&mut engine, None);
    session.do_action(&mut engine, Some("Greet"));
    assert_eq!(2, engine.action_count());
    assert_eq!("", engine.action_at(0));
    assert_eq!("Greet", engine.action_at(1));
}
