//! A safety layer over an installer engine's automation interface.
//!
//! Extension modules loaded by an installer engine receive an opaque session
//! handle and use it to query the install database, read and write installer
//! properties, emit messages, and schedule follow-up work.  This crate
//! provides the resource- and protocol-safe abstractions for that work:
//! owned and borrowed handles, the two-call buffer retrieval protocol used by
//! every string-returning native call, typed records, query views, and a
//! structured error model with a short-circuiting result type.
//!
//! The engine itself is represented by [`Engine`], an explicit value that
//! models the native call surface: handle allocation and release, record
//! field storage, view execution state, the property store, and the
//! process-wide last-error record.  Every operation takes the engine it acts
//! on, so the whole layer is verified against the engine's documented
//! status-code behaviour.

use vstd::prelude::*;

pub mod database;
pub mod engine;
pub mod error;
pub mod format;
mod marshal;
pub mod native;
pub mod record;
pub mod session;
pub mod text;
pub mod view;

pub use database::Database;
pub use engine::{Engine, EngineView, QueryView, SlotView, ViewPhase};
pub use error::{CustomActionResult, CustomActionResultCode, Error, ErrorKind};
pub use native::{BOOL, MSIHANDLE, PMSIHANDLE};
pub use record::{Field, FieldView, Record};
pub use session::{MessageType, RunMode, Session};
pub use view::{ModifyMode, MsiView};

verus! {

/// Takes the engine's process-wide diagnostic record, if one is pending.
/// The read is destructive: the engine clears the slot, so a second take
/// yields nothing until another failure leaves a new record.
pub fn last_error_record(engine: &mut Engine) -> (r: Option<Record>)
    requires
        old(engine)@.wf(),
        old(engine)@.can_alloc(),
    ensures
        final(engine)@.wf(),
        old(engine)@.last_err is None ==> r is None && final(engine)@ == old(engine)@,
        old(engine)@.last_err is Some ==> r is Some && r.unwrap().valid(final(engine)@)
            && r.unwrap().spec_handle() == old(engine)@.slots.len() + 1 && r.unwrap().fields(
            final(engine)@,
        ) == old(engine)@.last_err.unwrap() && final(engine)@ == (EngineView {
            slots: old(engine)@.slots.push(SlotView::Rec(old(engine)@.last_err.unwrap())),
            last_err: None,
            opened: (old(engine)@.opened + 1) as u64,
            ..old(engine)@
        }),
{
    let h = engine.take_last_error();
    if h == 0 {
        None
    } else {
        Some(Record::from_handle(MSIHANDLE::new(h)))
    }
}

} // verus!
