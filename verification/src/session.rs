//! The session: the entry-point-facing façade over the engine.
//!
//! The engine hands each entry point a borrowed session handle.  The
//! session never releases it — the engine owns its lifetime — and offers
//! property access, run-mode queries, message dispatch, action
//! invocation, and access to the active install database.

use vstd::prelude::*;

use crate::database::Database;
use crate::engine::{Engine, EngineView, SlotView, StringSource, RUN_MODE_FLAGS};
use crate::error::{Error, ErrorKind};
use crate::format::format_record;
use crate::marshal::read_string;
use crate::native::{ERROR_FUNCTION_FAILED, MSIHANDLE};
use crate::record::Record;
use crate::text::{contains_nul, has_nul};
use vstd::string::StringExecFns;

verus! {

/// Run-mode flags of a session, each answering one question about the
/// running installation.
#[derive(Clone, Copy, Debug, PartialEq, Eq, Structural)]
pub enum RunMode {
    /// Administrative mode install, else product install.
    Admin,
    /// Advertise mode of install.
    Advertise,
    /// Maintenance mode database loaded.
    Maintenance,
    /// Rollback is enabled.
    RollbackEnabled,
    /// Log file is active.
    LogEnabled,
    /// Executing or spooling operations.
    Operations,
    /// Reboot is needed after the installation.
    RebootAtEnd,
    /// Reboot is needed to continue the installation.
    RebootNow,
    /// Installing files from cabinets and files using the media table.
    Cabinet,
    /// Source files use only short file names.
    SourceShortNames,
    /// Target files are to use only short file names.
    TargetShortNames,
    /// The operating system is a legacy consumer system.
    Windows9x,
    /// The operating system supports advertising of products.
    ZawEnabled,
    /// Deferred custom action called from the install script execution.
    Scheduled,
    /// Deferred custom action called from the rollback execution script.
    Rollback,
    /// Deferred custom action called from the commit execution script.
    Commit,
}

/// The flag index of a run mode, as the native surface numbers them.
pub open spec fn spec_mode_index(m: RunMode) -> int {
    match m {
        RunMode::Admin => 0,
        RunMode::Advertise => 1,
        RunMode::Maintenance => 2,
        RunMode::RollbackEnabled => 3,
        RunMode::LogEnabled => 4,
        RunMode::Operations => 5,
        RunMode::RebootAtEnd => 6,
        RunMode::RebootNow => 7,
        RunMode::Cabinet => 8,
        RunMode::SourceShortNames => 9,
        RunMode::TargetShortNames => 10,
        RunMode::Windows9x => 12,
        RunMode::ZawEnabled => 13,
        RunMode::Scheduled => 16,
        RunMode::Rollback => 17,
        RunMode::Commit => 18,
    }
}

fn mode_index(m: RunMode) -> (i: usize)
    ensures
        i as int == spec_mode_index(m),
        i < RUN_MODE_FLAGS,
{
    match m {
        RunMode::Admin => 0,
        RunMode::Advertise => 1,
        RunMode::Maintenance => 2,
        RunMode::RollbackEnabled => 3,
        RunMode::LogEnabled => 4,
        RunMode::Operations => 5,
        RunMode::RebootAtEnd => 6,
        RunMode::RebootNow => 7,
        RunMode::Cabinet => 8,
        RunMode::SourceShortNames => 9,
        RunMode::TargetShortNames => 10,
        RunMode::Windows9x => 12,
        RunMode::ZawEnabled => 13,
        RunMode::Scheduled => 16,
        RunMode::Rollback => 17,
        RunMode::Commit => 18,
    }
}

/// Kinds of message a session can dispatch.
#[derive(Clone, Copy, Debug, PartialEq, Eq, Structural)]
pub enum MessageType {
    /// A formatted error message.
    Error,
    /// A formatted warning message.
    Warning,
    /// A formatted user message.
    User,
    /// A informational message for the log.
    Info,
    /// A progress report.
    Progress,
    /// Common data for the dialog: language and caption.
    CommonData,
}

/// The native numeric tag of a message kind.
pub open spec fn spec_message_tag(kind: MessageType) -> u32 {
    match kind {
        MessageType::Error => 0x0100_0000,
        MessageType::Warning => 0x0200_0000,
        MessageType::User => 0x0300_0000,
        MessageType::Info => 0x0400_0000,
        MessageType::Progress => 0x0A00_0000,
        MessageType::CommonData => 0x0B00_0000,
    }
}

fn message_tag(kind: MessageType) -> (tag: u32)
    ensures
        tag == spec_message_tag(kind),
{
    match kind {
        MessageType::Error => 0x0100_0000,
        MessageType::Warning => 0x0200_0000,
        MessageType::User => 0x0300_0000,
        MessageType::Info => 0x0400_0000,
        MessageType::Progress => 0x0A00_0000,
        MessageType::CommonData => 0x0B00_0000,
    }
}

impl Engine {
    /// Sets one run-mode flag.  This is model set-up: in the real engine
    /// the flags reflect the state of the installation.
    pub fn set_mode(&mut self, mode: RunMode, on: bool)
        requires
            old(self)@.wf(),
        ensures
            final(self)@.wf(),
            final(self)@ == (EngineView {
                modes: old(self)@.modes.update(spec_mode_index(mode), on),
                ..old(self)@
            }),
    {
        self.set_mode_at(mode_index(mode), on);
    }
}

/// A session, wrapped around the borrowed handle the engine supplies to
/// an entry point.  The session never releases that handle: the engine
/// owns its lifetime.
pub struct Session {
    h: MSIHANDLE,
}

impl Session {
    /// The borrowed engine handle of this session.
    pub closed spec fn spec_handle(&self) -> u32 {
        self.h.spec_value()
    }

    /// Whether this session is the engine's live session.
    pub open spec fn valid(&self, v: EngineView) -> bool {
        v.valid_host(self.spec_handle())
    }

    /// Wraps the borrowed session handle the engine supplied.
    pub fn from_handle(h: MSIHANDLE) -> (s: Session)
        ensures
            s.spec_handle() == h.spec_value(),
    {
        Session { h }
    }

    /// Opens the active database of the installation.  Every call yields
    /// a fresh, independently owned database handle; the engine never
    /// caches one.
    pub fn database(&self, engine: &mut Engine) -> (db: Database)
        requires
            old(engine)@.wf(),
            self.valid(old(engine)@),
            old(engine)@.can_alloc(),
        ensures
            final(engine)@.wf(),
            db.valid(final(engine)@),
            db.spec_handle() == old(engine)@.slots.len() + 1,
            final(engine)@ == (EngineView {
                slots: old(engine)@.slots.push(SlotView::Db),
                opened: (old(engine)@.opened + 1) as u64,
                ..old(engine)@
            }),
    {
        let h = engine.open_database();
        Database::from_handle(MSIHANDLE::new(h))
    }

    /// Runs the named immediate action, or the engine's default action
    /// when none is given — the empty name is the native surface's way of
    /// asking for the default.  The engine logs the invocation; in this
    /// model every invocation is accepted, so no status is surfaced.
    pub fn do_action(&self, engine: &mut Engine, action: Option<&str>)
        requires
            old(engine)@.wf(),
            self.valid(old(engine)@),
            (match action {
                Some(a) => !has_nul(a@),
                None => true,
            }),
        ensures
            final(engine)@.wf(),
            final(engine)@ == (EngineView {
                actions: old(engine)@.actions.push(
                    match action {
                        Some(a) => a@,
                        None => Seq::<char>::empty(),
                    },
                ),
                ..old(engine)@
            }),
    {
        match action {
            Some(a) => engine.run_action(a),
            None => {
                proof {
                    reveal_strlit("");
                    assert(""@ =~~= Seq::<char>::empty());
                }
                engine.run_action("")
            },
        }
    }

    /// Schedules a deferred action together with its payload: sets the
    /// `CustomActionData` property — the channel through which the
    /// action's later, deferred invocation receives its input — to the
    /// payload, then invokes the named action.
    pub fn do_deferred_action(&self, engine: &mut Engine, action: &str, custom_action_data: &str)
        requires
            old(engine)@.wf(),
            self.valid(old(engine)@),
            !has_nul(action@),
            !has_nul(custom_action_data@),
        ensures
            final(engine)@.wf(),
            forall|k: Seq<char>| #[trigger] final(engine)@.prop(k) == (if k
                == "CustomActionData"@ {
                custom_action_data@
            } else {
                old(engine)@.prop(k)
            }),
            final(engine)@ == (EngineView {
                props: final(engine)@.props,
                actions: old(engine)@.actions.push(action@),
                ..old(engine)@
            }),
    {
        proof {
            reveal_strlit("CustomActionData");
            assert(!has_nul("CustomActionData"@)) by {
                assert forall|i: int|
                    0 <= i < "CustomActionData"@.len() implies "CustomActionData"@[i] != '\0' by {}
            }
        }
        self.set_property(engine, "CustomActionData", Some(custom_action_data));
        let ghost mid = engine@;
        self.do_action(engine, Some(action));
        proof {
            assert forall|k: Seq<char>| #[trigger] engine@.prop(k) == (if k
                == "CustomActionData"@ {
                custom_action_data@
            } else {
                old(engine)@.prop(k)
            }) by {
                assert(engine@.prop(k) == mid.prop(k));
            }
        }
    }

    /// The numeric language identifier of the session.
    pub fn language(&self, engine: &Engine) -> (lang: u16)
        requires
            engine@.wf(),
            self.valid(engine@),
        ensures
            lang == engine@.lang,
    {
        engine.get_language()
    }

    /// Dispatches a record as a message of the given kind.  The engine
    /// logs the kind's native tag with the record's formatted text and
    /// answers with its response code, whose meaning — a button choice,
    /// for instance — is the caller's affair.
    pub fn message(&self, engine: &mut Engine, kind: MessageType, record: &Record) -> (response:
        i32)
        requires
            old(engine)@.wf(),
            self.valid(old(engine)@),
            record.valid(old(engine)@),
        ensures
            final(engine)@.wf(),
            response == old(engine)@.response,
            final(engine)@ == (EngineView {
                msgs: old(engine)@.msgs.push(
                    (spec_message_tag(kind), format_record(record.fields(old(engine)@))),
                ),
                ..old(engine)@
            }),
    {
        engine.process_message(message_tag(kind), record.raw())
    }

    /// Whether one run-mode flag of the session is set.  Entry points use
    /// this chiefly to tell the scheduling, immediate invocation of an
    /// action from its later, deferred invocation.
    pub fn mode(&self, engine: &Engine, mode: RunMode) -> (on: bool)
        requires
            engine@.wf(),
            self.valid(engine@),
        ensures
            on == engine@.modes[spec_mode_index(mode)],
    {
        engine.get_mode_at(mode_index(mode))
    }

    /// The value of the named property, or the empty string when the
    /// property is undefined.  A name holding an embedded NUL cannot
    /// cross the native surface and is refused as a conversion error.
    pub fn property(&self, engine: &Engine, name: &str) -> (r: Result<String, Error>)
        requires
            engine@.wf(),
            self.valid(engine@),
        ensures
            match r {
                Ok(s) => !has_nul(name@) && engine@.prop(name@).len() < u32::MAX && s@
                    == engine@.prop(name@),
                Err(e) => e.wf() && ((has_nul(name@) && e.spec_kind() == ErrorKind::DataConversion)
                    || (!has_nul(name@) && engine@.prop(name@).len() >= u32::MAX && e.spec_kind()
                    == ErrorKind::ErrorCode(ERROR_FUNCTION_FAILED))),
            },
    {
        if contains_nul(name) {
            return Err(
                Error::new(
                    ErrorKind::DataConversion,
                    String::from_str("property name holds an embedded NUL"),
                ),
            );
        }
        read_string(engine, &StringSource::Property(name.to_owned()))
    }

    /// Sets the named property, or clears it when no value is given.  The
    /// engine represents a cleared property as holding the empty value.
    pub fn set_property(&self, engine: &mut Engine, name: &str, value: Option<&str>)
        requires
            old(engine)@.wf(),
            self.valid(old(engine)@),
            !has_nul(name@),
            (match value {
                Some(v) => !has_nul(v@),
                None => true,
            }),
        ensures
            final(engine)@.wf(),
            forall|k: Seq<char>| #[trigger] final(engine)@.prop(k) == (if k == name@ {
                match value {
                    Some(v) => v@,
                    None => Seq::<char>::empty(),
                }
            } else {
                old(engine)@.prop(k)
            }),
            final(engine)@ == (EngineView { props: final(engine)@.props, ..old(engine)@ }),
    {
        engine.set_prop(name, value);
    }
}

} // verus!
