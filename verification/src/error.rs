//! The error taxonomy and the short-circuiting result type for entry points.
//!
//! Every fallible operation of the layer returns [`Error`].  An entry point
//! collapses errors into [`CustomActionResult`], the five-valued outcome the
//! engine understands, using the explicit conversions defined here.

use vstd::prelude::*;
use vstd::string::StringExecFns;

use crate::engine::{Engine, EngineView, SlotView};
use crate::native::{
    ERROR_FUNCTION_NOT_CALLED, ERROR_INSTALL_FAILURE, ERROR_INSTALL_USEREXIT, ERROR_NO_MORE_ITEMS,
    ERROR_SUCCESS,
};
use crate::record::Record;
use crate::text::{dec_nat, push_dec_u32};

verus! {

/// The kind of an [`Error`].
#[derive(Clone, Copy, Debug, PartialEq, Eq, Structural)]
pub enum ErrorKind {
    /// A non-zero native status code with no richer context.
    ErrorCode(u32),
    /// A native diagnostic record described the failure.
    ErrorRecord,
    /// Translating between native and Rust data representations failed.
    DataConversion,
    /// Any other kind of error.
    Other,
}

impl ErrorKind {
    /// A kind is well formed when a carried status code is non-zero: the
    /// zero status means success and never denotes an error.
    pub open spec fn wf(self) -> bool {
        match self {
            ErrorKind::ErrorCode(code) => code != 0,
            _ => true,
        }
    }
}

/// The display text of an error that carries only a status code.
pub open spec fn error_code_text(code: u32) -> Seq<char> {
    "ErrorCode("@ + dec_nat(code as nat) + ")"@
}

/// An error returned by this crate.
#[derive(Debug)]
pub struct Error {
    kind: ErrorKind,
    message: String,
}

impl Error {
    /// The kind of this error.
    pub closed spec fn spec_kind(self) -> ErrorKind {
        self.kind
    }

    /// The display text of this error.
    pub closed spec fn spec_message(self) -> Seq<char> {
        self.message@
    }

    pub open spec fn wf(self) -> bool {
        self.spec_kind().wf()
    }

    /// Builds an error of the given kind with the given display text.
    pub fn new(kind: ErrorKind, message: String) -> (e: Error)
        requires
            kind.wf(),
        ensures
            e.wf(),
            e.spec_kind() == kind,
            e.spec_message() == message@,
    {
        Error { kind, message }
    }

    /// Builds an error from a non-zero native status code.  The zero status
    /// means success, so passing it would be a programming error; it is
    /// excluded rather than handled.
    pub fn from_error_code(code: u32) -> (e: Error)
        requires
            code != 0,
        ensures
            e.wf(),
            e.spec_kind() == ErrorKind::ErrorCode(code),
            e.spec_message() == error_code_text(code),
    {
        let mut message = String::from_str("ErrorCode(");
        push_dec_u32(&mut message, code);
        message.append(")");
        proof {
            assert(message@ =~= error_code_text(code));
        }
        Error { kind: ErrorKind::ErrorCode(code), message }
    }

    /// Builds an error from a diagnostic record.  The record's formatted
    /// text becomes the error's display text, and the record, no longer
    /// needed, is released.
    pub fn from_error_record(engine: &mut Engine, record: Record) -> (e: Error)
        requires
            old(engine)@.wf(),
            record.valid(old(engine)@),
        ensures
            final(engine)@.wf(),
            e.wf(),
            e.spec_kind() == ErrorKind::ErrorRecord,
            crate::format::format_record(record.fields(old(engine)@)).len() < u32::MAX
                ==> e.spec_message() == crate::format::format_record(
                record.fields(old(engine)@),
            ),
            crate::format::format_record(record.fields(old(engine)@)).len() >= u32::MAX
                ==> e.spec_message() == "cannot format record"@,
            final(engine)@ == (EngineView {
                slots: old(engine)@.slots.update(record.spec_handle() - 1, SlotView::Vacant),
                closed: (old(engine)@.closed + 1) as u64,
                ..old(engine)@
            }),
    {
        let message = match record.format_text(engine) {
            Ok(s) => s,
            Err(_) => String::from_str("cannot format record"),
        };
        record.release(engine);
        Error { kind: ErrorKind::ErrorRecord, message }
    }

    /// Takes the engine's pending process-wide diagnostic record as an
    /// error, if one is pending.  Fallible operations call this first on
    /// a native failure, preferring the engine's rich diagnostic over the
    /// bare status code; the read is destructive, so the diagnostic is
    /// consumed at most once and never attributed to a later failure.
    pub fn from_last_error_record(engine: &mut Engine) -> (r: Option<Error>)
        requires
            old(engine)@.wf(),
            old(engine)@.can_alloc(),
        ensures
            final(engine)@.wf(),
            old(engine)@.last_err is None ==> r is None && final(engine)@ == old(engine)@,
            old(engine)@.last_err is Some ==> r is Some && r.unwrap().wf() && r.unwrap().spec_kind()
                == ErrorKind::ErrorRecord && final(engine)@ == consumed_last_err(old(engine)@),
    {
        match crate::last_error_record(engine) {
            Some(record) => {
                let e = Error::from_error_record(engine, record);
                proof {
                    assert(engine@ =~~= consumed_last_err(old(engine)@));
                }
                Some(e)
            },
            None => None,
        }
    }

    /// The [`ErrorKind`] of this error.
    pub fn kind(&self) -> (kind: ErrorKind)
        ensures
            kind == self.spec_kind(),
    {
        self.kind.clone()
    }

    /// The display text of this error.
    pub fn to_string(&self) -> (s: String)
        ensures
            s@ == self.spec_message(),
    {
        self.message.clone()
    }
}

/// The engine state after the pending diagnostic record, if any, was
/// consumed: it was materialized as a record handle and released again.
pub open spec fn consumed_last_err(v: EngineView) -> EngineView {
    if v.last_err is Some {
        EngineView {
            slots: v.slots.push(SlotView::Vacant),
            last_err: None,
            opened: (v.opened + 1) as u64,
            closed: (v.closed + 1) as u64,
            ..v
        }
    } else {
        v
    }
}

/// Relies on `FromUtf8Error`'s display formatting for the error text.
#[verifier::external_body]
fn utf8_error_text(e: &std::string::FromUtf8Error) -> String {
    format!("{}", e)
}

/// Relies on `TryFromIntError`'s display formatting for the error text.
#[verifier::external_body]
fn int_error_text(e: &std::num::TryFromIntError) -> String {
    format!("{}", e)
}

#[verifier::external_type_specification]
#[verifier::external_body]
pub struct ExFromUtf8Error(std::string::FromUtf8Error);

impl From<std::string::FromUtf8Error> for Error {
    /// A failed UTF-8 decoding is a data-conversion error.
    fn from(e: std::string::FromUtf8Error) -> (r: Error) {
        Error { kind: ErrorKind::DataConversion, message: utf8_error_text(&e) }
    }
}

impl vstd::std_specs::convert::FromSpecImpl<std::string::FromUtf8Error> for Error {
    open spec fn obeys_from_spec() -> bool {
        false
    }

    open spec fn from_spec(e: std::string::FromUtf8Error) -> Error {
        arbitrary()
    }
}

impl From<std::num::TryFromIntError> for Error {
    /// A failed integer conversion is a data-conversion error.
    fn from(e: std::num::TryFromIntError) -> (r: Error) {
        Error { kind: ErrorKind::DataConversion, message: int_error_text(&e) }
    }
}

impl vstd::std_specs::convert::FromSpecImpl<std::num::TryFromIntError> for Error {
    open spec fn obeys_from_spec() -> bool {
        false
    }

    open spec fn from_spec(e: std::num::TryFromIntError) -> Error {
        arbitrary()
    }
}

/// The outcome an entry point reports to the engine.  Each variant is
/// isomorphic to one native status code; see [`CustomActionResult::code`].
#[derive(Debug, Copy, Clone, Eq, PartialEq, Structural)]
pub enum CustomActionResult {
    /// Completed actions successfully.
    Success,
    /// Skip remaining actions.  Not an error.
    Skip,
    /// The user terminated prematurely.
    Cancel,
    /// An unrecoverable error occurred.
    Failure,
    /// The action was not executed.
    NotExecuted,
}

impl CustomActionResult {
    /// The native status code this outcome maps to.
    pub open spec fn spec_code(self) -> u32 {
        match self {
            CustomActionResult::Success => ERROR_SUCCESS,
            CustomActionResult::Skip => ERROR_NO_MORE_ITEMS,
            CustomActionResult::Cancel => ERROR_INSTALL_USEREXIT,
            CustomActionResult::Failure => ERROR_INSTALL_FAILURE,
            CustomActionResult::NotExecuted => ERROR_FUNCTION_NOT_CALLED,
        }
    }

    /// The outcome a native status code maps to.  The four distinguished
    /// non-success codes map to their own outcomes; every other non-zero
    /// code collapses to [`CustomActionResult::Failure`].
    pub open spec fn spec_from_code(code: u32) -> CustomActionResult {
        if code == ERROR_SUCCESS {
            CustomActionResult::Success
        } else if code == ERROR_NO_MORE_ITEMS {
            CustomActionResult::Skip
        } else if code == ERROR_INSTALL_USEREXIT {
            CustomActionResult::Cancel
        } else if code == ERROR_FUNCTION_NOT_CALLED {
            CustomActionResult::NotExecuted
        } else {
            CustomActionResult::Failure
        }
    }

    /// The outcome an error collapses to: a carried status code maps by
    /// numeric equality to the corresponding outcome, and every other error
    /// kind collapses to [`CustomActionResult::Failure`].
    pub open spec fn spec_from_error(e: Error) -> CustomActionResult {
        match e.spec_kind() {
            ErrorKind::ErrorCode(code) => CustomActionResult::spec_from_code(code),
            _ => CustomActionResult::Failure,
        }
    }

    /// The native status code this outcome reports at the ABI boundary.
    pub fn code(self) -> (code: u32)
        ensures
            code == self.spec_code(),
    {
        match self {
            CustomActionResult::Success => ERROR_SUCCESS,
            CustomActionResult::Skip => ERROR_NO_MORE_ITEMS,
            CustomActionResult::Cancel => ERROR_INSTALL_USEREXIT,
            CustomActionResult::Failure => ERROR_INSTALL_FAILURE,
            CustomActionResult::NotExecuted => ERROR_FUNCTION_NOT_CALLED,
        }
    }

    /// Collapses an error into the outcome an entry point reports, as the
    /// explicit form of short-circuiting on a failed operation.
    pub fn from_error(e: &Error) -> (r: CustomActionResult)
        ensures
            r == CustomActionResult::spec_from_error(*e),
    {
        match e.kind() {
            ErrorKind::ErrorCode(code) => CustomActionResult::from(code),
            _ => CustomActionResult::Failure,
        }
    }

    /// A short description of the outcome.
    pub fn describe(self) -> (s: &'static str)
        ensures
            self == CustomActionResult::Success ==> s@ == "completed successfully"@,
            self == CustomActionResult::Skip ==> s@ == "skipped remaining actions"@,
            self == CustomActionResult::Cancel ==> s@ == "user canceled installation"@,
            self == CustomActionResult::Failure ==> s@ == "fatal error during installation"@,
            self == CustomActionResult::NotExecuted ==> s@ == "not executed"@,
    {
        match self {
            CustomActionResult::Success => "completed successfully",
            CustomActionResult::Skip => "skipped remaining actions",
            CustomActionResult::Cancel => "user canceled installation",
            CustomActionResult::Failure => "fatal error during installation",
            CustomActionResult::NotExecuted => "not executed",
        }
    }
}

impl From<u32> for CustomActionResult {
    /// Maps a native status code to its outcome.
    fn from(code: u32) -> (r: Self) {
        if code == ERROR_SUCCESS {
            CustomActionResult::Success
        } else if code == ERROR_NO_MORE_ITEMS {
            CustomActionResult::Skip
        } else if code == ERROR_INSTALL_USEREXIT {
            CustomActionResult::Cancel
        } else if code == ERROR_FUNCTION_NOT_CALLED {
            CustomActionResult::NotExecuted
        } else {
            CustomActionResult::Failure
        }
    }
}

impl vstd::std_specs::convert::FromSpecImpl<u32> for CustomActionResult {
    open spec fn obeys_from_spec() -> bool {
        true
    }

    open spec fn from_spec(code: u32) -> CustomActionResult {
        CustomActionResult::spec_from_code(code)
    }
}

/// Mapping an outcome to its status code and back yields the same outcome:
/// the five outcomes are isomorphic to their five native status codes.
pub proof fn lemma_result_code_roundtrip(r: CustomActionResult)
    ensures
        CustomActionResult::spec_from_code(r.spec_code()) == r,
{
}

/// The short-circuit mapping of errors to outcomes: a carried user-exit
/// status collapses to the cancel outcome, an error of any kind other
/// than a carried status collapses to failure, and no well-formed error
/// collapses to success — success never short-circuits.
pub proof fn lemma_short_circuit_mapping(e: Error)
    requires
        e.wf(),
    ensures
        e.spec_kind() == ErrorKind::ErrorCode(ERROR_INSTALL_USEREXIT)
            ==> CustomActionResult::spec_from_error(e) == CustomActionResult::Cancel,
        !(e.spec_kind() is ErrorCode) ==> CustomActionResult::spec_from_error(e)
            == CustomActionResult::Failure,
        CustomActionResult::spec_from_error(e) != CustomActionResult::Success,
{
}

/// The residual of a short-circuited entry point: one of the four non-success
/// outcomes, carried as its non-zero native status code.
#[derive(Debug, Copy, Clone, PartialEq, Eq, Structural)]
pub struct CustomActionResultCode {
    code: u32,
}

impl CustomActionResultCode {
    /// The status code carried by the residual.
    pub closed spec fn spec_code(self) -> u32 {
        self.code
    }

    /// A residual is well formed when it carries one of the four non-success
    /// status codes.
    pub open spec fn wf(self) -> bool {
        ||| self.spec_code() == ERROR_NO_MORE_ITEMS
        ||| self.spec_code() == ERROR_INSTALL_USEREXIT
        ||| self.spec_code() == ERROR_INSTALL_FAILURE
        ||| self.spec_code() == ERROR_FUNCTION_NOT_CALLED
    }

    /// Captures a non-success outcome as a residual.  Success never
    /// short-circuits, so it is excluded.
    pub fn new(r: CustomActionResult) -> (c: CustomActionResultCode)
        requires
            r != CustomActionResult::Success,
        ensures
            c.wf(),
            c.spec_code() == r.spec_code(),
    {
        CustomActionResultCode { code: r.code() }
    }

    /// Restores the outcome a residual was captured from.
    pub fn into_result(self) -> (r: CustomActionResult)
        requires
            self.wf(),
        ensures
            r == CustomActionResult::spec_from_code(self.spec_code()),
            r != CustomActionResult::Success,
    {
        if self.code == ERROR_NO_MORE_ITEMS {
            CustomActionResult::Skip
        } else if self.code == ERROR_INSTALL_USEREXIT {
            CustomActionResult::Cancel
        } else if self.code == ERROR_INSTALL_FAILURE {
            CustomActionResult::Failure
        } else {
            CustomActionResult::NotExecuted
        }
    }
}

} // verus!
