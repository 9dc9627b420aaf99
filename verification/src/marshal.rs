//! The two-call buffer retrieval protocol.
//!
//! Every string-returning native call follows the same shape: a first call
//! with a zero-length buffer makes the engine report the value's length and
//! answer "insufficient buffer"; a second call with a buffer of exactly
//! that length plus one for the terminator retrieves the value.  A first
//! call that already succeeds can only mean the empty value.  Any other
//! status on either call surfaces as a status-code error.  [`read_string`]
//! is that shared routine, parameterized by which accessor the calls go
//! through.
//!
//! The second call also reports the value's final length.  The engine
//! hands back a value of exactly that length, so no separate truncation
//! step remains here.

use vstd::prelude::*;

use crate::engine::{source_handle_ok, source_ok, source_value, Engine, StringSource};
use crate::error::{Error, ErrorKind};
use crate::native::{
    ERROR_FUNCTION_FAILED, ERROR_INVALID_PARAMETER, ERROR_MORE_DATA, ERROR_SUCCESS,
};

verus! {

/// Retrieves a string value from the engine through the two-call buffer
/// protocol.  The result is the value the source resolves to; a source
/// that does not resolve, or a value too long for the native length
/// channel, surfaces as a status-code error.
pub(crate) fn read_string(engine: &Engine, src: &StringSource) -> (r: Result<String, Error>)
    requires
        engine@.wf(),
        source_handle_ok(engine@, *src),
    ensures
        match r {
            Ok(s) => source_ok(engine@, *src) && source_value(engine@, *src).len() < u32::MAX
                && s@ == source_value(engine@, *src),
            Err(e) => e.wf() && ((!source_ok(engine@, *src) && e.spec_kind()
                == ErrorKind::ErrorCode(ERROR_INVALID_PARAMETER)) || (source_ok(engine@, *src)
                && source_value(engine@, *src).len() >= u32::MAX && e.spec_kind()
                == ErrorKind::ErrorCode(ERROR_FUNCTION_FAILED))),
        },
{
    let (status, needed, _probe) = engine.string_call(src, 0);
    if status == ERROR_SUCCESS {
        // The value fits a zero-length buffer only when it is empty.
        return Ok(String::new());
    }
    if status != ERROR_MORE_DATA {
        return Err(Error::from_error_code(status));
    }
    let buf_len = needed + 1;
    let (status2, _reported, value) = engine.string_call(src, buf_len);
    if status2 != ERROR_SUCCESS {
        return Err(Error::from_error_code(status2));
    }
    Ok(value)
}

} // verus!
