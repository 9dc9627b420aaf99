//! Types and status codes of the engine's native call surface.
//!
//! The engine identifies every resource it hands out by an opaque numeric
//! handle.  [`MSIHANDLE`] is a borrowed handle carrying no release
//! obligation; [`PMSIHANDLE`] wraps one handle together with the obligation
//! to release it exactly once.

use vstd::prelude::*;

use crate::engine::{Engine, EngineView, SlotView};

verus! {

/// The call completed successfully.
pub const ERROR_SUCCESS: u32 = 0;

/// The handle passed to a call is not an open handle of the expected kind.
pub const ERROR_INVALID_HANDLE: u32 = 6;

/// An argument of the call, such as a field index, is out of range.
pub const ERROR_INVALID_PARAMETER: u32 = 87;

/// The supplied buffer is too small; the required length was reported.
pub const ERROR_MORE_DATA: u32 = 234;

/// No more items are available; also the "skip remaining actions" outcome.
pub const ERROR_NO_MORE_ITEMS: u32 = 259;

/// The user cancelled the installation.
pub const ERROR_INSTALL_USEREXIT: u32 = 1602;

/// A fatal error occurred during installation.
pub const ERROR_INSTALL_FAILURE: u32 = 1603;

/// The entry point was not executed.
pub const ERROR_FUNCTION_NOT_CALLED: u32 = 1626;

/// The call reached the engine but the engine could not carry it out.
pub const ERROR_FUNCTION_FAILED: u32 = 1627;

/// The named table is not known to the install database.
pub const ERROR_INVALID_TABLE: u32 = 1628;

/// The sentinel integer the engine uses for "this field holds no integer".
pub const MSI_NULL_INTEGER: i32 = i32::MIN;

/// A boolean as the native call surface represents it: zero is false and
/// every other value is true.
#[derive(Clone, Copy, Debug)]
pub struct BOOL(i32);

impl BOOL {
    /// The raw value carried by this boolean.
    pub closed spec fn spec_raw(self) -> i32 {
        self.0
    }

    /// The truth value this native boolean denotes.
    pub open spec fn spec_bool(self) -> bool {
        self.spec_raw() != 0
    }

    /// The canonical native boolean for a truth value.
    pub closed spec fn spec_from_bool(value: bool) -> BOOL {
        BOOL(if value { 1 } else { 0 })
    }

    /// The canonical native boolean denotes the truth value it was built
    /// from.
    pub proof fn lemma_from_bool(value: bool)
        ensures
            BOOL::spec_from_bool(value).spec_bool() == value,
    {
    }

    /// Converts the native representation into a Rust `bool`.
    pub fn as_bool(self) -> (b: bool)
        ensures
            b == self.spec_bool(),
    {
        self.0 != 0
    }
}

impl Default for BOOL {
    /// The default native boolean is false.
    fn default() -> (r: Self)
        ensures
            !r.spec_bool(),
    {
        BOOL(0)
    }
}

impl From<bool> for BOOL {
    /// Builds the canonical native boolean for a truth value.
    fn from(value: bool) -> (r: Self) {
        if value {
            BOOL(1)
        } else {
            BOOL(0)
        }
    }
}

impl vstd::std_specs::convert::FromSpecImpl<bool> for BOOL {
    open spec fn obeys_from_spec() -> bool {
        true
    }

    open spec fn from_spec(value: bool) -> BOOL {
        BOOL::spec_from_bool(value)
    }
}

/// A borrowed engine handle.  It carries no release obligation: the resource
/// behind it is owned either by the engine or by a [`PMSIHANDLE`] elsewhere.
/// The value `0` is the null sentinel meaning "no resource".
#[derive(Clone, Copy, Debug, PartialEq, Eq, Structural)]
pub struct MSIHANDLE(u32);

impl MSIHANDLE {
    /// The numeric value of this handle.
    pub closed spec fn spec_value(self) -> u32 {
        self.0
    }

    pub(crate) fn new(v: u32) -> (h: MSIHANDLE)
        ensures
            h.spec_value() == v,
    {
        MSIHANDLE(v)
    }

    /// The null handle, denoting no resource.
    pub fn null() -> (h: MSIHANDLE)
        ensures
            h.spec_value() == 0,
    {
        MSIHANDLE(0)
    }

    /// Wraps this handle in an owned handle.  This is bookkeeping only: no
    /// native call is made, and the release obligation for the resource is
    /// from now on carried by the returned [`PMSIHANDLE`].
    pub fn to_owned(&self) -> (p: PMSIHANDLE)
        ensures
            p.spec_handle() == self.spec_value(),
    {
        PMSIHANDLE { h: *self }
    }

    /// Whether this handle is the null sentinel.
    pub fn is_null(&self) -> (b: bool)
        ensures
            b == (self.spec_value() == 0),
    {
        self.0 == 0
    }

    /// The numeric value of this handle.
    pub fn get(&self) -> (v: u32)
        ensures
            v == self.spec_value(),
    {
        self.0
    }
}

/// An owned engine handle: the resource behind it must be released exactly
/// once.  Release consumes the wrapper, so a released handle cannot be
/// released again; conversely the layer releases every owned handle it
/// creates before letting go of it, on success and failure paths alike.
#[derive(Debug, PartialEq, Eq, Structural)]
pub struct PMSIHANDLE {
    h: MSIHANDLE,
}

impl PMSIHANDLE {
    /// The numeric value of the owned handle.
    pub closed spec fn spec_handle(self) -> u32 {
        self.h.spec_value()
    }

    /// Borrows the underlying handle for a native call, without affecting
    /// the release obligation.
    pub fn handle(&self) -> (h: MSIHANDLE)
        ensures
            h.spec_value() == self.spec_handle(),
    {
        self.h
    }

    /// Releases the engine resource behind this owned handle.  Consuming
    /// the wrapper discharges the release obligation: the handle cannot be
    /// released again, and the engine's release counter records the one
    /// release.  The engine's own status for the close is ignored — a
    /// close must not fail the surrounding operation.
    pub fn release(self, engine: &mut Engine)
        requires
            old(engine)@.wf(),
            old(engine)@.releasable(self.spec_handle()),
        ensures
            final(engine)@.wf(),
            final(engine)@ == (EngineView {
                slots: old(engine)@.slots.update(self.spec_handle() - 1, SlotView::Vacant),
                closed: (old(engine)@.closed + 1) as u64,
                ..old(engine)@
            }),
    {
        let h = self.h.get();
        let _status: u32 = engine.close_handle(h);
    }
}

} // verus!
