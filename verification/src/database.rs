//! The active install database of a session.
//!
//! A database produces query views and primary-key metadata records.  It
//! is read-only for persistent data: per the engine's restriction, entry
//! points may add, change, or remove only temporary rows.

use vstd::prelude::*;

use crate::engine::{pk_fields, Engine, EngineView, QueryView, SlotView, ViewPhase};
use crate::error::{Error, ErrorKind};
use crate::native::{ERROR_INVALID_TABLE, ERROR_SUCCESS, MSIHANDLE, PMSIHANDLE};
use crate::record::Record;
use crate::text::{contains_nul, has_nul};
use crate::view::MsiView;
use vstd::string::StringExecFns;

verus! {

/// The install database of a session, owned as one engine handle.
pub struct Database {
    h: PMSIHANDLE,
}

impl Database {
    /// The engine handle this database owns.
    pub closed spec fn spec_handle(&self) -> u32 {
        self.h.spec_handle()
    }

    /// Whether this database is an open database handle of the engine.
    pub open spec fn valid(&self, v: EngineView) -> bool {
        v.valid_db(self.spec_handle())
    }

    /// Opens a query view for a query text.  The text is in the install
    /// database's own query dialect, opaque to this layer and passed
    /// through verbatim; its validation is the engine's.  A text holding
    /// an embedded NUL cannot cross the native surface and is refused as
    /// a conversion error.
    pub fn open_view(&self, engine: &mut Engine, sql: &str) -> (r: Result<MsiView, Error>)
        requires
            old(engine)@.wf(),
            self.valid(old(engine)@),
            old(engine)@.can_alloc(),
        ensures
            final(engine)@.wf(),
            match r {
                Ok(view) => {
                    &&& !has_nul(sql@)
                    &&& view.valid(final(engine)@)
                    &&& view.spec_handle() == old(engine)@.slots.len() + 1
                    &&& view.state(final(engine)@) == (QueryView {
                        query: sql@,
                        phase: ViewPhase::Unexecuted,
                        rows: Seq::empty(),
                        cursor: 0,
                    })
                    &&& final(engine)@ == (EngineView {
                        slots: old(engine)@.slots.push(
                            SlotView::Qry(
                                QueryView {
                                    query: sql@,
                                    phase: ViewPhase::Unexecuted,
                                    rows: Seq::empty(),
                                    cursor: 0,
                                },
                            ),
                        ),
                        opened: (old(engine)@.opened + 1) as u64,
                        ..old(engine)@
                    })
                },
                Err(e) => {
                    &&& has_nul(sql@)
                    &&& e.wf()
                    &&& e.spec_kind() == ErrorKind::DataConversion
                    &&& final(engine)@ == old(engine)@
                },
            },
    {
        if contains_nul(sql) {
            return Err(
                Error::new(
                    ErrorKind::DataConversion,
                    String::from_str("query text holds an embedded NUL"),
                ),
            );
        }
        let h = engine.open_view(self.h.handle().get(), sql);
        Ok(MsiView::from_handle(MSIHANDLE::new(h)))
    }

    /// Builds the primary-key description of a table: a fresh record
    /// whose template field holds the table name and whose fields 1..=N
    /// hold the primary-key column names, so its field count is the
    /// count of primary-key columns.  An unknown table, or a name holding
    /// an embedded NUL, is refused.
    pub fn primary_keys(&self, engine: &mut Engine, table: &str) -> (r: Result<Record, Error>)
        requires
            old(engine)@.wf(),
            self.valid(old(engine)@),
            old(engine)@.can_alloc(),
        ensures
            final(engine)@.wf(),
            match r {
                Ok(rec) => {
                    &&& !has_nul(table@)
                    &&& old(engine)@.table_cols(table@) is Some
                    &&& rec.valid(final(engine)@)
                    &&& rec.spec_handle() == old(engine)@.slots.len() + 1
                    &&& rec.fields(final(engine)@) == pk_fields(
                        table@,
                        old(engine)@.table_cols(table@).unwrap(),
                    )
                    &&& final(engine)@ == (EngineView {
                        slots: old(engine)@.slots.push(
                            SlotView::Rec(
                                pk_fields(table@, old(engine)@.table_cols(table@).unwrap()),
                            ),
                        ),
                        opened: (old(engine)@.opened + 1) as u64,
                        ..old(engine)@
                    })
                },
                Err(e) => {
                    &&& e.wf()
                    &&& final(engine)@ == old(engine)@
                    &&& (has_nul(table@) ==> e.spec_kind() == ErrorKind::DataConversion)
                    &&& (!has_nul(table@) ==> old(engine)@.table_cols(table@) is None
                        && e.spec_kind() == ErrorKind::ErrorCode(ERROR_INVALID_TABLE))
                },
            },
    {
        if contains_nul(table) {
            return Err(
                Error::new(
                    ErrorKind::DataConversion,
                    String::from_str("table name holds an embedded NUL"),
                ),
            );
        }
        let (status, h) = engine.primary_keys(table);
        if status != ERROR_SUCCESS {
            return Err(Error::from_error_code(status));
        }
        Ok(Record::from_handle(MSIHANDLE::new(h)))
    }

    /// Releases the database's engine handle.  Consuming the database
    /// discharges its release obligation exactly once.
    pub fn release(self, engine: &mut Engine)
        requires
            old(engine)@.wf(),
            self.valid(old(engine)@),
        ensures
            final(engine)@.wf(),
            final(engine)@ == (EngineView {
                slots: old(engine)@.slots.update(self.spec_handle() - 1, SlotView::Vacant),
                closed: (old(engine)@.closed + 1) as u64,
                ..old(engine)@
            }),
    {
        self.h.release(engine);
    }

    /// Takes ownership of the database behind an engine handle.
    pub fn from_handle(h: MSIHANDLE) -> (r: Database)
        ensures
            r.spec_handle() == h.spec_value(),
    {
        Database { h: h.to_owned() }
    }
}

} // verus!
