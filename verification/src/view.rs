//! Query views: a cursor over an executing query's result set.
//!
//! A view moves through three phases: opened but unexecuted, executing
//! with rows fetchable, and closed.  Executing is allowed only from the
//! unexecuted or closed phase: while a result set is open, the view must
//! first be closed — or its rows fetched to exhaustion — before it may be
//! executed again.

use vstd::prelude::*;

use crate::engine::{Engine, EngineView, QueryView, SlotView, ViewPhase};
use crate::error::{consumed_last_err, Error, ErrorKind};
use crate::native::{ERROR_FUNCTION_FAILED, ERROR_SUCCESS, MSIHANDLE, PMSIHANDLE};
use crate::record::Record;

verus! {

/// Row operations a view can apply at its cursor.  Which operations the
/// engine accepts is the engine's decision; a live install database
/// accepts only the temporary insert, since entry points may not change
/// persistent data.
#[derive(Clone, Copy, Debug, PartialEq, Eq, Structural)]
pub enum ModifyMode {
    /// Moves the cursor to the row matching the record's primary keys.
    Seek,
    /// Refreshes the supplied record from the row under the cursor.
    Refresh,
    /// Inserts the record as a persistent row.
    Insert,
    /// Updates the row under the cursor from the record.
    Update,
    /// Writes the record over the matching row, inserting when none
    /// matches.
    Assign,
    /// Updates or replaces the row matching the record's primary keys.
    Replace,
    /// Inserts the record, or validates it against an identical row.
    Merge,
    /// Deletes the row under the cursor.
    Delete,
    /// Inserts the record as a temporary, non-persistent row.
    InsertTemporary,
}

/// The result set of one query, owned as one engine view handle.
pub struct MsiView {
    h: PMSIHANDLE,
}

impl MsiView {
    /// The engine handle this view owns.
    pub closed spec fn spec_handle(&self) -> u32 {
        self.h.spec_handle()
    }

    /// Whether this view is an open query view of the engine.
    pub open spec fn valid(&self, v: EngineView) -> bool {
        v.valid_qry(self.spec_handle())
    }

    /// The engine-side state of this view: query text, phase, rows, and
    /// cursor.
    pub open spec fn state(&self, v: EngineView) -> QueryView {
        v.qry(self.spec_handle())
    }

    pub(crate) fn raw(&self) -> (h: u32)
        ensures
            h == self.spec_handle(),
    {
        self.h.handle().get()
    }

    /// Releases the result set of an executed view.  Closing is
    /// idempotent; after it the view may be executed again.
    pub fn close(&self, engine: &mut Engine)
        requires
            old(engine)@.wf(),
            self.valid(old(engine)@),
        ensures
            final(engine)@.wf(),
            final(engine)@ == (EngineView {
                slots: old(engine)@.slots.update(
                    self.spec_handle() - 1,
                    SlotView::Qry(
                        QueryView {
                            query: self.state(old(engine)@).query,
                            phase: ViewPhase::Closed,
                            rows: Seq::empty(),
                            cursor: 0,
                        },
                    ),
                ),
                ..old(engine)@
            }),
    {
        engine.view_close(self.raw());
    }

    /// Executes the view's query.  An optional parameter record supplies
    /// the values of the query's placeholders; the engine binds them, and
    /// the record, no longer needed afterwards, is released.  Execution is
    /// refused while a result set is open; the refusal is surfaced with
    /// the engine's pending diagnostic record when one is available, else
    /// with the bare status code.
    pub fn execute(&self, engine: &mut Engine, record: Option<Record>) -> (r: Result<(), Error>)
        requires
            old(engine)@.wf(),
            self.valid(old(engine)@),
            old(engine)@.can_alloc(),
            (match record {
                Some(rec) => rec.valid(old(engine)@),
                None => true,
            }),
        ensures
            final(engine)@.wf(),
            ({
                let base = (match record {
                    Some(rec) => (EngineView {
                        slots: old(engine)@.slots.update(rec.spec_handle() - 1, SlotView::Vacant),
                        closed: (old(engine)@.closed + 1) as u64,
                        ..old(engine)@
                    }),
                    None => old(engine)@,
                });
                let q = old(engine)@.qry(self.spec_handle());
                match r {
                    Ok(_) => !(q.phase is Executing) && final(engine)@ == (EngineView {
                        slots: base.slots.update(
                            self.spec_handle() - 1,
                            SlotView::Qry(
                                QueryView {
                                    query: q.query,
                                    phase: ViewPhase::Executing,
                                    rows: old(engine)@.stored_rows(q.query),
                                    cursor: 0,
                                },
                            ),
                        ),
                        ..base
                    }),
                    Err(e) => q.phase is Executing && e.wf() && (old(engine)@.last_err is Some
                        ==> e.spec_kind() == ErrorKind::ErrorRecord) && (old(engine)@.last_err
                        is None ==> e.spec_kind() == ErrorKind::ErrorCode(ERROR_FUNCTION_FAILED))
                        && final(engine)@ == consumed_last_err(base),
                }
            }),
    {
        if let Some(rec) = record {
            rec.release(engine);
        }
        let ghost base = engine@;
        let status: u32 = engine.view_execute(self.raw());
        if status != ERROR_SUCCESS {
            let e = match Error::from_last_error_record(engine) {
                Some(e) => e,
                None => Error::from_error_code(status),
            };
            proof {
                assert(engine@ =~~= consumed_last_err(base));
            }
            return Err(e);
        }
        Ok(())
    }

    /// Applies a row operation to the record and the view's cursor.  The
    /// engine decides the operation's fate; against a live install
    /// database every persistent mutation is refused, and only
    /// [`ModifyMode::InsertTemporary`] succeeds, inserting the record's
    /// fields as a temporary row of the view's query.  A refusal is
    /// surfaced with the engine's pending diagnostic record when one is
    /// available, else with the bare status code.
    pub fn modify(&self, engine: &mut Engine, mode: ModifyMode, record: &Record) -> (r: Result<
        (),
        Error,
    >)
        requires
            old(engine)@.wf(),
            self.valid(old(engine)@),
            record.valid(old(engine)@),
            old(engine)@.can_alloc(),
        ensures
            final(engine)@.wf(),
            ({
                let q = old(engine)@.qry(self.spec_handle());
                let applies = q.phase is Executing && mode == ModifyMode::InsertTemporary;
                match r {
                    Ok(_) => applies && (forall|k: Seq<char>| #[trigger] final(engine)@.stored_rows(k) == (if k == q.query {
                        old(engine)@.stored_rows(k).push(record.fields(old(engine)@))
                    } else {
                        old(engine)@.stored_rows(k)
                    })) && final(engine)@ == (EngineView {
                        store: final(engine)@.store,
                        ..old(engine)@
                    }),
                    Err(e) => !applies && e.wf() && (old(engine)@.last_err is Some ==> e.spec_kind()
                        == ErrorKind::ErrorRecord) && (old(engine)@.last_err is None
                        ==> e.spec_kind() == ErrorKind::ErrorCode(ERROR_FUNCTION_FAILED)) && final(engine)@ == consumed_last_err(old(engine)@),
                }
            }),
    {
        let temporary = match mode {
            ModifyMode::InsertTemporary => true,
            _ => false,
        };
        let status: u32 = engine.view_modify(self.raw(), temporary, record.raw());
        if status != ERROR_SUCCESS {
            let e = match Error::from_last_error_record(engine) {
                Some(e) => e,
                None => Error::from_error_code(status),
            };
            proof {
                assert(engine@ =~~= consumed_last_err(old(engine)@));
            }
            return Err(e);
        }
        Ok(())
    }

    /// Fetches the next row of the executing result set as a fresh
    /// record.  The sequence is single-pass: fetching past the last row
    /// yields nothing and releases the result set, after which the view
    /// may be executed again.  A view that is not executing yields
    /// nothing.
    pub fn fetch(&self, engine: &mut Engine) -> (r: Option<Record>)
        requires
            old(engine)@.wf(),
            self.valid(old(engine)@),
            old(engine)@.can_alloc(),
        ensures
            final(engine)@.wf(),
            ({
                let q = old(engine)@.qry(self.spec_handle());
                match r {
                    Some(rec) => q.phase is Executing && q.cursor < q.rows.len() && rec.valid(
                        final(engine)@,
                    ) && rec.spec_handle() == old(engine)@.slots.len() + 1 && rec.fields(
                        final(engine)@,
                    ) == q.rows[q.cursor] && final(engine)@ == (EngineView {
                        slots: old(engine)@.slots.update(
                            self.spec_handle() - 1,
                            SlotView::Qry(
                                QueryView {
                                    query: q.query,
                                    phase: ViewPhase::Executing,
                                    rows: q.rows,
                                    cursor: q.cursor + 1,
                                },
                            ),
                        ).push(SlotView::Rec(q.rows[q.cursor])),
                        opened: (old(engine)@.opened + 1) as u64,
                        ..old(engine)@
                    }),
                    None => (!(q.phase is Executing) && final(engine)@ == old(engine)@) || (q.phase
                        is Executing && q.cursor == q.rows.len() && final(engine)@ == (EngineView {
                        slots: old(engine)@.slots.update(
                            self.spec_handle() - 1,
                            SlotView::Qry(
                                QueryView {
                                    query: q.query,
                                    phase: ViewPhase::Closed,
                                    rows: Seq::empty(),
                                    cursor: 0,
                                },
                            ),
                        ),
                        ..old(engine)@
                    })),
                }
            }),
    {
        let (_status, h) = engine.view_fetch(self.raw());
        if h == 0 {
            None
        } else {
            Some(Record::from_handle(MSIHANDLE::new(h)))
        }
    }

    /// Releases the view's engine handle, closing its result set first.
    /// Consuming the view discharges its release obligation exactly once.
    pub fn release(self, engine: &mut Engine)
        requires
            old(engine)@.wf(),
            self.valid(old(engine)@),
        ensures
            final(engine)@.wf(),
            final(engine)@ == (EngineView {
                slots: old(engine)@.slots.update(self.spec_handle() - 1, SlotView::Vacant),
                closed: (old(engine)@.closed + 1) as u64,
                ..old(engine)@
            }),
    {
        self.close(engine);
        self.h.release(engine);
        proof {
            assert(engine@ =~~= (EngineView {
                slots: old(engine)@.slots.update(self.spec_handle() - 1, SlotView::Vacant),
                closed: (old(engine)@.closed + 1) as u64,
                ..old(engine)@
            }));
        }
    }

    /// Takes ownership of the view behind an engine handle.
    pub fn from_handle(h: MSIHANDLE) -> (r: MsiView)
        ensures
            r.spec_handle() == h.spec_value(),
    {
        MsiView { h: h.to_owned() }
    }
}

} // verus!
