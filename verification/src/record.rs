//! Typed, ordered field collections.
//!
//! A record is an engine resource: an ordered sequence of fields addressed
//! by 1-based index, with an optional template string stored at index 0.
//! [`Field`] is the typed value a single field holds; [`Record`] owns the
//! engine handle of one record resource.

use vstd::prelude::*;
use vstd::string::StringExecFns;

use crate::engine::{Engine, EngineView, SlotView, StringSource, MAX_RECORD_FIELDS};
use crate::error::{Error, ErrorKind};
use crate::format::string_of_field;
use crate::marshal::read_string;
use crate::native::{
    ERROR_SUCCESS, MSIHANDLE, MSI_NULL_INTEGER, PMSIHANDLE,
};
use crate::text::{contains_nul, has_nul};

verus! {

/// A field in a [`Record`].
#[derive(Debug)]
pub enum Field {
    /// A string field.
    StringData(String),
    /// An integer field.
    IntegerData(i32),
    /// A null field.
    Null,
}

/// The mathematical value of a [`Field`].
#[verifier::ext_equal]
pub ghost enum FieldView {
    StringData(Seq<char>),
    IntegerData(int),
    Null,
}

impl View for Field {
    type V = FieldView;

    open spec fn view(&self) -> FieldView {
        match self {
            Field::StringData(s) => FieldView::StringData(s@),
            Field::IntegerData(n) => FieldView::IntegerData(*n as int),
            Field::Null => FieldView::Null,
        }
    }
}

impl Clone for Field {
    /// Cloning a field preserves its value.
    fn clone(&self) -> (r: Field)
        ensures
            r@ == self@,
    {
        match self {
            Field::StringData(s) => Field::StringData(s.clone()),
            Field::IntegerData(n) => Field::IntegerData(*n),
            Field::Null => Field::Null,
        }
    }
}

/// The value a field write leaves behind.  The engine stores an empty
/// string and the null-integer sentinel as null: both mean "no value" at
/// the native surface.
pub open spec fn stored_field(f: FieldView) -> FieldView {
    match f {
        FieldView::StringData(s) => if s.len() == 0 {
            FieldView::Null
        } else {
            FieldView::StringData(s)
        },
        FieldView::IntegerData(n) => if n == MSI_NULL_INTEGER as int {
            FieldView::Null
        } else {
            FieldView::IntegerData(n)
        },
        FieldView::Null => FieldView::Null,
    }
}

/// Whether a field value cannot be written to the native surface: a
/// string holding an embedded NUL.
pub open spec fn field_rejected(f: FieldView) -> bool {
    match f {
        FieldView::StringData(s) => has_nul(s),
        _ => false,
    }
}

/// The fields a record built from a template and a field list holds after
/// the template and the first `k` listed fields are written.
pub open spec fn built_fields(text: Option<&str>, fields: Seq<Field>, k: int) -> Seq<FieldView> {
    Seq::new(
        (fields.len() + 1) as nat,
        |j: int|
            if j == 0 {
                match text {
                    Some(t) => stored_field(FieldView::StringData(t@)),
                    None => FieldView::Null,
                }
            } else if j <= k {
                stored_field(fields[j - 1]@)
            } else {
                FieldView::Null
            },
    )
}

/// An ordered collection of typed fields, owned as one engine record.
/// Field indices are 1-based; the implicit field zero holds the template.
#[derive(Debug)]
pub struct Record {
    h: PMSIHANDLE,
}

impl Record {
    /// The engine handle this record owns.
    pub closed spec fn spec_handle(&self) -> u32 {
        self.h.spec_handle()
    }

    /// Whether this record is an open record of the engine.
    pub open spec fn valid(&self, v: EngineView) -> bool {
        v.valid_rec(self.spec_handle())
    }

    /// The fields of this record, the template at index zero.
    pub open spec fn fields(&self, v: EngineView) -> Seq<FieldView> {
        v.rec_fields(self.spec_handle())
    }

    pub(crate) fn raw(&self) -> (h: u32)
        ensures
            h == self.spec_handle(),
    {
        self.h.handle().get()
    }

    /// Creates an empty record with the given count of writable fields,
    /// all initially null.
    pub fn new(engine: &mut Engine, field_count: u32) -> (r: Record)
        requires
            old(engine)@.wf(),
            old(engine)@.can_alloc(),
            field_count <= MAX_RECORD_FIELDS,
        ensures
            final(engine)@.wf(),
            r.valid(final(engine)@),
            r.spec_handle() == old(engine)@.slots.len() + 1,
            r.fields(final(engine)@) == Seq::new(
                (field_count + 1) as nat,
                |i: int| FieldView::Null,
            ),
            final(engine)@ == (EngineView {
                slots: old(engine)@.slots.push(
                    SlotView::Rec(Seq::new((field_count + 1) as nat, |i: int| FieldView::Null)),
                ),
                opened: (old(engine)@.opened + 1) as u64,
                ..old(engine)@
            }),
    {
        let h = engine.create_record(field_count);
        Record { h: MSIHANDLE::new(h).to_owned() }
    }

    /// Creates a record holding the given typed fields, written in order
    /// from index 1, with an optional template in field zero.  When a
    /// write is refused — a string holding an embedded NUL — the partially
    /// built record is released before the error returns, so no handle
    /// leaks on any path.
    pub fn with_fields(engine: &mut Engine, text: Option<&str>, fields: Vec<Field>) -> (r: Result<
        Record,
        Error,
    >)
        requires
            old(engine)@.wf(),
            old(engine)@.can_alloc(),
            fields@.len() <= MAX_RECORD_FIELDS,
        ensures
            final(engine)@.wf(),
            match r {
                Ok(rec) => {
                    &&& (match text {
                        Some(t) => !has_nul(t@),
                        None => true,
                    })
                    &&& (forall|i: int|
                        0 <= i < fields@.len() ==> !field_rejected(#[trigger] fields@[i]@))
                    &&& rec.valid(final(engine)@)
                    &&& rec.spec_handle() == old(engine)@.slots.len() + 1
                    &&& rec.fields(final(engine)@) == built_fields(
                        text,
                        fields@,
                        fields@.len() as int,
                    )
                    &&& final(engine)@ == (EngineView {
                        slots: old(engine)@.slots.push(
                            SlotView::Rec(built_fields(text, fields@, fields@.len() as int)),
                        ),
                        opened: (old(engine)@.opened + 1) as u64,
                        ..old(engine)@
                    })
                },
                Err(e) => {
                    &&& e.wf()
                    &&& e.spec_kind() == ErrorKind::DataConversion
                    &&& ((match text {
                        Some(t) => has_nul(t@),
                        None => false,
                    }) || exists|i: int|
                        0 <= i < fields@.len() && field_rejected(#[trigger] fields@[i]@))
                    &&& final(engine)@ == (EngineView {
                        slots: old(engine)@.slots.push(SlotView::Vacant),
                        opened: (old(engine)@.opened + 1) as u64,
                        closed: (old(engine)@.closed + 1) as u64,
                        ..old(engine)@
                    })
                },
            },
    {
        let ghost pre = engine@;
        let record = Record::new(engine, fields.len() as u32);
        if let Some(t) = text {
            match record.set_string_data(engine, 0, Some(t)) {
                Ok(_) => {},
                Err(e) => {
                    record.release(engine);
                    proof {
                        assert(engine@ =~~= (EngineView {
                            slots: pre.slots.push(SlotView::Vacant),
                            opened: (pre.opened + 1) as u64,
                            closed: (pre.closed + 1) as u64,
                            ..pre
                        }));
                    }
                    return Err(e);
                },
            }
        }
        proof {
            assert(engine@ =~~= (EngineView {
                slots: pre.slots.push(SlotView::Rec(built_fields(text, fields@, 0))),
                opened: (pre.opened + 1) as u64,
                ..pre
            }));
        }
        let mut i: usize = 0;
        while i < fields.len()
            invariant
                engine@.wf(),
                pre == old(engine)@,
                pre.wf(),
                pre.can_alloc(),
                fields@.len() <= MAX_RECORD_FIELDS,
                i <= fields@.len(),
                record.valid(engine@),
                record.spec_handle() == pre.slots.len() + 1,
                (match text {
                    Some(t) => !has_nul(t@),
                    None => true,
                }),
                forall|j: int| 0 <= j < i ==> !field_rejected(#[trigger] fields@[j]@),
                engine@ == (EngineView {
                    slots: pre.slots.push(SlotView::Rec(built_fields(text, fields@, i as int))),
                    opened: (pre.opened + 1) as u64,
                    ..pre
                }),
            decreases fields@.len() - i,
        {
            let res: Result<(), Error> = match &fields[i] {
                Field::StringData(s) => record.set_string_data(
                    engine,
                    (i + 1) as u32,
                    Some(s.as_str()),
                ),
                Field::IntegerData(v) => record.set_integer_data(engine, (i + 1) as u32, *v),
                Field::Null => Ok(()),
            };
            match res {
                Ok(_) => {
                    proof {
                        assert(engine@ =~~= (EngineView {
                            slots: pre.slots.push(
                                SlotView::Rec(built_fields(text, fields@, (i + 1) as int)),
                            ),
                            opened: (pre.opened + 1) as u64,
                            ..pre
                        }));
                    }
                },
                Err(e) => {
                    record.release(engine);
                    proof {
                        assert(field_rejected(fields@[i as int]@));
                        assert(engine@ =~~= (EngineView {
                            slots: pre.slots.push(SlotView::Vacant),
                            opened: (pre.opened + 1) as u64,
                            closed: (pre.closed + 1) as u64,
                            ..pre
                        }));
                    }
                    return Err(e);
                },
            }
            i = i + 1;
        }
        Ok(record)
    }

    /// The count of writable fields in the record, excluding the template
    /// field.
    pub fn field_count(&self, engine: &Engine) -> (n: u32)
        requires
            engine@.wf(),
            self.valid(engine@),
        ensures
            n as int == self.fields(engine@).len() - 1,
    {
        engine.record_field_count(self.raw())
    }

    /// Formats the record's template over its fields.  Square brackets
    /// reference fields by 1-based index; a curly-brace span is omitted
    /// when any reference it encloses is null.  The substitution itself is
    /// the engine's; this layer marshals the call through the buffer
    /// protocol.
    pub fn format_text(&self, engine: &Engine) -> (r: Result<String, Error>)
        requires
            engine@.wf(),
            self.valid(engine@),
        ensures
            match r {
                Ok(s) => crate::format::format_record(self.fields(engine@)).len() < u32::MAX
                    && s@ == crate::format::format_record(self.fields(engine@)),
                Err(e) => e.wf() && crate::format::format_record(self.fields(engine@)).len()
                    >= u32::MAX && e.spec_kind() == ErrorKind::ErrorCode(
                    crate::native::ERROR_FUNCTION_FAILED,
                ),
            },
    {
        read_string(engine, &StringSource::FormatRecord(self.raw()))
    }

    /// Reads a string field.  Field indices are 1-based; index zero reads
    /// the template.  An integer field reads as its decimal rendering and
    /// a null field as the empty string, as the native accessor renders
    /// them; an index past the record's field count is refused.
    pub fn string_data(&self, engine: &Engine, field: u32) -> (r: Result<String, Error>)
        requires
            engine@.wf(),
            self.valid(engine@),
        ensures
            match r {
                Ok(s) => (field as int) < self.fields(engine@).len() && string_of_field(
                    self.fields(engine@)[field as int],
                ).len() < u32::MAX && s@ == string_of_field(self.fields(engine@)[field as int]),
                Err(e) => e.wf() && (((field as int) >= self.fields(engine@).len()
                    && e.spec_kind() == ErrorKind::ErrorCode(
                    crate::native::ERROR_INVALID_PARAMETER,
                )) || ((field as int) < self.fields(engine@).len() && string_of_field(
                    self.fields(engine@)[field as int],
                ).len() >= u32::MAX && e.spec_kind() == ErrorKind::ErrorCode(
                    crate::native::ERROR_FUNCTION_FAILED,
                ))),
            },
    {
        read_string(engine, &StringSource::RecordField(self.raw(), field))
    }

    /// Sets a string field, or clears it to null when no value — or an
    /// empty value — is given.  Field indices are 1-based; index zero sets
    /// the template.  A value holding an embedded NUL cannot cross the
    /// native surface and is refused as a conversion error; an index past
    /// the record's field count is refused with the engine's status.
    pub fn set_string_data(&self, engine: &mut Engine, field: u32, value: Option<&str>) -> (r:
        Result<(), Error>)
        requires
            old(engine)@.wf(),
            self.valid(old(engine)@),
        ensures
            final(engine)@.wf(),
            match r {
                Ok(_) => {
                    &&& (match value {
                        Some(s) => !has_nul(s@),
                        None => true,
                    })
                    &&& (field as int) < self.fields(old(engine)@).len()
                    &&& final(engine)@ == (EngineView {
                        slots: old(engine)@.slots.update(
                            self.spec_handle() - 1,
                            SlotView::Rec(
                                self.fields(old(engine)@).update(
                                    field as int,
                                    match value {
                                        Some(s) => stored_field(FieldView::StringData(s@)),
                                        None => FieldView::Null,
                                    },
                                ),
                            ),
                        ),
                        ..old(engine)@
                    })
                },
                Err(e) => {
                    &&& e.wf()
                    &&& final(engine)@ == old(engine)@
                    &&& ((match value {
                        Some(s) => has_nul(s@),
                        None => false,
                    }) ==> e.spec_kind() == ErrorKind::DataConversion)
                    &&& (!(match value {
                        Some(s) => has_nul(s@),
                        None => false,
                    }) ==> (field as int) >= self.fields(old(engine)@).len() && e.spec_kind()
                        == ErrorKind::ErrorCode(crate::native::ERROR_INVALID_PARAMETER))
                },
            },
    {
        let f: Field = match value {
            Some(s) => {
                if contains_nul(s) {
                    return Err(
                        Error::new(
                            ErrorKind::DataConversion,
                            String::from_str("string value holds an embedded NUL"),
                        ),
                    );
                }
                if s.is_empty() {
                    Field::Null
                } else {
                    Field::StringData(s.to_owned())
                }
            },
            None => Field::Null,
        };
        let status: u32 = engine.record_set_field(self.raw(), field, f);
        if status != ERROR_SUCCESS {
            return Err(Error::from_error_code(status));
        }
        Ok(())
    }

    /// Reads an integer field.  Field indices are 1-based.  A field that
    /// holds no integer — null, a string, or an out-of-range index — reads
    /// as no value, never as a literal integer: the native accessor's
    /// sentinel is mapped to absence.
    pub fn integer_data(&self, engine: &Engine, field: u32) -> (r: Option<i32>)
        requires
            engine@.wf(),
            self.valid(engine@),
        ensures
            r == (if (field as int) < self.fields(engine@).len() {
                match self.fields(engine@)[field as int] {
                    FieldView::IntegerData(v) => if v == MSI_NULL_INTEGER as int {
                        Option::<i32>::None
                    } else {
                        Option::<i32>::Some(v as i32)
                    },
                    _ => Option::<i32>::None,
                }
            } else {
                Option::<i32>::None
            }),
    {
        let v = engine.record_get_integer(self.raw(), field);
        if v == MSI_NULL_INTEGER {
            None
        } else {
            Some(v)
        }
    }

    /// Sets an integer field.  Field indices are 1-based.  Writing the
    /// engine's null sentinel clears the field, as the native accessor
    /// does; an index past the record's field count is refused.
    pub fn set_integer_data(&self, engine: &mut Engine, field: u32, value: i32) -> (r: Result<
        (),
        Error,
    >)
        requires
            old(engine)@.wf(),
            self.valid(old(engine)@),
        ensures
            final(engine)@.wf(),
            match r {
                Ok(_) => {
                    &&& (field as int) < self.fields(old(engine)@).len()
                    &&& final(engine)@ == (EngineView {
                        slots: old(engine)@.slots.update(
                            self.spec_handle() - 1,
                            SlotView::Rec(
                                self.fields(old(engine)@).update(
                                    field as int,
                                    stored_field(FieldView::IntegerData(value as int)),
                                ),
                            ),
                        ),
                        ..old(engine)@
                    })
                },
                Err(e) => {
                    &&& e.wf()
                    &&& final(engine)@ == old(engine)@
                    &&& (field as int) >= self.fields(old(engine)@).len()
                    &&& e.spec_kind() == ErrorKind::ErrorCode(
                        crate::native::ERROR_INVALID_PARAMETER,
                    )
                },
            },
    {
        let f = if value == MSI_NULL_INTEGER {
            Field::Null
        } else {
            Field::IntegerData(value)
        };
        let status: u32 = engine.record_set_field(self.raw(), field, f);
        if status != ERROR_SUCCESS {
            return Err(Error::from_error_code(status));
        }
        Ok(())
    }

    /// Reads bytes of a stream field.  Stream fields are not carried by
    /// this layer; the read yields no bytes.
    pub fn stream_data(&self, engine: &Engine, _field: u32) -> (r: Vec<u8>)
        requires
            engine@.wf(),
            self.valid(engine@),
        ensures
            r@ == Seq::<u8>::empty(),
    {
        Vec::new()
    }

    /// Whether a field holds no value of any kind.  Field indices are
    /// 1-based; an index past the record's field count reads as null.
    pub fn is_null(&self, engine: &Engine, field: u32) -> (b: bool)
        requires
            engine@.wf(),
            self.valid(engine@),
        ensures
            b == (if (field as int) < self.fields(engine@).len() {
                self.fields(engine@)[field as int] is Null
            } else {
                true
            }),
    {
        engine.record_is_null(self.raw(), field)
    }

    /// Releases the record's engine handle.  Consuming the record
    /// discharges its release obligation exactly once.
    pub fn release(self, engine: &mut Engine)
        requires
            old(engine)@.wf(),
            self.valid(old(engine)@),
        ensures
            final(engine)@.wf(),
            final(engine)@ == (EngineView {
                slots: old(engine)@.slots.update(self.spec_handle() - 1, SlotView::Vacant),
                closed: (old(engine)@.closed + 1) as u64,
                ..old(engine)@
            }),
    {
        self.h.release(engine);
    }

    /// Takes ownership of the record behind an engine handle.
    pub fn from_handle(h: MSIHANDLE) -> (r: Record)
        ensures
            r.spec_handle() == h.spec_value(),
    {
        Record { h: h.to_owned() }
    }
}

} // verus!
