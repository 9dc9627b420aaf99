//! An explicit model of the installer engine's native call surface.
//!
//! The engine owns every resource the layer works with: records, query
//! views, database handles, the property store, the action log, the message
//! log, and the process-wide last-error record.  [`Engine`] holds that state
//! as a value, and each native call of the surface is a method on it whose
//! contract states the documented status-code behaviour.  The layer above
//! (records, views, databases, sessions) is verified against these
//! contracts, and the same methods run under test, so the model doubles as
//! the call counter a release-discipline check needs: every allocation
//! increments `opened`, every release increments `closed`.

use vstd::prelude::*;
use vstd::string::StrSliceExecFns;

use crate::native::{
    ERROR_FUNCTION_FAILED, ERROR_INVALID_HANDLE, ERROR_INVALID_PARAMETER, ERROR_MORE_DATA,
    ERROR_NO_MORE_ITEMS, ERROR_SUCCESS, MSIHANDLE,
};
use crate::record::{Field, FieldView};

verus! {

/// The number of run-mode flags the engine distinguishes.
pub const RUN_MODE_FLAGS: usize = 19;

/// The largest field count a record can be created with.
pub const MAX_RECORD_FIELDS: u32 = 65535;

/// The execution state of a query view.
#[derive(Clone, Copy, Debug, PartialEq, Eq, Structural)]
pub enum ViewPhase {
    /// The view was opened but not yet executed.
    Unexecuted,
    /// The view was executed; rows may be fetched.
    Executing,
    /// The result set was released; the view may be executed again.
    Closed,
}

/// The engine-side state of one open query view.
pub(crate) struct QueryState {
    pub(crate) query: String,
    pub(crate) phase: ViewPhase,
    pub(crate) rows: Vec<Vec<Field>>,
    pub(crate) cursor: usize,
}

/// The mathematical value of a [`QueryState`].
#[verifier::ext_equal]
pub ghost struct QueryView {
    pub query: Seq<char>,
    pub phase: ViewPhase,
    pub rows: Seq<Seq<FieldView>>,
    pub cursor: int,
}

/// One handle slot of the engine.  A handle value `h` names the slot at
/// index `h - 1`; handles are never reused, so a released slot stays vacant.
pub(crate) enum Slot {
    /// The slot was released.
    Vacant,
    /// The session handle the engine itself owns.
    Host,
    /// An open record.
    Rec(Vec<Field>),
    /// An open query view.
    Qry(QueryState),
    /// An open database handle.
    Db,
}

/// The mathematical value of a [`Slot`].
#[verifier::ext_equal]
pub ghost enum SlotView {
    Vacant,
    Host,
    Rec(Seq<FieldView>),
    Qry(QueryView),
    Db,
}

/// The values of a sequence of fields.
pub open spec fn fields_view(fields: Seq<Field>) -> Seq<FieldView> {
    fields.map_values(|f: Field| f@)
}

/// The values of a sequence of rows of fields.
pub open spec fn rows_view(rows: Seq<Vec<Field>>) -> Seq<Seq<FieldView>> {
    rows.map_values(|r: Vec<Field>| fields_view(r@))
}

impl View for QueryState {
    type V = QueryView;

    closed spec fn view(&self) -> QueryView {
        QueryView {
            query: self.query@,
            phase: self.phase,
            rows: rows_view(self.rows@),
            cursor: self.cursor as int,
        }
    }
}

impl View for Slot {
    type V = SlotView;

    closed spec fn view(&self) -> SlotView {
        match self {
            Slot::Vacant => SlotView::Vacant,
            Slot::Host => SlotView::Host,
            Slot::Rec(fields) => SlotView::Rec(fields_view(fields@)),
            Slot::Qry(q) => SlotView::Qry(q@),
            Slot::Db => SlotView::Db,
        }
    }
}

/// The first value stored under a key in an association sequence.
pub open spec fn assoc_get<T>(s: Seq<(Seq<char>, T)>, key: Seq<char>) -> Option<T>
    decreases s.len(),
{
    if s.len() == 0 {
        None
    } else if s[0].0 == key {
        Some(s[0].1)
    } else {
        assoc_get(s.skip(1), key)
    }
}

/// Whether the keys of an association sequence are pairwise distinct.
pub open spec fn assoc_unique<T>(s: Seq<(Seq<char>, T)>) -> bool {
    forall|i: int, j: int| 0 <= i < j < s.len() ==> s[i].0 != s[j].0
}

/// The mathematical state of the engine.
#[verifier::ext_equal]
pub ghost struct EngineView {
    /// Handle slots; handle `h` names `slots[h - 1]`.
    pub slots: Seq<SlotView>,
    /// The property store: name/value pairs with distinct names.  A cleared
    /// property holds the empty value, indistinguishable from an absent one.
    pub props: Seq<(Seq<char>, Seq<char>)>,
    /// Table definitions of the install database: name and primary-key
    /// column names.
    pub tables: Seq<(Seq<char>, Seq<Seq<char>>)>,
    /// Temporary rows, grouped by the query text they were inserted under.
    pub store: Seq<(Seq<char>, Seq<Seq<FieldView>>)>,
    /// Names of the actions invoked so far, in order.
    pub actions: Seq<Seq<char>>,
    /// Messages dispatched so far: native kind tag and formatted text.
    pub msgs: Seq<(u32, Seq<char>)>,
    /// The pending process-wide diagnostic record, if any.
    pub last_err: Option<Seq<FieldView>>,
    /// The run-mode flags, by flag index.
    pub modes: Seq<bool>,
    /// The language identifier of the session.
    pub lang: u16,
    /// The response the engine gives to dispatched messages.
    pub response: i32,
    /// How many handles the engine has issued to the layer.
    pub opened: u64,
    /// How many issued handles have been released.
    pub closed: u64,
}

/// One where a vacant slot counts, zero elsewhere.
pub open spec fn is_vacant_n(s: SlotView) -> nat {
    if s is Vacant {
        1
    } else {
        0
    }
}

/// One where an issued, still-open slot counts, zero elsewhere.
pub open spec fn is_live_n(s: SlotView) -> nat {
    if s is Vacant || s is Host {
        0
    } else {
        1
    }
}

/// One where the engine-owned session slot counts, zero elsewhere.
pub open spec fn is_host_n(s: SlotView) -> nat {
    if s is Host {
        1
    } else {
        0
    }
}

/// The number of vacant slots.
pub open spec fn count_vacant(s: Seq<SlotView>) -> nat
    decreases s.len(),
{
    if s.len() == 0 {
        0
    } else {
        count_vacant(s.drop_last()) + is_vacant_n(s.last())
    }
}

/// The number of issued, still-open slots.
pub open spec fn count_live(s: Seq<SlotView>) -> nat
    decreases s.len(),
{
    if s.len() == 0 {
        0
    } else {
        count_live(s.drop_last()) + is_live_n(s.last())
    }
}

/// The number of session slots.
pub open spec fn count_host(s: Seq<SlotView>) -> nat
    decreases s.len(),
{
    if s.len() == 0 {
        0
    } else {
        count_host(s.drop_last()) + is_host_n(s.last())
    }
}

/// Well-formedness of one row of fields: the implicit template field is
/// always there, and the field count respects the engine's cap.
pub open spec fn row_wf(row: Seq<FieldView>) -> bool {
    1 <= row.len() <= MAX_RECORD_FIELDS + 1
}

/// Well-formedness of one slot.
pub open spec fn slot_wf(s: SlotView) -> bool {
    match s {
        SlotView::Rec(fields) => row_wf(fields),
        SlotView::Qry(q) => {
            &&& 0 <= q.cursor <= q.rows.len()
            &&& forall|i: int| 0 <= i < q.rows.len() ==> row_wf(#[trigger] q.rows[i])
        },
        _ => true,
    }
}

impl EngineView {
    /// Whether a handle value names a slot.
    pub open spec fn valid_handle(self, h: u32) -> bool {
        1 <= h <= self.slots.len()
    }

    /// The slot a handle names.
    pub open spec fn slot(self, h: u32) -> SlotView {
        self.slots[h - 1]
    }

    /// Whether a handle names an open record.
    pub open spec fn valid_rec(self, h: u32) -> bool {
        self.valid_handle(h) && self.slot(h) is Rec
    }

    /// The fields of an open record, template at index zero.
    pub open spec fn rec_fields(self, h: u32) -> Seq<FieldView> {
        match self.slot(h) {
            SlotView::Rec(fields) => fields,
            _ => Seq::<FieldView>::empty(),
        }
    }

    /// Whether a handle names an open query view.
    pub open spec fn valid_qry(self, h: u32) -> bool {
        self.valid_handle(h) && self.slot(h) is Qry
    }

    /// The state of an open query view.
    pub open spec fn qry(self, h: u32) -> QueryView {
        match self.slot(h) {
            SlotView::Qry(q) => q,
            _ => QueryView { query: Seq::empty(), phase: ViewPhase::Unexecuted, rows: Seq::empty(), cursor: 0 },
        }
    }

    /// Whether a handle names an open database handle.
    pub open spec fn valid_db(self, h: u32) -> bool {
        self.valid_handle(h) && self.slot(h) is Db
    }

    /// Whether a handle names the engine-owned session.
    pub open spec fn valid_host(self, h: u32) -> bool {
        self.valid_handle(h) && self.slot(h) is Host
    }

    /// Whether a handle may be released: it names an issued, still-open
    /// slot.
    pub open spec fn releasable(self, h: u32) -> bool {
        self.valid_handle(h) && is_live_n(self.slot(h)) == 1
    }

    /// The value of a property; an absent property holds the empty value.
    pub open spec fn prop(self, name: Seq<char>) -> Seq<char> {
        match assoc_get(self.props, name) {
            Some(v) => v,
            None => Seq::<char>::empty(),
        }
    }

    /// The primary-key column names of a table, if the table is defined.
    pub open spec fn table_cols(self, name: Seq<char>) -> Option<Seq<Seq<char>>> {
        assoc_get(self.tables, name)
    }

    /// The temporary rows inserted under a query text.
    pub open spec fn stored_rows(self, query: Seq<char>) -> Seq<Seq<FieldView>> {
        match assoc_get(self.store, query) {
            Some(rows) => rows,
            None => Seq::<Seq<FieldView>>::empty(),
        }
    }

    /// Whether one more handle can be issued.
    pub open spec fn can_alloc(self) -> bool {
        self.slots.len() < u32::MAX
    }

    /// Well-formedness of the engine state.
    pub open spec fn wf(self) -> bool {
        &&& 1 <= self.slots.len() <= u32::MAX
        &&& self.slots[0] is Host
        &&& forall|i: int| 1 <= i < self.slots.len() ==> !(#[trigger] self.slots[i] is Host)
        &&& forall|i: int| 0 <= i < self.slots.len() ==> slot_wf(#[trigger] self.slots[i])
        &&& self.opened == self.slots.len() - 1
        &&& self.closed == count_vacant(self.slots)
        &&& assoc_unique(self.props)
        &&& assoc_unique(self.tables)
        &&& assoc_unique(self.store)
        &&& forall|i: int, j: int|
            0 <= i < self.store.len() && 0 <= j < self.store[i].1.len() ==> row_wf(
                #[trigger] self.store[i].1[j],
            )
        &&& forall|i: int|
            0 <= i < self.tables.len() ==> (#[trigger] self.tables[i]).1.len()
                <= MAX_RECORD_FIELDS
        &&& self.modes.len() == RUN_MODE_FLAGS
        &&& match self.last_err {
            Some(fields) => 1 <= fields.len() <= MAX_RECORD_FIELDS + 1,
            None => true,
        }
    }
}

proof fn lemma_count_vacant_push(s: Seq<SlotView>, v: SlotView)
    ensures
        count_vacant(s.push(v)) == count_vacant(s) + is_vacant_n(v),
{
    assert(s.push(v).drop_last() =~~= s);
}

proof fn lemma_count_vacant_update(s: Seq<SlotView>, i: int, v: SlotView)
    requires
        0 <= i < s.len(),
    ensures
        count_vacant(s.update(i, v)) + is_vacant_n(s[i]) == count_vacant(s) + is_vacant_n(v),
    decreases s.len(),
{
    let t = s.update(i, v);
    if i == s.len() - 1 {
        assert(t.drop_last() =~~= s.drop_last());
        assert(t.last() == v);
    } else {
        assert(t.drop_last() =~~= s.drop_last().update(i, v));
        assert(t.last() == s.last());
        lemma_count_vacant_update(s.drop_last(), i, v);
    }
}

proof fn lemma_count_vacant_le(s: Seq<SlotView>)
    ensures
        count_vacant(s) <= s.len(),
    decreases s.len(),
{
    if s.len() > 0 {
        lemma_count_vacant_le(s.drop_last());
    }
}

proof fn lemma_count_partition(s: Seq<SlotView>)
    ensures
        count_vacant(s) + count_live(s) + count_host(s) == s.len(),
    decreases s.len(),
{
    if s.len() > 0 {
        lemma_count_partition(s.drop_last());
    }
}

proof fn lemma_count_host_one(s: Seq<SlotView>)
    requires
        s.len() >= 1,
        s[0] is Host,
        forall|i: int| 1 <= i < s.len() ==> !(#[trigger] s[i] is Host),
    ensures
        count_host(s) == 1,
    decreases s.len(),
{
    if s.len() == 1 {
        assert(s.drop_last() =~~= Seq::<SlotView>::empty());
        assert(count_host(Seq::<SlotView>::empty()) == 0);
        assert(s.last() == s[0]);
    } else {
        assert(s.drop_last()[0] == s[0]);
        assert forall|i: int| 1 <= i < s.drop_last().len() implies !(#[trigger] s.drop_last()[i]
            is Host) by {
            assert(s.drop_last()[i] == s[i]);
        }
        lemma_count_host_one(s.drop_last());
        assert(!(s[s.len() - 1] is Host));
        assert(s.last() == s[s.len() - 1]);
    }
}

/// Handle conservation: in a well-formed engine the number of handles
/// issued equals the number released plus the number still open.  Every
/// issued handle is therefore released at most once, and one that is no
/// longer open was released exactly once.
pub proof fn lemma_handle_conservation(v: EngineView)
    requires
        v.wf(),
    ensures
        v.opened == v.closed + count_live(v.slots),
{
    lemma_count_partition(v.slots);
    lemma_count_host_one(v.slots);
}

proof fn lemma_assoc_get_skip<T>(s: Seq<(Seq<char>, T)>, key: Seq<char>, i: int)
    requires
        0 <= i <= s.len(),
        forall|j: int| 0 <= j < i ==> s[j].0 != key,
    ensures
        assoc_get(s, key) == assoc_get(s.skip(i), key),
    decreases i,
{
    if i > 0 {
        lemma_assoc_get_skip(s, key, i - 1);
        assert(s.skip(i - 1)[0] == s[i - 1]);
        assert(s.skip(i - 1).skip(1) =~~= s.skip(i));
    } else {
        assert(s.skip(0) =~~= s);
    }
}

/// The first match of a key determines the association lookup.
proof fn lemma_assoc_get_at<T>(s: Seq<(Seq<char>, T)>, key: Seq<char>, i: int)
    requires
        0 <= i < s.len(),
        s[i].0 == key,
        forall|j: int| 0 <= j < i ==> s[j].0 != key,
    ensures
        assoc_get(s, key) == Some(s[i].1),
{
    lemma_assoc_get_skip(s, key, i);
    assert(s.skip(i)[0] == s[i]);
}

/// A key matched nowhere is absent.
proof fn lemma_assoc_get_none<T>(s: Seq<(Seq<char>, T)>, key: Seq<char>)
    requires
        forall|j: int| 0 <= j < s.len() ==> s[j].0 != key,
    ensures
        assoc_get(s, key) is None,
{
    lemma_assoc_get_skip(s, key, s.len() as int);
    assert(s.skip(s.len() as int) =~~= Seq::<(Seq<char>, T)>::empty());
}

/// Updating the first match of a key changes that key's lookup and no
/// other.
proof fn lemma_assoc_get_update<T>(s: Seq<(Seq<char>, T)>, key: Seq<char>, i: int, v: T, other: Seq<char>)
    requires
        0 <= i < s.len(),
        s[i].0 == key,
        forall|j: int| 0 <= j < i ==> s[j].0 != key,
    ensures
        assoc_get(s.update(i, (key, v)), key) == Some(v),
        other != key ==> assoc_get(s.update(i, (key, v)), other) == assoc_get(s, other),
    decreases i,
{
    let t = s.update(i, (key, v));
    if i == 0 {
        assert(t[0] == (key, v));
        if other != key {
            assert(t.skip(1) =~~= s.skip(1));
        }
    } else {
        assert(t[0] == s[0]);
        assert(t.skip(1) =~~= s.skip(1).update(i - 1, (key, v)));
        assert(s.skip(1)[i - 1] == s[i]);
        assert(forall|j: int| 0 <= j < i - 1 ==> s.skip(1)[j] == s[j + 1]);
        lemma_assoc_get_update(s.skip(1), key, i - 1, v, other);
    }
}

/// Appending a fresh key adds that key's lookup and changes no other.
proof fn lemma_assoc_get_push<T>(s: Seq<(Seq<char>, T)>, key: Seq<char>, v: T, other: Seq<char>)
    requires
        forall|j: int| 0 <= j < s.len() ==> s[j].0 != key,
    ensures
        assoc_get(s.push((key, v)), key) == Some(v),
        other != key ==> assoc_get(s.push((key, v)), other) == assoc_get(s, other),
    decreases s.len(),
{
    let t = s.push((key, v));
    if s.len() == 0 {
        assert(t[0] == (key, v));
        if other != key {
            assert(t.skip(1) =~~= Seq::<(Seq<char>, T)>::empty());
        }
    } else {
        assert(t[0] == s[0]);
        assert(t.skip(1) =~~= s.skip(1).push((key, v)));
        assert(forall|j: int| 0 <= j < s.len() - 1 ==> s.skip(1)[j] == s[j + 1]);
        lemma_assoc_get_push(s.skip(1), key, v, other);
    }
}

/// A key matched somewhere is present.
proof fn lemma_assoc_get_some<T>(s: Seq<(Seq<char>, T)>, key: Seq<char>)
    requires
        exists|j: int| 0 <= j < s.len() && s[j].0 == key,
    ensures
        assoc_get(s, key) is Some,
    decreases s.len(),
{
    if s[0].0 == key {
    } else {
        let j = choose|j: int| 0 <= j < s.len() && s[j].0 == key;
        assert(s.skip(1)[j - 1] == s[j]);
        lemma_assoc_get_some(s.skip(1), key);
    }
}

proof fn lemma_map_values_update<A, B>(s: Seq<A>, i: int, v: A, f: spec_fn(A) -> B)
    requires
        0 <= i < s.len(),
    ensures
        s.update(i, v).map_values(f) =~~= s.map_values(f).update(i, f(v)),
{
}

proof fn lemma_map_values_push<A, B>(s: Seq<A>, v: A, f: spec_fn(A) -> B)
    ensures
        s.push(v).map_values(f) =~~= s.map_values(f).push(f(v)),
{
    assert forall|j: int| 0 <= j < s.len() + 1 implies s.push(v).map_values(f)[j] == s.map_values(
        f,
    ).push(f(v))[j] by {
        if j < s.len() {
            assert(s.push(v)[j] == s[j]);
        } else {
            assert(s.push(v)[j] == v);
        }
    }
}

/// The installer engine, modelled as an explicit value.
pub struct Engine {
    slots: Vec<Slot>,
    props: Vec<(String, String)>,
    tables: Vec<(String, Vec<String>)>,
    store: Vec<(String, Vec<Vec<Field>>)>,
    actions: Vec<String>,
    msgs: Vec<(u32, String)>,
    last_err: Option<Vec<Field>>,
    modes: Vec<bool>,
    lang: u16,
    response: i32,
    opened: u64,
    closed: u64,
}

impl View for Engine {
    type V = EngineView;

    closed spec fn view(&self) -> EngineView {
        EngineView {
            slots: self.slots@.map_values(|s: Slot| s@),
            props: self.props@.map_values(|p: (String, String)| (p.0@, p.1@)),
            tables: self.tables@.map_values(
                |t: (String, Vec<String>)| (t.0@, t.1@.map_values(|c: String| c@)),
            ),
            store: self.store@.map_values(|q: (String, Vec<Vec<Field>>)| (q.0@, rows_view(q.1@))),
            actions: self.actions@.map_values(|a: String| a@),
            msgs: self.msgs@.map_values(|m: (u32, String)| (m.0, m.1@)),
            last_err: match &self.last_err {
                Some(fields) => Some(fields_view(fields@)),
                None => None,
            },
            modes: self.modes@,
            lang: self.lang,
            response: self.response,
            opened: self.opened,
            closed: self.closed,
        }
    }
}

impl Engine {
    /// Creates an engine with a fresh session, no properties, no tables, no
    /// temporary rows, no pending diagnostic record, and all run-mode flags
    /// clear.
    pub fn new() -> (e: Engine)
        ensures
            e@.wf(),
            e@.slots =~~= seq![SlotView::Host],
            e@.props =~~= Seq::<(Seq<char>, Seq<char>)>::empty(),
            e@.tables =~~= Seq::<(Seq<char>, Seq<Seq<char>>)>::empty(),
            e@.store =~~= Seq::<(Seq<char>, Seq<Seq<FieldView>>)>::empty(),
            e@.actions =~~= Seq::<Seq<char>>::empty(),
            e@.msgs =~~= Seq::<(u32, Seq<char>)>::empty(),
            e@.last_err is None,
            e@.modes =~~= Seq::new(RUN_MODE_FLAGS as nat, |i: int| false),
            e@.lang == 0,
            e@.response == 0,
            e@.opened == 0,
            e@.closed == 0,
    {
        let mut slots: Vec<Slot> = Vec::new();
        slots.push(Slot::Host);
        let mut modes: Vec<bool> = Vec::new();
        let mut i: usize = 0;
        while i < RUN_MODE_FLAGS
            invariant
                i <= RUN_MODE_FLAGS,
                modes@ =~~= Seq::new(i as nat, |j: int| false),
            decreases RUN_MODE_FLAGS - i,
        {
            modes.push(false);
            i = i + 1;
        }
        let e = Engine {
            slots,
            props: Vec::new(),
            tables: Vec::new(),
            store: Vec::new(),
            actions: Vec::new(),
            msgs: Vec::new(),
            last_err: None,
            modes,
            lang: 0,
            response: 0,
            opened: 0,
            closed: 0,
        };
        proof {
            assert(e@.slots =~~= seq![SlotView::Host]);
            assert(e@.slots.drop_last() =~~= Seq::<SlotView>::empty());
            assert(count_vacant(Seq::<SlotView>::empty()) == 0);
            assert(e@.slots.last() == SlotView::Host);
            assert(count_vacant(e@.slots) == 0);
        }
        e
    }

    /// The handle of the session the engine hosts.  The engine owns it: it
    /// is borrowed by the layer, never released by it.
    pub fn session_handle(&self) -> (h: MSIHANDLE)
        requires
            self@.wf(),
        ensures
            h.spec_value() == 1,
            self@.valid_host(h.spec_value()),
    {
        MSIHANDLE::new(1)
    }

    /// How many handles the engine has issued to the layer.
    pub fn opened_count(&self) -> (n: u64)
        ensures
            n == self@.opened,
    {
        self.opened
    }

    /// How many issued handles have been released.
    pub fn closed_count(&self) -> (n: u64)
        ensures
            n == self@.closed,
    {
        self.closed
    }

    /// Allocates a record with the given field count; all fields start
    /// null, and the implicit template field has index zero.
    pub(crate) fn create_record(&mut self, field_count: u32) -> (h: u32)
        requires
            old(self)@.wf(),
            old(self)@.can_alloc(),
            field_count <= MAX_RECORD_FIELDS,
        ensures
            final(self)@.wf(),
            h == old(self)@.slots.len() + 1,
            final(self)@.valid_rec(h),
            final(self)@ == (EngineView {
                slots: old(self)@.slots.push(
                    SlotView::Rec(Seq::new((field_count + 1) as nat, |i: int| FieldView::Null)),
                ),
                opened: (old(self)@.opened + 1) as u64,
                ..old(self)@
            }),
    {
        let h: u32 = (self.slots.len() + 1) as u32;
        let mut fields: Vec<Field> = Vec::new();
        let mut i: u32 = 0;
        while i < field_count + 1
            invariant
                i <= field_count + 1,
                field_count <= MAX_RECORD_FIELDS,
                fields_view(fields@) =~~= Seq::new(i as nat, |j: int| FieldView::Null),
            decreases field_count + 1 - i,
        {
            let ghost prev = fields@;
            fields.push(Field::Null);
            proof {
                lemma_map_values_push(prev, Field::Null, |f: Field| f@);
                assert(fields_view(fields@) =~~= Seq::new((i + 1) as nat, |j: int| FieldView::Null));
            }
            i = i + 1;
        }
        proof {
            lemma_map_values_push(self.slots@, Slot::Rec(fields), |s: Slot| s@);
            lemma_count_vacant_push(self@.slots, SlotView::Rec(fields_view(fields@)));
        }
        self.slots.push(Slot::Rec(fields));
        self.opened = self.opened + 1;
        proof {
            assert(self@ =~~= (EngineView {
                slots: old(self)@.slots.push(
                    SlotView::Rec(Seq::new((field_count + 1) as nat, |i: int| FieldView::Null)),
                ),
                opened: (old(self)@.opened + 1) as u64,
                ..old(self)@
            }));
        }
        h
    }

    /// Releases the resource behind a handle.  Releasing a handle that is
    /// not open — the null handle, an already released handle, or the
    /// engine-owned session handle — is refused without effect, so a stray
    /// release cannot disturb the engine.
    pub(crate) fn close_handle(&mut self, h: u32) -> (status: u32)
        requires
            old(self)@.wf(),
        ensures
            final(self)@.wf(),
            status == (if old(self)@.releasable(h) {
                ERROR_SUCCESS
            } else {
                ERROR_INVALID_HANDLE
            }),
            old(self)@.releasable(h) ==> final(self)@ == (EngineView {
                slots: old(self)@.slots.update(h - 1, SlotView::Vacant),
                closed: (old(self)@.closed + 1) as u64,
                ..old(self)@
            }),
            !old(self)@.releasable(h) ==> final(self)@ == old(self)@,
    {
        if h < 1 || (h as usize) > self.slots.len() {
            return ERROR_INVALID_HANDLE;
        }
        let idx = (h - 1) as usize;
        let live = match &self.slots[idx] {
            Slot::Vacant => false,
            Slot::Host => false,
            _ => true,
        };
        if !live {
            return ERROR_INVALID_HANDLE;
        }
        proof {
            lemma_map_values_update(self.slots@, idx as int, Slot::Vacant, |s: Slot| s@);
            lemma_count_vacant_update(self@.slots, idx as int, SlotView::Vacant);
            lemma_count_vacant_le(old(self)@.slots);
        }
        self.slots[idx] = Slot::Vacant;
        self.closed = self.closed + 1;
        proof {
            assert(self@ =~~= (EngineView {
                slots: old(self)@.slots.update(h - 1, SlotView::Vacant),
                closed: (old(self)@.closed + 1) as u64,
                ..old(self)@
            }));
        }
        ERROR_SUCCESS
    }

    /// The field count of a record, excluding the template field.
    pub(crate) fn record_field_count(&self, h: u32) -> (n: u32)
        requires
            self@.wf(),
            self@.valid_rec(h),
        ensures
            n as int == self@.rec_fields(h).len() - 1,
    {
        let idx = (h - 1) as usize;
        match &self.slots[idx] {
            Slot::Rec(fields) => (fields.len() - 1) as u32,
            _ => {
                proof {
                    assert(false);
                }
                0
            },
        }
    }

    /// Writes one field of a record.  A field index past the record's field
    /// count is refused.
    pub(crate) fn record_set_field(&mut self, h: u32, field: u32, value: Field) -> (status: u32)
        requires
            old(self)@.wf(),
            old(self)@.valid_rec(h),
        ensures
            final(self)@.wf(),
            status == (if (field as int) < old(self)@.rec_fields(h).len() {
                ERROR_SUCCESS
            } else {
                ERROR_INVALID_PARAMETER
            }),
            status == ERROR_SUCCESS ==> final(self)@ == (EngineView {
                slots: old(self)@.slots.update(
                    h - 1,
                    SlotView::Rec(old(self)@.rec_fields(h).update(field as int, value@)),
                ),
                ..old(self)@
            }),
            status != ERROR_SUCCESS ==> final(self)@ == old(self)@,
    {
        let idx = (h - 1) as usize;
        let ghost pre = self@;
        let within = match &self.slots[idx] {
            Slot::Rec(fields) => (field as usize) < fields.len(),
            _ => false,
        };
        if !within {
            return ERROR_INVALID_PARAMETER;
        }
        let mut taken = Slot::Vacant;
        core::mem::swap(&mut taken, &mut self.slots[idx]);
        match taken {
            Slot::Rec(mut fields) => {
                proof {
                    lemma_map_values_update(fields@, field as int, value, |f: Field| f@);
                }
                fields[field as usize] = value;
                self.slots[idx] = Slot::Rec(fields);
            },
            _ => {
                proof {
                    assert(false);
                }
            },
        }
        proof {
            let target = SlotView::Rec(pre.rec_fields(h).update(field as int, value@));
            assert(self@.slots =~~= pre.slots.update(idx as int, target));
            lemma_count_vacant_update(pre.slots, idx as int, target);
            assert(self@ =~~= (EngineView { slots: pre.slots.update(idx as int, target), ..pre }));
        }
        ERROR_SUCCESS
    }

    /// Reads one field of a record as the engine's integer accessor does:
    /// an integer field yields its value, and every other case — a string
    /// field, a null field, or an out-of-range index — yields the null
    /// sentinel.
    pub(crate) fn record_get_integer(&self, h: u32, field: u32) -> (n: i32)
        requires
            self@.wf(),
            self@.valid_rec(h),
        ensures
            n as int == (if (field as int) < self@.rec_fields(h).len() {
                match self@.rec_fields(h)[field as int] {
                    FieldView::IntegerData(v) => v,
                    _ => crate::native::MSI_NULL_INTEGER as int,
                }
            } else {
                crate::native::MSI_NULL_INTEGER as int
            }),
    {
        let idx = (h - 1) as usize;
        match &self.slots[idx] {
            Slot::Rec(fields) => {
                if (field as usize) >= fields.len() {
                    crate::native::MSI_NULL_INTEGER
                } else {
                    match &fields[field as usize] {
                        Field::IntegerData(v) => *v,
                        _ => crate::native::MSI_NULL_INTEGER,
                    }
                }
            },
            _ => {
                proof {
                    assert(false);
                }
                0
            },
        }
    }

    /// Whether a field of a record is null.  An out-of-range index reads as
    /// null.
    pub(crate) fn record_is_null(&self, h: u32, field: u32) -> (b: bool)
        requires
            self@.wf(),
            self@.valid_rec(h),
        ensures
            b == (if (field as int) < self@.rec_fields(h).len() {
                self@.rec_fields(h)[field as int] is Null
            } else {
                true
            }),
    {
        let idx = (h - 1) as usize;
        match &self.slots[idx] {
            Slot::Rec(fields) => {
                if (field as usize) >= fields.len() {
                    true
                } else {
                    match &fields[field as usize] {
                        Field::Null => true,
                        _ => false,
                    }
                }
            },
            _ => {
                proof {
                    assert(false);
                }
                true
            },
        }
    }

    /// Sets or clears a property.  Clearing — passing no value — leaves the
    /// property holding the empty value, which is how the engine represents
    /// an undefined property.
    pub(crate) fn set_prop(&mut self, name: &str, value: Option<&str>)
        requires
            old(self)@.wf(),
        ensures
            final(self)@.wf(),
            forall|k: Seq<char>| #[trigger] final(self)@.prop(k) == (if k == name@ {
                match value {
                    Some(v) => v@,
                    None => Seq::<char>::empty(),
                }
            } else {
                old(self)@.prop(k)
            }),
            final(self)@ == (EngineView { props: final(self)@.props, ..old(self)@ }),
    {
        let key = name.to_owned();
        let val = match value {
            Some(v) => v.to_owned(),
            None => String::new(),
        };
        let ghost pre = self@;
        let ghost valv = val@;
        match assoc_find(&self.props, &key) {
            Some(i) => {
                let ghost fp = |p: (String, String)| (p.0@, p.1@);
                proof {
                    lemma_map_values_update(self.props@, i as int, (key, val), fp);
                }
                self.props[i] = (key, val);
                proof {
                    assert(self@.props =~~= pre.props.update(i as int, (name@, valv)));
                    assert forall|k: Seq<char>| #[trigger] self@.prop(k) == (if k == name@ {
                        valv
                    } else {
                        pre.prop(k)
                    }) by {
                        lemma_assoc_get_update(pre.props, name@, i as int, valv, k);
                    }
                    assert(assoc_unique(self@.props)) by {
                        assert(forall|x: int|
                            0 <= x < pre.props.len() ==> (#[trigger] self@.props[x]).0
                                == pre.props[x].0);
                    }
                    assert(self@ =~~= (EngineView { props: self@.props, ..pre }));
                }
            },
            None => {
                let ghost fp = |p: (String, String)| (p.0@, p.1@);
                proof {
                    lemma_map_values_push(self.props@, (key, val), fp);
                }
                self.props.push((key, val));
                proof {
                    assert(self@.props =~~= pre.props.push((name@, valv)));
                    assert forall|k: Seq<char>| #[trigger] self@.prop(k) == (if k == name@ {
                        valv
                    } else {
                        pre.prop(k)
                    }) by {
                        lemma_assoc_get_push(pre.props, name@, valv, k);
                    }
                    assert(assoc_unique(self@.props)) by {
                        assert(forall|x: int|
                            0 <= x < pre.props.len() ==> (#[trigger] self@.props[x]).0
                                == pre.props[x].0);
                        assert(self@.props[pre.props.len() as int].0 == name@);
                    }
                    assert(self@ =~~= (EngineView { props: self@.props, ..pre }));
                }
            },
        }
    }

    /// Invokes an action by name: the engine appends it to the action log.
    /// In this model every action invocation is accepted.
    pub(crate) fn run_action(&mut self, action: &str)
        requires
            old(self)@.wf(),
        ensures
            final(self)@.wf(),
            final(self)@ == (EngineView {
                actions: old(self)@.actions.push(action@),
                ..old(self)@
            }),
    {
        let a = action.to_owned();
        proof {
            lemma_map_values_push(self.actions@, a, |s: String| s@);
        }
        self.actions.push(a);
        proof {
            assert(self@ =~~= (EngineView { actions: old(self)@.actions.push(action@), ..old(self)@ }));
        }
    }

    /// Defines a table of the install database together with its
    /// primary-key column names.  This is model set-up: the real database
    /// arrives with its tables already defined.
    pub fn define_table(&mut self, name: &str, columns: Vec<String>)
        requires
            old(self)@.wf(),
            old(self)@.table_cols(name@) is None,
            columns@.len() <= MAX_RECORD_FIELDS,
        ensures
            final(self)@.wf(),
            final(self)@ == (EngineView {
                tables: old(self)@.tables.push((name@, columns@.map_values(|c: String| c@))),
                ..old(self)@
            }),
            forall|k: Seq<char>| #[trigger] final(self)@.table_cols(k) == (if k == name@ {
                Some(columns@.map_values(|c: String| c@))
            } else {
                old(self)@.table_cols(k)
            }),
    {
        let key = name.to_owned();
        let ghost pre = self@;
        let ghost colsv = columns@.map_values(|c: String| c@);
        proof {
            lemma_map_values_push(
                self.tables@,
                (key, columns),
                |t: (String, Vec<String>)| (t.0@, t.1@.map_values(|c: String| c@)),
            );
            assert forall|j: int| 0 <= j < pre.tables.len() implies (#[trigger] pre.tables[j]).0
                != name@ by {
                if pre.tables[j].0 == name@ {
                    lemma_assoc_get_some(pre.tables, name@);
                }
            }
        }
        self.tables.push((key, columns));
        proof {
            assert(self@.tables =~~= pre.tables.push((name@, colsv)));
            assert forall|k: Seq<char>| #[trigger] self@.table_cols(k) == (if k == name@ {
                Some(colsv)
            } else {
                pre.table_cols(k)
            }) by {
                lemma_assoc_get_push(pre.tables, name@, colsv, k);
            }
            assert(assoc_unique(self@.tables)) by {
                assert(forall|x: int|
                    0 <= x < pre.tables.len() ==> (#[trigger] self@.tables[x]).0
                        == pre.tables[x].0);
                assert(self@.tables[pre.tables.len() as int].0 == name@);
            }
            assert(self@ =~~= (EngineView { tables: self@.tables, ..pre }));
        }
    }

    /// Sets one run-mode flag.  This is model set-up: in the real engine
    /// the flags reflect the state of the installation.
    pub(crate) fn set_mode_at(&mut self, idx: usize, on: bool)
        requires
            old(self)@.wf(),
            idx < RUN_MODE_FLAGS,
        ensures
            final(self)@.wf(),
            final(self)@ == (EngineView {
                modes: old(self)@.modes.update(idx as int, on),
                ..old(self)@
            }),
    {
        self.modes[idx] = on;
        proof {
            assert(self@ =~~= (EngineView {
                modes: old(self)@.modes.update(idx as int, on),
                ..old(self)@
            }));
        }
    }

    /// Reads one run-mode flag.
    pub(crate) fn get_mode_at(&self, idx: usize) -> (on: bool)
        requires
            self@.wf(),
            idx < RUN_MODE_FLAGS,
        ensures
            on == self@.modes[idx as int],
    {
        self.modes[idx]
    }

    /// Sets the language identifier the session reports.  Model set-up.
    pub fn set_language(&mut self, lang: u16)
        requires
            old(self)@.wf(),
        ensures
            final(self)@.wf(),
            final(self)@ == (EngineView { lang, ..old(self)@ }),
    {
        self.lang = lang;
        proof {
            assert(self@ =~~= (EngineView { lang, ..old(self)@ }));
        }
    }

    /// The language identifier the session reports.
    pub(crate) fn get_language(&self) -> (lang: u16)
        ensures
            lang == self@.lang,
    {
        self.lang
    }

    /// Sets the response the engine gives to every dispatched message.
    /// Model set-up: in the real engine the response is the user's.
    pub fn set_message_response(&mut self, response: i32)
        requires
            old(self)@.wf(),
        ensures
            final(self)@.wf(),
            final(self)@ == (EngineView { response, ..old(self)@ }),
    {
        self.response = response;
        proof {
            assert(self@ =~~= (EngineView { response, ..old(self)@ }));
        }
    }

    /// Installs a pending process-wide diagnostic record, template at index
    /// zero.  Model set-up: in the real engine a failing call leaves it.
    pub fn set_last_error_record(&mut self, fields: Vec<Field>)
        requires
            old(self)@.wf(),
            1 <= fields@.len() <= MAX_RECORD_FIELDS + 1,
        ensures
            final(self)@.wf(),
            final(self)@ == (EngineView { last_err: Some(fields_view(fields@)), ..old(self)@ }),
    {
        let ghost fv = fields_view(fields@);
        self.last_err = Some(fields);
        proof {
            assert(self@ =~~= (EngineView { last_err: Some(fv), ..old(self)@ }));
        }
    }

    /// Takes the pending diagnostic record, if any: the read is
    /// destructive, so a second take yields nothing.  A taken record
    /// becomes a fresh open record handle.
    pub(crate) fn take_last_error(&mut self) -> (h: u32)
        requires
            old(self)@.wf(),
            old(self)@.can_alloc(),
        ensures
            final(self)@.wf(),
            old(self)@.last_err is None ==> h == 0 && final(self)@ == old(self)@,
            old(self)@.last_err is Some ==> h == old(self)@.slots.len() + 1
                && final(self)@.valid_rec(h) && final(self)@ == (EngineView {
                slots: old(self)@.slots.push(SlotView::Rec(old(self)@.last_err.unwrap())),
                last_err: None,
                opened: (old(self)@.opened + 1) as u64,
                ..old(self)@
            }),
    {
        let mut taken: Option<Vec<Field>> = None;
        core::mem::swap(&mut taken, &mut self.last_err);
        match taken {
            Some(fields) => {
                let h: u32 = (self.slots.len() + 1) as u32;
                proof {
                    lemma_map_values_push(self.slots@, Slot::Rec(fields), |s: Slot| s@);
                    lemma_count_vacant_push(self@.slots, SlotView::Rec(fields_view(fields@)));
                }
                self.slots.push(Slot::Rec(fields));
                self.opened = self.opened + 1;
                proof {
                    assert(self@ =~~= (EngineView {
                        slots: old(self)@.slots.push(
                            SlotView::Rec(old(self)@.last_err.unwrap()),
                        ),
                        last_err: None,
                        opened: (old(self)@.opened + 1) as u64,
                        ..old(self)@
                    }));
                }
                h
            },
            None => {
                proof {
                    assert(self@ =~~= old(self)@);
                }
                0
            },
        }
    }

    /// How many actions have been invoked.
    pub fn action_count(&self) -> (n: usize)
        ensures
            n == self@.actions.len(),
    {
        self.actions.len()
    }

    /// The name of the `i`-th invoked action.
    pub fn action_at(&self, i: usize) -> (a: String)
        requires
            i < self@.actions.len(),
        ensures
            a@ == self@.actions[i as int],
    {
        self.actions[i].clone()
    }

    /// How many messages have been dispatched.
    pub fn message_count(&self) -> (n: usize)
        ensures
            n == self@.msgs.len(),
    {
        self.msgs.len()
    }

    /// The native kind tag of the `i`-th dispatched message.
    pub fn message_kind_at(&self, i: usize) -> (kind: u32)
        requires
            i < self@.msgs.len(),
        ensures
            kind == self@.msgs[i as int].0,
    {
        self.msgs[i].0
    }

    /// The formatted text of the `i`-th dispatched message.
    pub fn message_text_at(&self, i: usize) -> (text: String)
        requires
            i < self@.msgs.len(),
        ensures
            text@ == self@.msgs[i as int].1,
    {
        self.msgs[i].1.clone()
    }

    /// The string-returning native call shared by every accessor of the
    /// buffer protocol: reports the value's length, and hands the value
    /// over only when the caller's buffer has room for it and its
    /// terminator.
    pub(crate) fn string_call(&self, src: &StringSource, buf_len: u32) -> (r: (u32, u32, String))
        requires
            self@.wf(),
            source_handle_ok(self@, *src),
        ensures
            ({
                let (status, needed, value) = r;
                let ok = source_ok(self@, *src);
                let val = source_value(self@, *src);
                &&& !ok ==> status == ERROR_INVALID_PARAMETER && value@ == Seq::<char>::empty()
                &&& (ok && val.len() >= u32::MAX) ==> status == ERROR_FUNCTION_FAILED && value@
                    == Seq::<char>::empty()
                &&& (ok && val.len() < u32::MAX) ==> {
                    &&& needed == val.len()
                    &&& (buf_len < val.len() + 1 ==> status == ERROR_MORE_DATA && value@ == Seq::<
                        char,
                    >::empty())
                    &&& (buf_len >= val.len() + 1 ==> status == ERROR_SUCCESS && value@ == val)
                }
            }),
    {
        let ghost ok = source_ok(self@, *src);
        let ghost val = source_value(self@, *src);
        let value_opt: Option<String> = match src {
            StringSource::Property(name) => {
                match assoc_find(&self.props, name) {
                    Some(i) => {
                        proof {
                            assert forall|j: int| 0 <= j < i implies (#[trigger] self@.props[j]).0
                                != name@ by {
                                assert(self@.props[j].0 == self.props@[j].0@);
                            }
                            lemma_assoc_get_at(self@.props, name@, i as int);
                        }
                        Some(self.props[i].1.clone())
                    },
                    None => {
                        proof {
                            assert forall|j: int|
                                0 <= j < self@.props.len() implies (#[trigger] self@.props[j]).0
                                != name@ by {
                                assert(self@.props[j].0 == self.props@[j].0@);
                            }
                            lemma_assoc_get_none(self@.props, name@);
                        }
                        Some(String::new())
                    },
                }
            },
            StringSource::RecordField(h, f) => {
                let idx = (*h - 1) as usize;
                match &self.slots[idx] {
                    Slot::Rec(fields) => {
                        if (*f as usize) >= fields.len() {
                            None
                        } else {
                            match &fields[*f as usize] {
                                Field::StringData(s) => Some(s.clone()),
                                Field::IntegerData(v) => Some(crate::text::dec_i32_string(*v)),
                                Field::Null => Some(String::new()),
                            }
                        }
                    },
                    _ => {
                        proof {
                            assert(false);
                        }
                        None
                    },
                }
            },
            StringSource::FormatRecord(h) => {
                let idx = (*h - 1) as usize;
                match &self.slots[idx] {
                    Slot::Rec(fields) => {
                        proof {
                            assert(slot_wf(self@.slots[idx as int]));
                        }
                        Some(crate::format::format_record_exec(fields))
                    },
                    _ => {
                        proof {
                            assert(false);
                        }
                        None
                    },
                }
            },
        };
        proof {
            assert(value_opt is Some <==> ok);
            assert(value_opt is Some ==> value_opt.unwrap()@ == val);
        }
        match value_opt {
            None => (ERROR_INVALID_PARAMETER, 0, String::new()),
            Some(value) => {
                let len = value.as_str().unicode_len();
                if len >= u32::MAX as usize {
                    (ERROR_FUNCTION_FAILED, 0, String::new())
                } else {
                    let needed = len as u32;
                    if buf_len < needed + 1 {
                        (ERROR_MORE_DATA, needed, String::new())
                    } else {
                        (ERROR_SUCCESS, needed, value)
                    }
                }
            },
        }
    }

    /// Opens a handle to the session's active install database.
    pub(crate) fn open_database(&mut self) -> (h: u32)
        requires
            old(self)@.wf(),
            old(self)@.can_alloc(),
        ensures
            final(self)@.wf(),
            h == old(self)@.slots.len() + 1,
            final(self)@.valid_db(h),
            final(self)@ == (EngineView {
                slots: old(self)@.slots.push(SlotView::Db),
                opened: (old(self)@.opened + 1) as u64,
                ..old(self)@
            }),
    {
        let h: u32 = (self.slots.len() + 1) as u32;
        proof {
            lemma_map_values_push(self.slots@, Slot::Db, |s: Slot| s@);
            lemma_count_vacant_push(self@.slots, SlotView::Db);
        }
        self.slots.push(Slot::Db);
        self.opened = self.opened + 1;
        proof {
            assert(self@ =~~= (EngineView {
                slots: old(self)@.slots.push(SlotView::Db),
                opened: (old(self)@.opened + 1) as u64,
                ..old(self)@
            }));
        }
        h
    }

    /// Opens a query view against the install database.  The query text is
    /// opaque to this layer and is kept verbatim; in this model it also
    /// keys the temporary rows the view yields.
    pub(crate) fn open_view(&mut self, db: u32, query: &str) -> (h: u32)
        requires
            old(self)@.wf(),
            old(self)@.valid_db(db),
            old(self)@.can_alloc(),
        ensures
            final(self)@.wf(),
            h == old(self)@.slots.len() + 1,
            final(self)@.valid_qry(h),
            final(self)@ == (EngineView {
                slots: old(self)@.slots.push(
                    SlotView::Qry(
                        QueryView {
                            query: query@,
                            phase: ViewPhase::Unexecuted,
                            rows: Seq::empty(),
                            cursor: 0,
                        },
                    ),
                ),
                opened: (old(self)@.opened + 1) as u64,
                ..old(self)@
            }),
    {
        let h: u32 = (self.slots.len() + 1) as u32;
        let q = QueryState {
            query: query.to_owned(),
            phase: ViewPhase::Unexecuted,
            rows: Vec::new(),
            cursor: 0,
        };
        proof {
            assert(q@ =~~= (QueryView {
                query: query@,
                phase: ViewPhase::Unexecuted,
                rows: Seq::empty(),
                cursor: 0,
            }));
            lemma_map_values_push(self.slots@, Slot::Qry(q), |s: Slot| s@);
            lemma_count_vacant_push(self@.slots, SlotView::Qry(q@));
        }
        self.slots.push(Slot::Qry(q));
        self.opened = self.opened + 1;
        proof {
            assert(self@ =~~= (EngineView {
                slots: old(self)@.slots.push(
                    SlotView::Qry(
                        QueryView {
                            query: query@,
                            phase: ViewPhase::Unexecuted,
                            rows: Seq::empty(),
                            cursor: 0,
                        },
                    ),
                ),
                opened: (old(self)@.opened + 1) as u64,
                ..old(self)@
            }));
        }
        h
    }

    /// Executes a query view.  Execution is refused while a result set is
    /// open: the view must first be closed, or its rows fetched to
    /// exhaustion.  On success the view's result set becomes the temporary
    /// rows stored under its query text, and the cursor rewinds.
    pub(crate) fn view_execute(&mut self, h: u32) -> (status: u32)
        requires
            old(self)@.wf(),
            old(self)@.valid_qry(h),
        ensures
            final(self)@.wf(),
            status == (if old(self)@.qry(h).phase is Executing {
                ERROR_FUNCTION_FAILED
            } else {
                ERROR_SUCCESS
            }),
            status == ERROR_SUCCESS ==> final(self)@ == (EngineView {
                slots: old(self)@.slots.update(
                    h - 1,
                    SlotView::Qry(
                        QueryView {
                            query: old(self)@.qry(h).query,
                            phase: ViewPhase::Executing,
                            rows: old(self)@.stored_rows(old(self)@.qry(h).query),
                            cursor: 0,
                        },
                    ),
                ),
                ..old(self)@
            }),
            status != ERROR_SUCCESS ==> final(self)@ == old(self)@,
    {
        let idx = (h - 1) as usize;
        let ghost pre = self@;
        let (phase, query) = match &self.slots[idx] {
            Slot::Qry(q) => (q.phase, q.query.clone()),
            _ => {
                proof {
                    assert(false);
                }
                (ViewPhase::Closed, String::new())
            },
        };
        if phase == ViewPhase::Executing {
            return ERROR_FUNCTION_FAILED;
        }
        let rows: Vec<Vec<Field>> = match assoc_find(&self.store, &query) {
            Some(i) => {
                proof {
                    assert forall|j: int| 0 <= j < i implies (#[trigger] pre.store[j]).0
                        != query@ by {
                        assert(pre.store[j].0 == self.store@[j].0@);
                    }
                    lemma_assoc_get_at(pre.store, query@, i as int);
                }
                clone_rows(&self.store[i].1)
            },
            None => {
                proof {
                    assert forall|j: int| 0 <= j < pre.store.len() implies (
                    #[trigger] pre.store[j]).0 != query@ by {
                        assert(pre.store[j].0 == self.store@[j].0@);
                    }
                    lemma_assoc_get_none(pre.store, query@);
                }
                Vec::new()
            },
        };
        proof {
            assert(rows_view(rows@) =~~= pre.stored_rows(query@));
        }
        let mut taken = Slot::Vacant;
        core::mem::swap(&mut taken, &mut self.slots[idx]);
        match taken {
            Slot::Qry(mut q) => {
                q.phase = ViewPhase::Executing;
                q.rows = rows;
                q.cursor = 0;
                self.slots[idx] = Slot::Qry(q);
            },
            _ => {
                proof {
                    assert(false);
                }
            },
        }
        proof {
            let target = SlotView::Qry(
                QueryView {
                    query: pre.qry(h).query,
                    phase: ViewPhase::Executing,
                    rows: pre.stored_rows(pre.qry(h).query),
                    cursor: 0,
                },
            );
            assert(self@.slots =~~= pre.slots.update(idx as int, target));
            lemma_count_vacant_update(pre.slots, idx as int, target);
            assert(self@ =~~= (EngineView { slots: pre.slots.update(idx as int, target), ..pre }));
        }
        ERROR_SUCCESS
    }

    /// Releases a view's result set.  Closing is idempotent and always
    /// succeeds; after it the view may be executed again.
    pub(crate) fn view_close(&mut self, h: u32)
        requires
            old(self)@.wf(),
            old(self)@.valid_qry(h),
        ensures
            final(self)@.wf(),
            final(self)@ == (EngineView {
                slots: old(self)@.slots.update(
                    h - 1,
                    SlotView::Qry(
                        QueryView {
                            query: old(self)@.qry(h).query,
                            phase: ViewPhase::Closed,
                            rows: Seq::empty(),
                            cursor: 0,
                        },
                    ),
                ),
                ..old(self)@
            }),
    {
        let idx = (h - 1) as usize;
        let ghost pre = self@;
        let mut taken = Slot::Vacant;
        core::mem::swap(&mut taken, &mut self.slots[idx]);
        match taken {
            Slot::Qry(mut q) => {
                q.phase = ViewPhase::Closed;
                q.rows = Vec::new();
                q.cursor = 0;
                self.slots[idx] = Slot::Qry(q);
            },
            _ => {
                proof {
                    assert(false);
                }
            },
        }
        proof {
            let target = SlotView::Qry(
                QueryView {
                    query: pre.qry(h).query,
                    phase: ViewPhase::Closed,
                    rows: Seq::empty(),
                    cursor: 0,
                },
            );
            assert(self@.slots =~~= pre.slots.update(idx as int, target));
            lemma_count_vacant_update(pre.slots, idx as int, target);
            assert(self@ =~~= (EngineView { slots: pre.slots.update(idx as int, target), ..pre }));
        }
    }

    /// Fetches the next row of an executing view.  The fetched row becomes
    /// a fresh open record handle.  Fetching past the last row yields no
    /// record and releases the result set.
    pub(crate) fn view_fetch(&mut self, h: u32) -> (r: (u32, u32))
        requires
            old(self)@.wf(),
            old(self)@.valid_qry(h),
            old(self)@.can_alloc(),
        ensures
            final(self)@.wf(),
            ({
                let (status, rec) = r;
                let q = old(self)@.qry(h);
                &&& !(q.phase is Executing) ==> status == ERROR_FUNCTION_FAILED && rec == 0
                    && final(self)@ == old(self)@
                &&& (q.phase is Executing && q.cursor == q.rows.len()) ==> status
                    == crate::native::ERROR_NO_MORE_ITEMS && rec == 0 && final(self)@
                    == (EngineView {
                    slots: old(self)@.slots.update(
                        h - 1,
                        SlotView::Qry(
                            QueryView {
                                query: q.query,
                                phase: ViewPhase::Closed,
                                rows: Seq::empty(),
                                cursor: 0,
                            },
                        ),
                    ),
                    ..old(self)@
                })
                &&& (q.phase is Executing && q.cursor < q.rows.len()) ==> status == ERROR_SUCCESS
                    && rec == old(self)@.slots.len() + 1 && final(self)@.valid_rec(rec)
                    && final(self)@ == (EngineView {
                    slots: old(self)@.slots.update(
                        h - 1,
                        SlotView::Qry(
                            QueryView {
                                query: q.query,
                                phase: ViewPhase::Executing,
                                rows: q.rows,
                                cursor: q.cursor + 1,
                            },
                        ),
                    ).push(SlotView::Rec(q.rows[q.cursor])),
                    opened: (old(self)@.opened + 1) as u64,
                    ..old(self)@
                })
            }),
    {
        let idx = (h - 1) as usize;
        let ghost pre = self@;
        let (phase, cursor, row_count) = match &self.slots[idx] {
            Slot::Qry(q) => (q.phase, q.cursor, q.rows.len()),
            _ => {
                proof {
                    assert(false);
                }
                (ViewPhase::Closed, 0, 0)
            },
        };
        if phase != ViewPhase::Executing {
            return (ERROR_FUNCTION_FAILED, 0);
        }
        if cursor == row_count {
            self.view_close(h);
            return (crate::native::ERROR_NO_MORE_ITEMS, 0);
        }
        let row = match &self.slots[idx] {
            Slot::Qry(q) => clone_fields(&q.rows[cursor]),
            _ => {
                proof {
                    assert(false);
                }
                Vec::new()
            },
        };
        let mut taken = Slot::Vacant;
        core::mem::swap(&mut taken, &mut self.slots[idx]);
        match taken {
            Slot::Qry(mut q) => {
                q.cursor = cursor + 1;
                self.slots[idx] = Slot::Qry(q);
            },
            _ => {
                proof {
                    assert(false);
                }
            },
        }
        let rec: u32 = (self.slots.len() + 1) as u32;
        proof {
            let target = SlotView::Qry(
                QueryView {
                    query: pre.qry(h).query,
                    phase: ViewPhase::Executing,
                    rows: pre.qry(h).rows,
                    cursor: pre.qry(h).cursor + 1,
                },
            );
            assert(self@.slots =~~= pre.slots.update(idx as int, target));
            lemma_count_vacant_update(pre.slots, idx as int, target);
            lemma_map_values_push(self.slots@, Slot::Rec(row), |s: Slot| s@);
            lemma_count_vacant_push(self@.slots, SlotView::Rec(fields_view(row@)));
        }
        self.slots.push(Slot::Rec(row));
        self.opened = self.opened + 1;
        proof {
            let q = pre.qry(h);
            let target = SlotView::Qry(
                QueryView {
                    query: q.query,
                    phase: ViewPhase::Executing,
                    rows: q.rows,
                    cursor: q.cursor + 1,
                },
            );
            assert(self@ =~~= (EngineView {
                slots: pre.slots.update(idx as int, target).push(SlotView::Rec(q.rows[q.cursor])),
                opened: (pre.opened + 1) as u64,
                ..pre
            }));
        }
        (ERROR_SUCCESS, rec)
    }

    /// Applies a row operation through an executing view.  The install
    /// database of a live session admits only temporary rows: the
    /// temporary insert appends the record's fields to the rows stored
    /// under the view's query text, and every other operation is refused.
    pub(crate) fn view_modify(&mut self, h: u32, temporary: bool, rec: u32) -> (status: u32)
        requires
            old(self)@.wf(),
            old(self)@.valid_qry(h),
            old(self)@.valid_rec(rec),
        ensures
            final(self)@.wf(),
            status == (if old(self)@.qry(h).phase is Executing && temporary {
                ERROR_SUCCESS
            } else {
                ERROR_FUNCTION_FAILED
            }),
            status != ERROR_SUCCESS ==> final(self)@ == old(self)@,
            status == ERROR_SUCCESS ==> {
                &&& forall|k: Seq<char>| #[trigger] final(self)@.stored_rows(k) == (if k == old(
                    self,
                )@.qry(h).query {
                    old(self)@.stored_rows(k).push(old(self)@.rec_fields(rec))
                } else {
                    old(self)@.stored_rows(k)
                })
                &&& final(self)@ == (EngineView { store: final(self)@.store, ..old(self)@ })
            },
    {
        let idx = (h - 1) as usize;
        let ghost pre = self@;
        let (phase, query) = match &self.slots[idx] {
            Slot::Qry(q) => (q.phase, q.query.clone()),
            _ => {
                proof {
                    assert(false);
                }
                (ViewPhase::Closed, String::new())
            },
        };
        if phase != ViewPhase::Executing || !temporary {
            return ERROR_FUNCTION_FAILED;
        }
        let ridx = (rec - 1) as usize;
        let row = match &self.slots[ridx] {
            Slot::Rec(fields) => clone_fields(fields),
            _ => {
                proof {
                    assert(false);
                }
                Vec::new()
            },
        };
        let ghost rowv = fields_view(row@);
        match assoc_find(&self.store, &query) {
            Some(i) => {
                proof {
                    assert forall|j: int| 0 <= j < i implies (#[trigger] pre.store[j]).0
                        != query@ by {
                        assert(pre.store[j].0 == self.store@[j].0@);
                    }
                    lemma_assoc_get_at(pre.store, query@, i as int);
                }
                let mut taken: (String, Vec<Vec<Field>>) = (String::new(), Vec::new());
                core::mem::swap(&mut taken, &mut self.store[i]);
                let (key, mut rows) = taken;
                let ghost prev_rows = rows_view(rows@);
                proof {
                    lemma_map_values_push(rows@, row, |r: Vec<Field>| fields_view(r@));
                }
                rows.push(row);
                proof {
                    lemma_map_values_update(
                        old(self).store@,
                        i as int,
                        (key, rows),
                        |q: (String, Vec<Vec<Field>>)| (q.0@, rows_view(q.1@)),
                    );
                }
                self.store[i] = (key, rows);
                proof {
                    assert(self@.store =~~= pre.store.update(
                        i as int,
                        (query@, prev_rows.push(rowv)),
                    ));
                    assert forall|k: Seq<char>| #[trigger] self@.stored_rows(k) == (if k == query@ {
                        pre.stored_rows(k).push(rowv)
                    } else {
                        pre.stored_rows(k)
                    }) by {
                        lemma_assoc_get_update(
                            pre.store,
                            query@,
                            i as int,
                            prev_rows.push(rowv),
                            k,
                        );
                    }
                    assert(assoc_unique(self@.store)) by {
                        assert(forall|x: int|
                            0 <= x < pre.store.len() ==> (#[trigger] self@.store[x]).0
                                == pre.store[x].0);
                    }
                    assert(self@ =~~= (EngineView { store: self@.store, ..pre }));
                }
            },
            None => {
                proof {
                    assert forall|j: int| 0 <= j < pre.store.len() implies (
                    #[trigger] pre.store[j]).0 != query@ by {
                        assert(pre.store[j].0 == self.store@[j].0@);
                    }
                    lemma_assoc_get_none(pre.store, query@);
                }
                let mut rows: Vec<Vec<Field>> = Vec::new();
                rows.push(row);
                let key = query.clone();
                let ghost fq = |q: (String, Vec<Vec<Field>>)| (q.0@, rows_view(q.1@));
                proof {
                    lemma_map_values_push(self.store@, (key, rows), fq);
                }
                self.store.push((key, rows));
                proof {
                    assert(self@.store =~~= pre.store.push((query@, seq![rowv])));
                    assert forall|k: Seq<char>| #[trigger] self@.stored_rows(k) == (if k == query@ {
                        pre.stored_rows(k).push(rowv)
                    } else {
                        pre.stored_rows(k)
                    }) by {
                        lemma_assoc_get_push(pre.store, query@, seq![rowv], k);
                        assert(pre.stored_rows(query@) =~~= Seq::<Seq<FieldView>>::empty());
                        assert(pre.stored_rows(query@).push(rowv) =~~= seq![rowv]);
                    }
                    assert(assoc_unique(self@.store)) by {
                        assert(forall|x: int|
                            0 <= x < pre.store.len() ==> (#[trigger] self@.store[x]).0
                                == pre.store[x].0);
                        assert(self@.store[pre.store.len() as int].0 == query@);
                    }
                    assert(self@ =~~= (EngineView { store: self@.store, ..pre }));
                }
            },
        }
        ERROR_SUCCESS
    }

    /// Builds the primary-key description of a table: a fresh record
    /// whose template field holds the table name and whose fields hold
    /// the primary-key column names in order.  An unknown table is
    /// refused.
    pub(crate) fn primary_keys(&mut self, table: &str) -> (r: (u32, u32))
        requires
            old(self)@.wf(),
            old(self)@.can_alloc(),
        ensures
            final(self)@.wf(),
            ({
                let (status, h) = r;
                match old(self)@.table_cols(table@) {
                    Some(cols) => status == ERROR_SUCCESS && h == old(self)@.slots.len() + 1
                        && final(self)@.valid_rec(h) && final(self)@ == (EngineView {
                        slots: old(self)@.slots.push(SlotView::Rec(pk_fields(table@, cols))),
                        opened: (old(self)@.opened + 1) as u64,
                        ..old(self)@
                    }),
                    None => status == crate::native::ERROR_INVALID_TABLE && h == 0 && final(self)@
                        == old(self)@,
                }
            }),
    {
        let ghost pre = self@;
        let key = table.to_owned();
        match assoc_find(&self.tables, &key) {
            Some(i) => {
                proof {
                    assert forall|j: int| 0 <= j < i implies (#[trigger] pre.tables[j]).0
                        != table@ by {
                        assert(pre.tables[j].0 == self.tables@[j].0@);
                    }
                    lemma_assoc_get_at(pre.tables, table@, i as int);
                }
                let ghost cols = pre.tables[i as int].1;
                let mut fields: Vec<Field> = Vec::new();
                fields.push(Field::StringData(table.to_owned()));
                let columns = &self.tables[i].1;
                let mut j: usize = 0;
                while j < columns.len()
                    invariant
                        j <= columns@.len(),
                        cols == columns@.map_values(|c: String| c@),
                        fields_view(fields@) =~~= pk_fields(table@, cols.subrange(0, j as int)),
                        fields@.len() == j + 1,
                    decreases columns@.len() - j,
                {
                    let ghost prev = fields@;
                    let c = columns[j].clone();
                    fields.push(Field::StringData(c));
                    proof {
                        assert forall|x: int|
                            0 <= x < j + 2 implies fields_view(fields@)[x] == pk_fields(
                            table@,
                            cols.subrange(0, j + 1),
                        )[x] by {
                            if x < j + 1 {
                                assert(fields_view(prev)[x] == pk_fields(
                                    table@,
                                    cols.subrange(0, j as int),
                                )[x]);
                            }
                        }
                        assert(fields_view(fields@) =~~= pk_fields(
                            table@,
                            cols.subrange(0, j + 1),
                        ));
                    }
                    j = j + 1;
                }
                proof {
                    assert(cols.subrange(0, cols.len() as int) =~~= cols);
                    assert(fields_view(fields@) =~~= pk_fields(table@, cols));
                }
                let h: u32 = (self.slots.len() + 1) as u32;
                proof {
                    lemma_map_values_push(self.slots@, Slot::Rec(fields), |s: Slot| s@);
                    lemma_count_vacant_push(self@.slots, SlotView::Rec(fields_view(fields@)));
                }
                self.slots.push(Slot::Rec(fields));
                self.opened = self.opened + 1;
                proof {
                    assert(self@ =~~= (EngineView {
                        slots: pre.slots.push(SlotView::Rec(pk_fields(table@, cols))),
                        opened: (pre.opened + 1) as u64,
                        ..pre
                    }));
                }
                (ERROR_SUCCESS, h)
            },
            None => {
                proof {
                    assert forall|j: int| 0 <= j < pre.tables.len() implies (
                    #[trigger] pre.tables[j]).0 != table@ by {
                        assert(pre.tables[j].0 == self.tables@[j].0@);
                    }
                    lemma_assoc_get_none(pre.tables, table@);
                }
                (crate::native::ERROR_INVALID_TABLE, 0)
            },
        }
    }

    /// Dispatches a record as a message of the given native kind tag: the
    /// engine logs the kind and the record's formatted text, and answers
    /// with its configured response.
    pub(crate) fn process_message(&mut self, kind_tag: u32, rec: u32) -> (response: i32)
        requires
            old(self)@.wf(),
            old(self)@.valid_rec(rec),
        ensures
            final(self)@.wf(),
            response == old(self)@.response,
            final(self)@ == (EngineView {
                msgs: old(self)@.msgs.push(
                    (kind_tag, crate::format::format_record(old(self)@.rec_fields(rec))),
                ),
                ..old(self)@
            }),
    {
        let idx = (rec - 1) as usize;
        let text = match &self.slots[idx] {
            Slot::Rec(fields) => {
                proof {
                    assert(slot_wf(self@.slots[idx as int]));
                }
                crate::format::format_record_exec(fields)
            },
            _ => {
                proof {
                    assert(false);
                }
                String::new()
            },
        };
        proof {
            lemma_map_values_push(self.msgs@, (kind_tag, text), |m: (u32, String)| (m.0, m.1@));
        }
        self.msgs.push((kind_tag, text));
        proof {
            assert(self@ =~~= (EngineView {
                msgs: old(self)@.msgs.push(
                    (kind_tag, crate::format::format_record(old(self)@.rec_fields(rec))),
                ),
                ..old(self)@
            }));
        }
        self.response
    }
}

/// The fields of a primary-key description record: the table name in the
/// template field, and one string field per primary-key column.
pub open spec fn pk_fields(name: Seq<char>, cols: Seq<Seq<char>>) -> Seq<FieldView> {
    Seq::new(
        (cols.len() + 1) as nat,
        |j: int|
            if j == 0 {
                FieldView::StringData(name)
            } else {
                FieldView::StringData(cols[j - 1])
            },
    )
}

/// Which native string accessor a buffer-protocol retrieval goes through,
/// together with its arguments.
pub(crate) enum StringSource {
    /// The value of the named installer property.
    Property(String),
    /// The text of one record field.
    RecordField(u32, u32),
    /// The record's template formatted over its fields.
    FormatRecord(u32),
}

/// Whether the handles a string source names are open and of the right
/// kind.
pub(crate) open spec fn source_handle_ok(v: EngineView, src: StringSource) -> bool {
    match src {
        StringSource::Property(_) => true,
        StringSource::RecordField(h, _) => v.valid_rec(h),
        StringSource::FormatRecord(h) => v.valid_rec(h),
    }
}

/// Whether a string source resolves to a value.
pub(crate) open spec fn source_ok(v: EngineView, src: StringSource) -> bool {
    match src {
        StringSource::Property(_) => true,
        StringSource::RecordField(h, f) => (f as int) < v.rec_fields(h).len(),
        StringSource::FormatRecord(_) => true,
    }
}

/// The value a string source resolves to.
pub(crate) open spec fn source_value(v: EngineView, src: StringSource) -> Seq<char> {
    match src {
        StringSource::Property(name) => v.prop(name@),
        StringSource::RecordField(h, f) => crate::format::string_of_field(
            v.rec_fields(h)[f as int],
        ),
        StringSource::FormatRecord(h) => crate::format::format_record(v.rec_fields(h)),
    }
}

/// Copies a row of fields, preserving its values.
fn clone_fields(fields: &Vec<Field>) -> (r: Vec<Field>)
    ensures
        fields_view(r@) =~~= fields_view(fields@),
        r@.len() == fields@.len(),
{
    let mut r: Vec<Field> = Vec::new();
    let mut i: usize = 0;
    while i < fields.len()
        invariant
            i <= fields@.len(),
            fields_view(r@) =~~= fields_view(fields@.subrange(0, i as int)),
            r@.len() == i,
        decreases fields@.len() - i,
    {
        let ghost prev = r@;
        let c = fields[i].clone();
        r.push(c);
        proof {
            assert(r@ == prev.push(c));
            assert forall|j: int| 0 <= j < i + 1 implies fields_view(r@)[j] == fields_view(
                fields@.subrange(0, i + 1),
            )[j] by {
                if j < i {
                    assert(fields_view(prev)[j] == prev[j]@);
                    assert(r@[j] == prev[j]);
                } else {
                    assert(r@[j] == c);
                }
                assert(fields@.subrange(0, i + 1)[j] == fields@[j]);
            }
            assert(fields_view(r@) =~~= fields_view(fields@.subrange(0, i + 1)));
        }
        i = i + 1;
    }
    proof {
        assert(fields@.subrange(0, fields@.len() as int) =~~= fields@);
    }
    r
}

/// Copies a sequence of rows, preserving their values.
fn clone_rows(rows: &Vec<Vec<Field>>) -> (r: Vec<Vec<Field>>)
    ensures
        rows_view(r@) =~~= rows_view(rows@),
{
    let mut r: Vec<Vec<Field>> = Vec::new();
    let mut i: usize = 0;
    while i < rows.len()
        invariant
            i <= rows@.len(),
            rows_view(r@) =~~= rows_view(rows@.subrange(0, i as int)),
        decreases rows@.len() - i,
    {
        let ghost prev = r@;
        let row = clone_fields(&rows[i]);
        r.push(row);
        proof {
            lemma_map_values_push(prev, row, |x: Vec<Field>| fields_view(x@));
            assert(rows_view(r@) =~~= rows_view(rows@.subrange(0, i + 1)));
        }
        i = i + 1;
    }
    proof {
        assert(rows@.subrange(0, rows@.len() as int) =~~= rows@);
    }
    r
}

/// Finds the first entry of an association list holding a key.
fn assoc_find<V>(entries: &Vec<(String, V)>, key: &String) -> (r: Option<usize>)
    ensures
        match r {
            Some(i) => i < entries@.len() && entries@[i as int].0@ == key@ && (forall|j: int|
                0 <= j < i ==> (#[trigger] entries@[j]).0@ != key@),
            None => forall|j: int| 0 <= j < entries@.len() ==> (#[trigger] entries@[j]).0@ != key@,
        },
{
    let mut i: usize = 0;
    while i < entries.len()
        invariant
            i <= entries@.len(),
            forall|j: int| 0 <= j < i ==> (#[trigger] entries@[j]).0@ != key@,
        decreases entries@.len() - i,
    {
        if entries[i].0 == *key {
            return Some(i);
        }
        i = i + 1;
    }
    None
}

} // verus!
