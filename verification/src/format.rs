//! Template formatting of records.
//!
//! A record's template (field 0) may reference fields by 1-based index in
//! square brackets: `[2]` substitutes the value of field 2, rendered as
//! text.  A span in curly braces is omitted wholesale when any field
//! reference it encloses is null or out of range, and rendered without the
//! braces otherwise.  A reference to a null or out-of-range field outside
//! braces substitutes nothing.  [`format_record`] is the spec-level meaning
//! of that substitution; [`format_record_exec`] is proved against it.

use vstd::prelude::*;
use vstd::string::{StrSliceExecFns, StringExecFns};

use crate::engine::MAX_RECORD_FIELDS;
use crate::record::{Field, FieldView};
use crate::text::{dec_i32, push_char, push_dec_i32};

verus! {

/// Whether a character is a decimal digit.
pub open spec fn is_digit(c: char) -> bool {
    '0' <= c <= '9'
}

/// The numeric value of a digit character.
pub open spec fn digit_val(c: char) -> int {
    c as u32 - '0' as u32
}

/// The text a field contributes when referenced: a string field its text,
/// an integer field its decimal rendering, a null field nothing.
pub open spec fn string_of_field(f: FieldView) -> Seq<char> {
    match f {
        FieldView::StringData(s) => s,
        FieldView::IntegerData(n) => dec_i32(n),
        FieldView::Null => Seq::empty(),
    }
}

/// The length of the digit run starting at `from`, looking no further than
/// `to`.
pub open spec fn digit_run(t: Seq<char>, from: int, to: int) -> int
    decreases to - from,
{
    if from < to && is_digit(t[from]) {
        1 + digit_run(t, from + 1, to)
    } else {
        0
    }
}

/// The value of the digit text `t[from .. to]`.
pub open spec fn digits_val(t: Seq<char>, from: int, to: int) -> int
    decreases to - from,
{
    if to <= from {
        0
    } else {
        digits_val(t, from, to - 1) * 10 + digit_val(t[to - 1])
    }
}

/// Whether a complete field reference `[n]` starts at `from`.
pub open spec fn ref_at(t: Seq<char>, from: int, to: int) -> bool {
    &&& from < to
    &&& t[from] == '['
    &&& digit_run(t, from + 1, to) >= 1
    &&& from + 1 + digit_run(t, from + 1, to) < to
    &&& t[from + 1 + digit_run(t, from + 1, to)] == ']'
}

/// Whether `j` is the first closing brace strictly after `from` and before
/// `to`.
pub open spec fn brace_close_at(t: Seq<char>, from: int, to: int, j: int) -> bool {
    &&& from < j < to
    &&& t[j] == '}'
    &&& forall|k: int| from < k < j ==> t[k] != '}'
}

/// The substitution of a field reference: the referenced field's text, or
/// nothing when the index is out of range.
pub open spec fn sub_field(fields: Seq<FieldView>, n: int) -> Seq<char> {
    if 0 <= n < fields.len() {
        string_of_field(fields[n])
    } else {
        Seq::empty()
    }
}

/// Whether every field reference in `t[from .. to]` names a field that
/// exists and is not null.
pub open spec fn refs_defined(t: Seq<char>, fields: Seq<FieldView>, from: int, to: int) -> bool
    decreases to - from,
{
    if from >= to {
        true
    } else if ref_at(t, from, to) {
        let e = from + 1 + digit_run(t, from + 1, to);
        let n = digits_val(t, from + 1, e);
        &&& 0 <= n < fields.len()
        &&& !(fields[n] is Null)
        &&& refs_defined(t, fields, e + 1, to)
    } else {
        refs_defined(t, fields, from + 1, to)
    }
}

/// The formatted text of the template range `t[from .. to]` over the given
/// fields.
pub open spec fn format_range(t: Seq<char>, fields: Seq<FieldView>, from: int, to: int) -> Seq<
    char,
>
    decreases to - from,
{
    if from >= to {
        Seq::empty()
    } else if ref_at(t, from, to) {
        let e = from + 1 + digit_run(t, from + 1, to);
        sub_field(fields, digits_val(t, from + 1, e)) + format_range(t, fields, e + 1, to)
    } else if t[from] == '{' && (exists|j: int| brace_close_at(t, from, to, j)) {
        let j = choose|j: int| brace_close_at(t, from, to, j);
        (if refs_defined(t, fields, from + 1, j) {
            format_range(t, fields, from + 1, j)
        } else {
            Seq::<char>::empty()
        }) + format_range(t, fields, j + 1, to)
    } else {
        seq![t[from]] + format_range(t, fields, from + 1, to)
    }
}

/// The formatted text of a record: its template formatted over its fields.
/// A record whose template field holds no string formats to nothing.
pub open spec fn format_record(fields: Seq<FieldView>) -> Seq<char> {
    if fields.len() >= 1 {
        match fields[0] {
            FieldView::StringData(t) => format_range(t, fields, 0, t.len() as int),
            _ => Seq::<char>::empty(),
        }
    } else {
        Seq::<char>::empty()
    }
}

proof fn lemma_digit_run_exact(t: Seq<char>, a: int, e: int, to: int)
    requires
        a <= e <= to,
        forall|j: int| a <= j < e ==> is_digit(#[trigger] t[j]),
        e == to || !is_digit(t[e]),
    ensures
        digit_run(t, a, to) == e - a,
    decreases e - a,
{
    if a < e {
        lemma_digit_run_exact(t, a + 1, e, to);
    }
}

/// The digit-scanning threshold: any reference value at or above it is out
/// of range for every record, whose field count the engine caps lower.
const REF_CAP: u32 = 100000;

/// Scans the digit run after an opening bracket at `from`, yielding the
/// index just past the run and the run's value, saturated at the cap.
fn scan_ref(t: &str, from: usize, to: usize) -> (r: (usize, u32))
    requires
        from < to,
        to <= t@.len(),
    ensures
        ({
            let (e, val) = r;
            &&& from + 1 <= e <= to
            &&& e - (from + 1) == digit_run(t@, from + 1, to as int)
            &&& (digits_val(t@, from + 1, e as int) < REF_CAP && val == digits_val(
                t@,
                from + 1,
                e as int,
            ) || (digits_val(t@, from + 1, e as int) >= REF_CAP && val == REF_CAP))
        }),
{
    let mut e = from + 1;
    let mut val: u32 = 0;
    loop
        invariant
            from + 1 <= e <= to,
            to <= t@.len(),
            forall|j: int| from + 1 <= j < e ==> is_digit(#[trigger] t@[j]),
            (digits_val(t@, from + 1, e as int) < REF_CAP && val == digits_val(
                t@,
                from + 1,
                e as int,
            ) || (digits_val(t@, from + 1, e as int) >= REF_CAP && val == REF_CAP)),
        ensures
            e == to || !is_digit(t@[e as int]),
        decreases to - e,
    {
        if e >= to {
            break;
        }
        let c = t.get_char(e);
        if !(c >= '0' && c <= '9') {
            break;
        }
        let d = (c as u32) - ('0' as u32);
        proof {
            assert(digits_val(t@, from + 1, e + 1) == digits_val(t@, from + 1, e as int) * 10
                + digit_val(t@[e as int]));
        }
        if val < REF_CAP {
            let nv = val * 10 + d;
            if nv >= REF_CAP {
                val = REF_CAP;
            } else {
                val = nv;
            }
        }
        e = e + 1;
    }
    proof {
        lemma_digit_run_exact(t@, from + 1, e as int, to as int);
    }
    (e, val)
}

/// Appends the text a field contributes when referenced.
fn push_field(out: &mut String, fields: &Vec<Field>, n: usize)
    requires
        n < fields@.len(),
    ensures
        final(out)@ == old(out)@ + string_of_field(
            crate::engine::fields_view(fields@)[n as int],
        ),
{
    match &fields[n] {
        Field::StringData(s) => {
            out.append(s.as_str());
        },
        Field::IntegerData(v) => {
            push_dec_i32(out, *v);
        },
        Field::Null => {
            assert(out@ =~= old(out)@ + Seq::<char>::empty());
        },
    }
}

/// Formats the template range `t[from .. to]` over the given fields,
/// appending to `out`.
fn fmt_range(t: &str, fields: &Vec<Field>, from: usize, to: usize, out: &mut String)
    requires
        from <= to,
        to <= t@.len(),
        fields@.len() <= MAX_RECORD_FIELDS + 1,
    ensures
        final(out)@ == old(out)@ + format_range(
            t@,
            crate::engine::fields_view(fields@),
            from as int,
            to as int,
        ),
    decreases to - from,
{
    let ghost fv = crate::engine::fields_view(fields@);
    if from >= to {
        assert(out@ =~= old(out)@ + format_range(t@, fv, from as int, to as int));
        return ;
    }
    let c = t.get_char(from);
    if c == '[' {
        let (e, val) = scan_ref(t, from, to);
        let closed = e > from + 1 && e < to && t.get_char(e) == ']';
        if closed {
            proof {
                assert(ref_at(t@, from as int, to as int));
            }
            if val < REF_CAP && (val as usize) < fields.len() {
                push_field(out, fields, val as usize);
            } else {
                proof {
                    assert(sub_field(fv, digits_val(t@, from + 1, e as int)) =~= Seq::<
                        char,
                    >::empty());
                }
            }
            fmt_range(t, fields, e + 1, to, out);
            proof {
                assert(out@ =~= old(out)@ + format_range(t@, fv, from as int, to as int));
            }
        } else {
            proof {
                assert(!ref_at(t@, from as int, to as int));
            }
            push_char(out, c);
            fmt_range(t, fields, from + 1, to, out);
            proof {
                assert(out@ =~= old(out)@ + format_range(t@, fv, from as int, to as int));
            }
        }
    } else if c == '{' {
        let mut k = from + 1;
        while k < to && t.get_char(k) != '}'
            invariant
                from + 1 <= k <= to,
                to <= t@.len(),
                forall|j: int| from < j < k ==> t@[j] != '}',
            decreases to - k,
        {
            k = k + 1;
        }
        if k < to {
            proof {
                assert(brace_close_at(t@, from as int, to as int, k as int));
                let jj = choose|j: int| brace_close_at(t@, from as int, to as int, j);
                assert(brace_close_at(t@, from as int, to as int, jj));
                assert(jj == k as int) by {
                    if jj < k {
                        assert(t@[jj] == '}');
                        assert(false);
                    }
                    if jj > k {
                        assert(t@[k as int] == '}');
                        assert(false);
                    }
                }
            }
            let defined = refs_defined_exec(t, fields, from + 1, k);
            if defined {
                fmt_range(t, fields, from + 1, k, out);
            }
            fmt_range(t, fields, k + 1, to, out);
            proof {
                assert(out@ =~= old(out)@ + format_range(t@, fv, from as int, to as int));
            }
        } else {
            proof {
                assert forall|j: int| !brace_close_at(t@, from as int, to as int, j) by {
                    if from < j < to {
                        assert(t@[j] != '}');
                    }
                }
                assert(!ref_at(t@, from as int, to as int));
            }
            push_char(out, c);
            fmt_range(t, fields, from + 1, to, out);
            proof {
                assert(out@ =~= old(out)@ + format_range(t@, fv, from as int, to as int));
            }
        }
    } else {
        proof {
            assert(!ref_at(t@, from as int, to as int));
        }
        push_char(out, c);
        fmt_range(t, fields, from + 1, to, out);
        proof {
            assert(out@ =~= old(out)@ + format_range(t@, fv, from as int, to as int));
        }
    }
}

/// Decides whether every field reference in `t[from .. to]` names a field
/// that exists and is not null.
fn refs_defined_exec(t: &str, fields: &Vec<Field>, from: usize, to: usize) -> (b: bool)
    requires
        from <= to,
        to <= t@.len(),
        fields@.len() <= MAX_RECORD_FIELDS + 1,
    ensures
        b == refs_defined(t@, crate::engine::fields_view(fields@), from as int, to as int),
    decreases to - from,
{
    let ghost fv = crate::engine::fields_view(fields@);
    if from >= to {
        return true;
    }
    let c = t.get_char(from);
    if c == '[' {
        let (e, val) = scan_ref(t, from, to);
        let closed = e > from + 1 && e < to && t.get_char(e) == ']';
        if closed {
            proof {
                assert(ref_at(t@, from as int, to as int));
            }
            let present = if val < REF_CAP && (val as usize) < fields.len() {
                match &fields[val as usize] {
                    Field::Null => false,
                    _ => true,
                }
            } else {
                false
            };
            proof {
                let n = digits_val(t@, from + 1, e as int);
                assert(present == (0 <= n < fv.len() && !(fv[n] is Null)));
            }
            if present {
                refs_defined_exec(t, fields, e + 1, to)
            } else {
                false
            }
        } else {
            proof {
                assert(!ref_at(t@, from as int, to as int));
            }
            refs_defined_exec(t, fields, from + 1, to)
        }
    } else {
        proof {
            assert(!ref_at(t@, from as int, to as int));
        }
        refs_defined_exec(t, fields, from + 1, to)
    }
}

/// Formats a record: its template (field 0) formatted over its fields.
pub(crate) fn format_record_exec(fields: &Vec<Field>) -> (out: String)
    requires
        fields@.len() <= MAX_RECORD_FIELDS + 1,
    ensures
        out@ == format_record(crate::engine::fields_view(fields@)),
{
    let ghost fv = crate::engine::fields_view(fields@);
    let mut out = String::new();
    if fields.len() == 0 {
        return out;
    }
    match &fields[0] {
        Field::StringData(tpl) => {
            let len = tpl.as_str().unicode_len();
            fmt_range(tpl.as_str(), fields, 0, len, &mut out);
            proof {
                assert(out@ =~= format_record(fv));
            }
        },
        _ => {
            proof {
                assert(out@ =~= format_record(fv));
            }
        },
    }
    out
}

} // verus!
