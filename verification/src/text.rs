//! Decimal rendering of integers as character sequences.
//!
//! The engine renders integer record fields as decimal text, both when a
//! string accessor reads an integer field and when a template reference
//! substitutes one.  The spec-level meaning of that rendering is
//! [`dec_i32`]; the executable functions here are proved against it.

use vstd::prelude::*;
use vstd::string::StrSliceExecFns;

verus! {

/// The decimal digit character for a value below ten.
pub open spec fn digit_char(d: nat) -> char {
    if d == 0 {
        '0'
    } else if d == 1 {
        '1'
    } else if d == 2 {
        '2'
    } else if d == 3 {
        '3'
    } else if d == 4 {
        '4'
    } else if d == 5 {
        '5'
    } else if d == 6 {
        '6'
    } else if d == 7 {
        '7'
    } else if d == 8 {
        '8'
    } else {
        '9'
    }
}

/// The decimal digits of a natural number, most significant first.
pub open spec fn dec_nat(n: nat) -> Seq<char>
    decreases n,
{
    if n < 10 {
        seq![digit_char(n)]
    } else {
        dec_nat(n / 10).push(digit_char(n % 10))
    }
}

/// The decimal rendering of a signed integer, with a leading minus sign for
/// negative values.
pub open spec fn dec_i32(n: int) -> Seq<char> {
    if n < 0 {
        seq!['-'] + dec_nat((-n) as nat)
    } else {
        dec_nat(n as nat)
    }
}

/// Whether a character sequence holds an embedded NUL character.  The
/// native call surface carries strings as NUL-terminated buffers, so a
/// value with an embedded NUL cannot be handed to it.
pub open spec fn has_nul(s: Seq<char>) -> bool {
    exists|i: int| 0 <= i < s.len() && s[i] == '\0'
}

/// Decides whether a string holds an embedded NUL character.
pub(crate) fn contains_nul(s: &str) -> (b: bool)
    ensures
        b == has_nul(s@),
{
    let len = s.unicode_len();
    let mut i: usize = 0;
    while i < len
        invariant
            i <= len,
            len == s@.len(),
            forall|j: int| 0 <= j < i ==> s@[j] != '\0',
        decreases len - i,
    {
        if s.get_char(i) == '\0' {
            return true;
        }
        i = i + 1;
    }
    false
}

/// Relies on `String::push`: appends one character to the string.
#[verifier::external_body]
pub(crate) fn push_char(s: &mut String, c: char)
    ensures
        final(s)@ == old(s)@.push(c),
{
    s.push(c);
}

fn digit_of(d: u32) -> (c: char)
    requires
        d < 10,
    ensures
        c == digit_char(d as nat),
{
    if d == 0 {
        '0'
    } else if d == 1 {
        '1'
    } else if d == 2 {
        '2'
    } else if d == 3 {
        '3'
    } else if d == 4 {
        '4'
    } else if d == 5 {
        '5'
    } else if d == 6 {
        '6'
    } else if d == 7 {
        '7'
    } else if d == 8 {
        '8'
    } else {
        '9'
    }
}

/// Appends the decimal digits of `n` to `s`.
pub(crate) fn push_dec_u32(s: &mut String, n: u32)
    ensures
        final(s)@ == old(s)@ + dec_nat(n as nat),
    decreases n,
{
    if n < 10 {
        push_char(s, digit_of(n));
        assert(s@ =~= old(s)@ + dec_nat(n as nat));
    } else {
        push_dec_u32(s, n / 10);
        push_char(s, digit_of(n % 10));
        assert(s@ =~= old(s)@ + dec_nat(n as nat));
    }
}

/// Appends the decimal rendering of a signed integer to `s`.
pub(crate) fn push_dec_i32(s: &mut String, n: i32)
    ensures
        final(s)@ == old(s)@ + dec_i32(n as int),
{
    if n < 0 {
        push_char(s, '-');
        let magnitude: u32 = (-(n as i64)) as u32;
        assert(magnitude as nat == (-(n as int)) as nat);
        push_dec_u32(s, magnitude);
        assert(s@ =~= old(s)@ + dec_i32(n as int));
    } else {
        push_dec_u32(s, n as u32);
        assert(s@ =~= old(s)@ + dec_i32(n as int));
    }
}

/// Renders a signed integer as decimal text.
pub(crate) fn dec_i32_string(n: i32) -> (s: String)
    ensures
        s@ == dec_i32(n as int),
{
    let mut s = String::new();
    push_dec_i32(&mut s, n);
    assert(s@ =~= dec_i32(n as int));
    s
}

} // verus!
