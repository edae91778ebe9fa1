//! Rendering field values and field maps as JSON text.
//!
//! The output grammar is fixed by the spec functions here: strings are
//! quoted with `"`, `\` and control characters escaped, integers are
//! rendered in decimal, and objects list their entries in map order.

use vstd::prelude::*;
use vstd::string::StrSliceExecFns;
use vstd::string::StringExecFns;

use crate::fields::{Entries, FieldMap, FieldValue, ValueView};

verus! {

/// Relies on `String::push`: appends the given character to the string.
#[verifier::external_body]
pub(crate) fn push_char(s: &mut String, c: char)
    ensures
        final (s)@ == old(s)@.push(c),
{
    s.push(c);
}

/// The decimal digit `d` as a character.
pub open spec fn dec_digit(d: int) -> char {
    if d == 0 {
        '0'
    } else if d == 1 {
        '1'
    } else if d == 2 {
        '2'
    } else if d == 3 {
        '3'
    } else if d == 4 {
        '4'
    } else if d == 5 {
        '5'
    } else if d == 6 {
        '6'
    } else if d == 7 {
        '7'
    } else if d == 8 {
        '8'
    } else {
        '9'
    }
}

/// The decimal rendering of a non-negative integer, without leading zeros.
pub open spec fn dec_nat(n: int) -> Seq<char>
    decreases n,
{
    if n < 10 {
        seq![dec_digit(n)]
    } else {
        dec_nat(n / 10) + seq![dec_digit(n % 10)]
    }
}

/// The decimal rendering of an integer, with a leading `-` when negative.
pub open spec fn dec_int(i: int) -> Seq<char> {
    if i < 0 {
        seq!['-'] + dec_nat(-i)
    } else {
        dec_nat(i)
    }
}

fn dec_digit_char(d: u64) -> (c: char)
    requires
        d < 10,
    ensures
        c == dec_digit(d as int),
{
    if d == 0 {
        '0'
    } else if d == 1 {
        '1'
    } else if d == 2 {
        '2'
    } else if d == 3 {
        '3'
    } else if d == 4 {
        '4'
    } else if d == 5 {
        '5'
    } else if d == 6 {
        '6'
    } else if d == 7 {
        '7'
    } else if d == 8 {
        '8'
    } else {
        '9'
    }
}

/// Append the decimal rendering of `n`.
pub fn push_dec_u64(out: &mut String, n: u64)
    ensures
        final (out)@ == old(out)@ + dec_nat(n as int),
    decreases n,
{
    if n >= 10 {
        push_dec_u64(out, n / 10);
    }
    push_char(out, dec_digit_char(n % 10));
    proof {
        assert(final (out)@ =~= old(out)@ + dec_nat(n as int));
    }
}

/// Append the decimal rendering of `i`, with a leading `-` when negative.
pub fn push_dec_i64(out: &mut String, i: i64)
    ensures
        final (out)@ == old(out)@ + dec_int(i as int),
{
    if i >= 0 {
        push_dec_u64(out, i as u64);
    } else {
        push_char(out, '-');
        let mag: u64 = ((-(i + 1)) as u64) + 1;
        assert(mag as int == -(i as int));
        push_dec_u64(out, mag);
        proof {
            assert(final (out)@ =~= old(out)@ + dec_int(i as int));
        }
    }
}

/// The hexadecimal digit `d` as a lower-case character.
pub open spec fn hex_digit(d: int) -> char {
    if d < 10 {
        dec_digit(d)
    } else if d == 10 {
        'a'
    } else if d == 11 {
        'b'
    } else if d == 12 {
        'c'
    } else if d == 13 {
        'd'
    } else if d == 14 {
        'e'
    } else {
        'f'
    }
}

fn hex_digit_char(d: u32) -> (c: char)
    requires
        d < 16,
    ensures
        c == hex_digit(d as int),
{
    if d < 10 {
        dec_digit_char(d as u64)
    } else if d == 10 {
        'a'
    } else if d == 11 {
        'b'
    } else if d == 12 {
        'c'
    } else if d == 13 {
        'd'
    } else if d == 14 {
        'e'
    } else {
        'f'
    }
}

/// How one character appears inside a JSON string literal: quotes and
/// backslashes are escaped, control characters get their short escape or a
/// `\u00..` escape, everything else stands for itself.
pub open spec fn escape_char(c: char) -> Seq<char> {
    if c == '"' {
        seq!['\\', '"']
    } else if c == '\\' {
        seq!['\\', '\\']
    } else if c == '\u{8}' {
        seq!['\\', 'b']
    } else if c == '\u{9}' {
        seq!['\\', 't']
    } else if c == '\u{a}' {
        seq!['\\', 'n']
    } else if c == '\u{c}' {
        seq!['\\', 'f']
    } else if c == '\u{d}' {
        seq!['\\', 'r']
    } else if (c as int) < 0x20 {
        seq!['\\', 'u', '0', '0', hex_digit((c as int) / 16), hex_digit((c as int) % 16)]
    } else {
        seq![c]
    }
}

/// The body of a JSON string literal for `s`.
pub open spec fn escape_seq(s: Seq<char>) -> Seq<char>
    decreases s.len(),
{
    if s.len() == 0 {
        Seq::empty()
    } else {
        escape_seq(s.drop_last()) + escape_char(s.last())
    }
}

/// The JSON string literal for `s`, quotes included.
pub open spec fn json_string(s: Seq<char>) -> Seq<char> {
    seq!['"'] + escape_seq(s) + seq!['"']
}

fn push_escaped_char(out: &mut String, c: char)
    ensures
        final (out)@ == old(out)@ + escape_char(c),
{
    if c == '"' {
        push_char(out, '\\');
        push_char(out, '"');
    } else if c == '\\' {
        push_char(out, '\\');
        push_char(out, '\\');
    } else if c == '\u{8}' {
        push_char(out, '\\');
        push_char(out, 'b');
    } else if c == '\u{9}' {
        push_char(out, '\\');
        push_char(out, 't');
    } else if c == '\u{a}' {
        push_char(out, '\\');
        push_char(out, 'n');
    } else if c == '\u{c}' {
        push_char(out, '\\');
        push_char(out, 'f');
    } else if c == '\u{d}' {
        push_char(out, '\\');
        push_char(out, 'r');
    } else if (c as u32) < 0x20 {
        push_char(out, '\\');
        push_char(out, 'u');
        push_char(out, '0');
        push_char(out, '0');
        let x = c as u32;
        push_char(out, hex_digit_char(x / 16));
        push_char(out, hex_digit_char(x % 16));
    } else {
        push_char(out, c);
    }
    proof {
        assert(final (out)@ =~= old(out)@ + escape_char(c));
    }
}

/// Append the JSON string literal for `s`, quotes included.
#[verifier::loop_isolation(false)]
pub fn push_json_string(out: &mut String, s: &str)
    ensures
        final (out)@ == old(out)@ + json_string(s@),
{
    push_char(out, '"');
    let n = s.unicode_len();
    for i in 0..n
        invariant
            out@ == old(out)@ + seq!['"'] + escape_seq(s@.take(i as int)),
    {
        let c = s.get_char(i);
        push_escaped_char(out, c);
        proof {
            assert(s@.take(i as int + 1).drop_last() =~= s@.take(i as int));
            assert(s@.take(i as int + 1).last() == c);
            assert(out@ =~= old(out)@ + seq!['"'] + escape_seq(s@.take(i as int + 1)));
        }
    }
    push_char(out, '"');
    proof {
        assert(s@.take(n as int) =~= s@);
        assert(final (out)@ =~= old(out)@ + json_string(s@));
    }
}

/// The JSON rendering of one field value.
pub open spec fn json_of_value(v: ValueView) -> Seq<char> {
    match v {
        ValueView::Bool(b) => if b {
            "true"@
        } else {
            "false"@
        },
        ValueView::I64(i) => dec_int(i),
        ValueView::U64(u) => dec_nat(u),
        ValueView::Str(s) => json_string(s),
        ValueView::Num(s) => s,
    }
}

/// Append the JSON rendering of `v`.
pub fn push_value(out: &mut String, v: &FieldValue)
    ensures
        final (out)@ == old(out)@ + json_of_value(v@),
{
    match v {
        FieldValue::Bool(b) => {
            if *b {
                out.append("true");
            } else {
                out.append("false");
            }
        },
        FieldValue::I64(i) => push_dec_i64(out, *i),
        FieldValue::U64(u) => push_dec_u64(out, *u),
        FieldValue::Str(s) => push_json_string(out, s.as_str()),
        FieldValue::Num(s) => out.append(s.as_str()),
    }
}

/// The JSON rendering of one `name: value` member.
pub open spec fn entry_json(e: (Seq<char>, ValueView)) -> Seq<char> {
    json_string(e.0) + seq![':'] + json_of_value(e.1)
}

/// The comma-separated members of an object, in entry order.
pub open spec fn entries_json(es: Entries) -> Seq<char>
    decreases es.len(),
{
    if es.len() == 0 {
        Seq::empty()
    } else if es.len() == 1 {
        entry_json(es[0])
    } else {
        entries_json(es.drop_last()) + seq![','] + entry_json(es.last())
    }
}

/// The JSON object holding the entries of a field map, braces included.
pub open spec fn object_json(es: Entries) -> Seq<char> {
    seq!['{'] + entries_json(es) + seq!['}']
}

/// Append the JSON object for the field map `m`.
#[verifier::loop_isolation(false)]
pub fn push_object(out: &mut String, m: &FieldMap)
    ensures
        final (out)@ == old(out)@ + object_json(m@),
{
    push_char(out, '{');
    let entries = m.entries();
    let n = entries.len();
    for i in 0..n
        invariant
            out@ == old(out)@ + seq!['{'] + entries_json(m@.take(i as int)),
    {
        if i > 0 {
            push_char(out, ',');
        }
        push_json_string(out, entries[i].0.as_str());
        push_char(out, ':');
        push_value(out, &entries[i].1);
        proof {
            assert(m@[i as int] == (entries@[i as int].0@, entries@[i as int].1@));
            assert(m@.take(i as int + 1).drop_last() =~= m@.take(i as int));
            assert(m@.take(i as int + 1).last() == m@[i as int]);
            assert(out@ =~= old(out)@ + seq!['{'] + entries_json(m@.take(i as int + 1)));
        }
    }
    push_char(out, '}');
    proof {
        assert(m@.take(n as int) =~= m@);
        assert(final (out)@ =~= old(out)@ + object_json(m@));
    }
}

} // verus!
