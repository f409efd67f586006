//! The texts that errors give of the values and fields that a read could
//! not use: numbers in decimal, strings by their characters, quoted and
//! escaped as std's `Debug` does.
use vstd::prelude::*;
use vstd::utf8::{decode_utf8, valid_utf8};

use crate::memory::in_range;
use crate::structure::{BaseType, ValueKind};
use crate::text::{cstr_at, cstr_len, decode_utf16, read_cstr, read_units, units_at};
use crate::value::SimpleValue;

verus! {

/// The text that std's `String::from_utf8_lossy` makes of bytes.
pub uninterp spec fn lossy_utf8(bytes: Seq<u8>) -> Seq<char>;

/// The text that std's `String::from_utf16_lossy` makes of 16-bit units.
pub uninterp spec fn lossy_utf16(units: Seq<u16>) -> Seq<char>;

/// The text that std's `Debug` gives of a string: quoted, with its special
/// characters escaped.
pub uninterp spec fn debug_quoted(text: Seq<char>) -> Seq<char>;

/// The text of bytes, each invalid sequence replaced by U+FFFD
/// (`String::from_utf8_lossy`): valid UTF-8 decodes as it is.
#[verifier::external_body]
fn utf8_lossy(bytes: &[u8]) -> (r: String)
    ensures
        r@ == lossy_utf8(bytes@),
        valid_utf8(bytes@) ==> r@ == decode_utf8(bytes@),
{
    String::from_utf8_lossy(bytes).into_owned()
}

/// The text of 16-bit units, each unpaired surrogate replaced by U+FFFD
/// (`String::from_utf16_lossy`): valid UTF-16 decodes as it is.
#[verifier::external_body]
fn utf16_lossy(units: &[u16]) -> (r: String)
    ensures
        r@ == lossy_utf16(units@),
        decode_utf16(units@) matches Some(t) ==> r@ == t,
{
    String::from_utf16_lossy(units)
}

/// The `Debug` form of a string (std's `format!` with `{:?}` on a `str`).
#[verifier::external_body]
fn debug_quote(text: &str) -> (r: String)
    ensures
        r@ == debug_quoted(text@),
{
    format!("{:?}", text)
}

/// The decimal digit `d`.
pub open spec fn digit_spec(d: nat) -> char {
    if d == 0 {
        '0'
    } else if d == 1 {
        '1'
    } else if d == 2 {
        '2'
    } else if d == 3 {
        '3'
    } else if d == 4 {
        '4'
    } else if d == 5 {
        '5'
    } else if d == 6 {
        '6'
    } else if d == 7 {
        '7'
    } else if d == 8 {
        '8'
    } else {
        '9'
    }
}

/// The decimal digits of `n`, most significant first, without leading zeros.
pub open spec fn decimal_spec(n: nat) -> Seq<char>
    decreases n,
{
    if n < 10 {
        seq![digit_spec(n)]
    } else {
        decimal_spec(n / 10).push(digit_spec(n % 10))
    }
}

/// `i` in decimal, with a minus sign when it is negative.
pub open spec fn signed_spec(i: int) -> Seq<char> {
    if i < 0 {
        seq!['-'] + decimal_spec((-i) as nat)
    } else {
        decimal_spec(i as nat)
    }
}

/// `true` or `false`.
pub open spec fn bool_spec(b: bool) -> Seq<char> {
    if b {
        "true"@
    } else {
        "false"@
    }
}

/// The quoted text of the zero-terminated string at `data`.
pub open spec fn narrow_quoted(heap: Seq<u8>, data: u64) -> Seq<char> {
    debug_quoted(lossy_utf8(cstr_at(heap, data as int)))
}

/// The quoted text of the `size` 16-bit units at `data`.
pub open spec fn wide_quoted(heap: Seq<u8>, data: u64, size: u64) -> Seq<char> {
    debug_quoted(lossy_utf16(units_at(heap, data as int, size as int)))
}

/// True when the characters of a string value lie within `heap`: a zero
/// byte ends a narrow string, and a wide string's units are all there.
pub open spec fn chars_readable(heap: Seq<u8>, v: SimpleValue) -> bool {
    match v {
        SimpleValue::String { data } => cstr_len(heap, data as int) is Some,
        SimpleValue::BoundedString { data } => cstr_len(heap, data as int) is Some,
        SimpleValue::WString { data, size } => in_range(heap, data as int, 2 * size),
        SimpleValue::BoundedWString { data, size } => in_range(heap, data as int, 2 * size),
        _ => true,
    }
}

/// The text of a single value read: its kind and payload. Numbers are in
/// decimal (floating-point ones by their bit patterns), strings are quoted
/// as `Debug` quotes them, with invalid code replaced.
pub open spec fn value_text_spec(heap: Seq<u8>, v: SimpleValue) -> Seq<char> {
    "Simple("@ + match v {
        SimpleValue::Float(b) => "Float("@ + decimal_spec(b as nat) + ")"@,
        SimpleValue::Double(b) => "Double("@ + decimal_spec(b as nat) + ")"@,
        SimpleValue::LongDouble => "LongDouble"@,
        SimpleValue::Char(c) => "Char("@ + decimal_spec(c as nat) + ")"@,
        SimpleValue::WChar(c) => "WChar("@ + decimal_spec(c as nat) + ")"@,
        SimpleValue::Boolean(b) => "Boolean("@ + bool_spec(b) + ")"@,
        SimpleValue::Octet(x) => "Octet("@ + decimal_spec(x as nat) + ")"@,
        SimpleValue::Uint8(x) => "Uint8("@ + decimal_spec(x as nat) + ")"@,
        SimpleValue::Int8(x) => "Int8("@ + signed_spec(x as int) + ")"@,
        SimpleValue::Uint16(x) => "Uint16("@ + decimal_spec(x as nat) + ")"@,
        SimpleValue::Int16(x) => "Int16("@ + signed_spec(x as int) + ")"@,
        SimpleValue::Uint32(x) => "Uint32("@ + decimal_spec(x as nat) + ")"@,
        SimpleValue::Int32(x) => "Int32("@ + signed_spec(x as int) + ")"@,
        SimpleValue::Uint64(x) => "Uint64("@ + decimal_spec(x as nat) + ")"@,
        SimpleValue::Int64(x) => "Int64("@ + signed_spec(x as int) + ")"@,
        SimpleValue::String { data } => "String("@ + narrow_quoted(heap, data) + ")"@,
        SimpleValue::BoundedString { data } => "BoundedString("@ + narrow_quoted(heap, data)
            + ")"@,
        SimpleValue::WString { data, size } => "WString("@ + wide_quoted(heap, data, size) + ")"@,
        SimpleValue::BoundedWString { data, size } => "BoundedWString("@ + wide_quoted(
            heap,
            data,
            size,
        ) + ")"@,
        SimpleValue::Message => "Message"@,
    } + ")"@
}

/// The text of a field whose elements cannot be read one by one: its kind
/// and its element type, an array, sequence or bounded sequence of messages
/// or of long doubles.
pub open spec fn kind_text_spec(k: ValueKind, b: BaseType) -> Seq<char> {
    if b is Message {
        match k {
            ValueKind::Array { .. } => "Array(MessageArray)"@,
            ValueKind::BoundedSequence { .. } => "BoundedSequence(MessageBoundedSequence)"@,
            _ => "Sequence(MessageSequence)"@,
        }
    } else {
        match k {
            ValueKind::Array { .. } => "Array(LongDoubleArray)"@,
            ValueKind::BoundedSequence { .. } => "BoundedSequence(LongDoubleBoundedSequence)"@,
            _ => "Sequence(LongDoubleSequence)"@,
        }
    }
}

/// `prefix`, then `middle`, then `suffix`.
pub fn framed(prefix: &str, middle: &String, suffix: &str) -> (r: String)
    ensures
        r@ == prefix@ + middle@ + suffix@,
{
    let mut s = String::from_str(prefix);
    s.append(middle.as_str());
    s.append(suffix);
    s
}

/// The decimal digit `d` as a string.
fn digit_text(d: u64) -> (r: &'static str)
    requires
        d < 10,
    ensures
        r@ == seq![digit_spec(d as nat)],
{
    proof {
        reveal_strlit("0");
        reveal_strlit("1");
        reveal_strlit("2");
        reveal_strlit("3");
        reveal_strlit("4");
        reveal_strlit("5");
        reveal_strlit("6");
        reveal_strlit("7");
        reveal_strlit("8");
        reveal_strlit("9");
    }
    if d == 0 {
        "0"
    } else if d == 1 {
        "1"
    } else if d == 2 {
        "2"
    } else if d == 3 {
        "3"
    } else if d == 4 {
        "4"
    } else if d == 5 {
        "5"
    } else if d == 6 {
        "6"
    } else if d == 7 {
        "7"
    } else if d == 8 {
        "8"
    } else {
        "9"
    }
}

/// `n` in decimal.
pub fn decimal(n: u64) -> (r: String)
    ensures
        r@ == decimal_spec(n as nat),
    decreases n,
{
    if n < 10 {
        String::from_str(digit_text(n))
    } else {
        let mut s = decimal(n / 10);
        s.append(digit_text(n % 10));
        s
    }
}

/// `i` in decimal, with a minus sign when it is negative.
pub fn signed(i: i64) -> (r: String)
    ensures
        r@ == signed_spec(i as int),
{
    if i < 0 {
        let m: u64 = (-(i as i128)) as u64;
        let digits = decimal(m);
        proof {
            reveal_strlit("-");
        }
        let mut s = String::from_str("-");
        s.append(digits.as_str());
        s
    } else {
        decimal(i as u64)
    }
}

/// The quoted text of the zero-terminated string at `data`.
fn narrow_text(heap: &[u8], data: u64) -> (r: String)
    requires
        cstr_len(heap@, data as int) is Some,
    ensures
        r@ == narrow_quoted(heap@, data),
{
    let n = heap.len();
    proof {
        assert(data < n);
    }
    let bytes = read_cstr(heap, data as usize);
    let text = utf8_lossy(bytes.as_slice());
    debug_quote(text.as_str())
}

/// The quoted text of the `size` 16-bit units at `data`.
fn wide_text(heap: &[u8], data: u64, size: u64) -> (r: String)
    requires
        in_range(heap@, data as int, 2 * size),
    ensures
        r@ == wide_quoted(heap@, data, size),
{
    let n = heap.len();
    proof {
        assert(data + 2 * size <= n);
    }
    let units = read_units(heap, data as usize, size as usize);
    let text = utf16_lossy(units.as_slice());
    debug_quote(text.as_str())
}

/// The text of a single value read, its strings taken from `heap`.
pub fn value_text(heap: &[u8], v: &SimpleValue) -> (r: String)
    requires
        chars_readable(heap@, *v),
    ensures
        r@ == value_text_spec(heap@, *v),
{
    let body = match v {
        SimpleValue::Float(b) => framed("Float(", &decimal(*b as u64), ")"),
        SimpleValue::Double(b) => framed("Double(", &decimal(*b), ")"),
        SimpleValue::LongDouble => String::from_str("LongDouble"),
        SimpleValue::Char(c) => framed("Char(", &decimal(*c as u64), ")"),
        SimpleValue::WChar(c) => framed("WChar(", &decimal(*c as u64), ")"),
        SimpleValue::Boolean(b) => {
            let t = if *b {
                String::from_str("true")
            } else {
                String::from_str("false")
            };
            framed("Boolean(", &t, ")")
        },
        SimpleValue::Octet(x) => framed("Octet(", &decimal(*x as u64), ")"),
        SimpleValue::Uint8(x) => framed("Uint8(", &decimal(*x as u64), ")"),
        SimpleValue::Int8(x) => framed("Int8(", &signed(*x as i64), ")"),
        SimpleValue::Uint16(x) => framed("Uint16(", &decimal(*x as u64), ")"),
        SimpleValue::Int16(x) => framed("Int16(", &signed(*x as i64), ")"),
        SimpleValue::Uint32(x) => framed("Uint32(", &decimal(*x as u64), ")"),
        SimpleValue::Int32(x) => framed("Int32(", &signed(*x as i64), ")"),
        SimpleValue::Uint64(x) => framed("Uint64(", &decimal(*x), ")"),
        SimpleValue::Int64(x) => framed("Int64(", &signed(*x), ")"),
        SimpleValue::String { data } => framed("String(", &narrow_text(heap, *data), ")"),
        SimpleValue::BoundedString { data } => framed(
            "BoundedString(",
            &narrow_text(heap, *data),
            ")",
        ),
        SimpleValue::WString { data, size } => framed(
            "WString(",
            &wide_text(heap, *data, *size),
            ")",
        ),
        SimpleValue::BoundedWString { data, size } => framed(
            "BoundedWString(",
            &wide_text(heap, *data, *size),
            ")",
        ),
        SimpleValue::Message => String::from_str("Message"),
    };
    framed("Simple(", &body, ")")
}

/// The text of a field whose elements cannot be read one by one.
pub fn kind_text(k: &ValueKind, b: &BaseType) -> (r: String)
    ensures
        r@ == kind_text_spec(*k, *b),
{
    let message = match b {
        BaseType::Message(_) => true,
        _ => false,
    };
    if message {
        match k {
            ValueKind::Array { .. } => String::from_str("Array(MessageArray)"),
            ValueKind::BoundedSequence { .. } => String::from_str(
                "BoundedSequence(MessageBoundedSequence)",
            ),
            _ => String::from_str("Sequence(MessageSequence)"),
        }
    } else {
        match k {
            ValueKind::Array { .. } => String::from_str("Array(LongDoubleArray)"),
            ValueKind::BoundedSequence { .. } => String::from_str(
                "BoundedSequence(LongDoubleBoundedSequence)",
            ),
            _ => String::from_str("Sequence(LongDoubleSequence)"),
        }
    }
}

} // verus!
