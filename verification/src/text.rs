//! Strings in memory: zero-terminated byte strings, 16-bit code units, and
//! their decoding as UTF-8 and UTF-16.
use vstd::prelude::*;
use vstd::utf8::{decode_utf8, valid_utf8};

use crate::memory::{in_range, read_le, read_u16};

verus! {

/// The number of bytes from `at` on before the first zero byte, or `None`
/// where no zero byte follows `at` within `mem`.
pub open spec fn cstr_len(mem: Seq<u8>, at: int) -> Option<nat>
    decreases mem.len() - at,
{
    if at < 0 || at >= mem.len() {
        None
    } else if mem[at] == 0 {
        Some(0)
    } else {
        match cstr_len(mem, at + 1) {
            Some(n) => Some(n + 1),
            None => None,
        }
    }
}

/// The bytes of the zero-terminated string at `at`, without the zero.
pub open spec fn cstr_at(mem: Seq<u8>, at: int) -> Seq<u8> {
    mem.subrange(at, at + cstr_len(mem, at).unwrap())
}

/// The `n` 16-bit units stored little-endian from `at` on.
pub open spec fn units_at(mem: Seq<u8>, at: int, n: int) -> Seq<u16> {
    Seq::new(n as nat, |i: int| read_le(mem, at + 2 * i, 2) as u16)
}

/// True for the first unit of a UTF-16 surrogate pair.
pub open spec fn is_high_surrogate(u: u16) -> bool {
    0xD800 <= u <= 0xDBFF
}

/// True for the second unit of a UTF-16 surrogate pair.
pub open spec fn is_low_surrogate(u: u16) -> bool {
    0xDC00 <= u <= 0xDFFF
}

/// The characters that UTF-16 units encode, or `None` where they hold an
/// unpaired surrogate.
pub open spec fn decode_utf16(units: Seq<u16>) -> Option<Seq<char>>
    decreases units.len(),
{
    if units.len() == 0 {
        Some(seq![])
    } else if !is_high_surrogate(units[0]) && !is_low_surrogate(units[0]) {
        match decode_utf16(units.drop_first()) {
            Some(rest) => Some(seq![units[0] as char] + rest),
            None => None,
        }
    } else if is_high_surrogate(units[0]) && units.len() >= 2 && is_low_surrogate(units[1]) {
        let c = 0x10000 + (units[0] - 0xD800) * 0x400 + (units[1] - 0xDC00);
        match decode_utf16(units.subrange(2, units.len() as int)) {
            Some(rest) => Some(seq![c as char] + rest),
            None => None,
        }
    } else {
        None
    }
}

/// Copies the zero-terminated string at `at`, without the zero.
pub fn read_cstr(mem: &[u8], at: usize) -> (r: Vec<u8>)
    requires
        cstr_len(mem@, at as int) is Some,
    ensures
        r@ == cstr_at(mem@, at as int),
{
    let n = mem.len();
    let mut out: Vec<u8> = Vec::new();
    let mut k: usize = at;
    while mem[k] != 0
        invariant
            at <= k < n,
            n == mem@.len(),
            cstr_len(mem@, k as int) is Some,
            cstr_len(mem@, at as int) == Some((cstr_len(mem@, k as int).unwrap() + (k - at)) as nat),
            out@ == mem@.subrange(at as int, k as int),
        decreases n - k,
    {
        out.push(mem[k]);
        proof {
            assert(mem@.subrange(at as int, k + 1) =~= mem@.subrange(at as int, k as int).push(
                mem@[k as int],
            ));
        }
        k = k + 1;
    }
    out
}

/// Whether a zero byte follows `at` within `mem`.
pub fn cstr_terminated(mem: &[u8], at: u64) -> (r: bool)
    ensures
        r == (cstr_len(mem@, at as int) is Some),
{
    let n = mem.len();
    if at as u128 >= n as u128 {
        return false;
    }
    let mut k: usize = at as usize;
    while k < n
        invariant
            at <= k <= n,
            n == mem@.len(),
            (cstr_len(mem@, at as int) is Some) == (cstr_len(mem@, k as int) is Some),
        decreases n - k,
    {
        if mem[k] == 0 {
            return true;
        }
        k = k + 1;
    }
    false
}

/// Copies the `count` 16-bit units stored little-endian from `at` on.
pub fn read_units(mem: &[u8], at: usize, count: usize) -> (r: Vec<u16>)
    requires
        in_range(mem@, at as int, 2 * count),
    ensures
        r@ == units_at(mem@, at as int, count as int),
{
    let n = mem.len();
    let mut out: Vec<u16> = Vec::new();
    let mut i: usize = 0;
    while i < count
        invariant
            0 <= i <= count,
            n == mem@.len(),
            in_range(mem@, at as int, 2 * count),
            out@ =~= units_at(mem@, at as int, i as int),
        decreases count - i,
    {
        let u = read_u16(mem, at + 2 * i);
        out.push(u);
        i = i + 1;
        proof {
            assert(out@ =~= units_at(mem@, at as int, i as int));
        }
    }
    out
}

/// The text that UTF-8 bytes encode (`std::str::from_utf8`, copied into a
/// `String`): present exactly when the bytes are valid UTF-8, and then the
/// characters they decode to.
#[verifier::external_body]
pub fn utf8_to_string(bytes: &[u8]) -> (r: Option<String>)
    ensures
        r is Some <==> valid_utf8(bytes@),
        r matches Some(s) ==> s@ == decode_utf8(bytes@),
{
    std::str::from_utf8(bytes).ok().map(|s| s.to_owned())
}

/// The text that UTF-16 units encode (`String::from_utf16`): present
/// exactly when no surrogate is unpaired, and then the characters the units
/// decode to.
#[verifier::external_body]
pub fn utf16_to_string(units: &[u16]) -> (r: Option<String>)
    ensures
        r is Some <==> decode_utf16(units@) is Some,
        r matches Some(s) ==> s@ == decode_utf16(units@).unwrap(),
{
    String::from_utf16(units).ok()
}

} // verus!
