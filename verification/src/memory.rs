//! Reading primitive values out of the bytes of a message: little-endian
//! integers, two's-complement signs, and zero-terminated strings.
use vstd::prelude::*;

verus! {

/// The unsigned number that bytes encode, least significant byte first.
pub open spec fn le_value(s: Seq<u8>) -> nat
    decreases s.len(),
{
    if s.len() == 0 {
        0
    } else {
        s[0] as nat + 256 * le_value(s.drop_first())
    }
}

/// The unsigned number encoded by the `n` bytes of `mem` from `at` on.
pub open spec fn read_le(mem: Seq<u8>, at: int, n: int) -> nat {
    le_value(mem.subrange(at, at + n))
}

/// True when the `n` bytes from `at` on lie within `mem`.
pub open spec fn in_range(mem: Seq<u8>, at: int, n: int) -> bool {
    0 <= at && 0 <= n && at + n <= mem.len()
}

/// The byte at `at`.
pub fn read_u8(mem: &[u8], at: usize) -> (r: u8)
    requires
        in_range(mem@, at as int, 1),
    ensures
        r == read_le(mem@, at as int, 1),
{
    proof {
        reveal_with_fuel(le_value, 2);
        let s = mem@.subrange(at as int, at + 1);
        assert(s.drop_first().len() == 0);
    }
    mem[at]
}

/// The 16-bit number stored little-endian at `at`.
pub fn read_u16(mem: &[u8], at: usize) -> (r: u16)
    requires
        in_range(mem@, at as int, 2),
    ensures
        r == read_le(mem@, at as int, 2),
{
    let b0 = mem[at] as u16;
    let b1 = mem[at + 1] as u16;
    proof {
        reveal_with_fuel(le_value, 3);
        let s = mem@.subrange(at as int, at + 2);
        assert(s.drop_first().drop_first().len() == 0);
    }
    b0 + 256 * b1
}

/// The 32-bit number stored little-endian at `at`.
pub fn read_u32(mem: &[u8], at: usize) -> (r: u32)
    requires
        in_range(mem@, at as int, 4),
    ensures
        r == read_le(mem@, at as int, 4),
{
    let b0 = mem[at] as u32;
    let b1 = mem[at + 1] as u32;
    let b2 = mem[at + 2] as u32;
    let b3 = mem[at + 3] as u32;
    proof {
        reveal_with_fuel(le_value, 5);
        let s = mem@.subrange(at as int, at + 4);
        assert(s.drop_first().drop_first().drop_first().drop_first().len() == 0);
    }
    b0 + 256 * (b1 + 256 * (b2 + 256 * b3))
}

/// The 64-bit number stored little-endian at `at`.
pub fn read_u64(mem: &[u8], at: usize) -> (r: u64)
    requires
        in_range(mem@, at as int, 8),
    ensures
        r == read_le(mem@, at as int, 8),
{
    let b0 = mem[at] as u64;
    let b1 = mem[at + 1] as u64;
    let b2 = mem[at + 2] as u64;
    let b3 = mem[at + 3] as u64;
    let b4 = mem[at + 4] as u64;
    let b5 = mem[at + 5] as u64;
    let b6 = mem[at + 6] as u64;
    let b7 = mem[at + 7] as u64;
    proof {
        reveal_with_fuel(le_value, 9);
        let s = mem@.subrange(at as int, at + 8);
        assert(s.drop_first().drop_first().drop_first().drop_first().drop_first().drop_first().drop_first().drop_first().len() == 0);
    }
    b0 + 256 * (b1 + 256 * (b2 + 256 * (b3 + 256 * (b4 + 256 * (b5 + 256 * (b6 + 256 * b7))))))
}

} // verus!
