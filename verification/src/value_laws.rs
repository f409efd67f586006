//! What the reads of a reader give, stated from the bytes of the message:
//! each number is the little-endian value of its bytes, a sequence has as
//! many elements as its header's size word says, strings decode all their
//! characters, and a self-describing read asks for the value's own type.
use vstd::prelude::*;
use vstd::utf8::{decode_utf8, valid_utf8};

use crate::error::Failure;
use crate::laws::element_calls;
use crate::memory::{in_range, read_le};
use crate::reader::{
    any_spec, array_len_spec, as_bool, as_char, as_f32_bits, as_f64_bits, as_i16, as_i32, as_i64,
    as_i8, as_text, as_u16, as_u32, as_u64, as_u8, inc_seq_spec, text_readable, value_of,
    ReaderModel, Request,
};
use crate::structure::{BaseType, ValueKind};
use crate::text::{cstr_len, decode_utf16, units_at};
use crate::value::SimpleValue;

verus! {

/// The 16-bit number whose low byte is at `at` and high byte at `at + 1`.
pub open spec fn u16_at(mem: Seq<u8>, at: int) -> int {
    mem[at] + 256 * mem[at + 1]
}

/// The 32-bit number stored little-endian at `at`.
pub open spec fn u32_at(mem: Seq<u8>, at: int) -> int {
    u16_at(mem, at) + 65536 * u16_at(mem, at + 2)
}

/// The 64-bit number stored little-endian at `at`.
pub open spec fn u64_at(mem: Seq<u8>, at: int) -> int {
    u32_at(mem, at) + 4294967296 * u32_at(mem, at + 4)
}

/// The two's-complement reading of the unsigned `v` whose sign bit is worth
/// `half`.
pub open spec fn signed(v: int, half: int) -> int {
    if v < half {
        v
    } else {
        v - 2 * half
    }
}

/// How many bytes one element of `b` takes in an array or sequence: the
/// width of a number, the header of a string; zero for types read otherwise.
pub open spec fn stride(b: BaseType) -> int {
    match b {
        BaseType::Boolean | BaseType::Octet | BaseType::Char | BaseType::Uint8
        | BaseType::Int8 => 1,
        BaseType::WChar | BaseType::Uint16 | BaseType::Int16 => 2,
        BaseType::Float | BaseType::Uint32 | BaseType::Int32 => 4,
        BaseType::Double | BaseType::Uint64 | BaseType::Int64 => 8,
        BaseType::String | BaseType::BoundedString { .. } | BaseType::WString
        | BaseType::BoundedWString { .. } => 24,
        _ => 0,
    }
}

/// How many bytes of one element of `b` a read looks at: the number, or the
/// data word (and a wide string's size word) of a string header.
pub open spec fn reach(b: BaseType) -> int {
    match b {
        BaseType::String | BaseType::BoundedString { .. } => 8,
        BaseType::WString | BaseType::BoundedWString { .. } => 16,
        _ => stride(b),
    }
}

/// True when `v` is the element of type `b` whose bytes start at `at` in
/// `mem`: a number is the little-endian value of its bytes (two's complement
/// for the signed types, the bit pattern for floating-point ones), a boolean
/// is true when its byte is not zero, and a string is the words of its
/// header.
pub open spec fn holds_value(v: SimpleValue, b: BaseType, mem: Seq<u8>, at: int) -> bool {
    match b {
        BaseType::Boolean => v == SimpleValue::Boolean(mem[at] != 0),
        BaseType::Octet => v == SimpleValue::Octet(mem[at]),
        BaseType::Char => v == SimpleValue::Char(mem[at]),
        BaseType::Uint8 => v == SimpleValue::Uint8(mem[at]),
        BaseType::Int8 => v matches SimpleValue::Int8(x) && x as int == signed(mem[at] as int, 128),
        BaseType::WChar => v matches SimpleValue::WChar(x) && x as int == u16_at(mem, at),
        BaseType::Uint16 => v matches SimpleValue::Uint16(x) && x as int == u16_at(mem, at),
        BaseType::Int16 => v matches SimpleValue::Int16(x) && x as int == signed(
            u16_at(mem, at),
            32768,
        ),
        BaseType::Float => v matches SimpleValue::Float(x) && x as int == u32_at(mem, at),
        BaseType::Uint32 => v matches SimpleValue::Uint32(x) && x as int == u32_at(mem, at),
        BaseType::Int32 => v matches SimpleValue::Int32(x) && x as int == signed(
            u32_at(mem, at),
            2147483648,
        ),
        BaseType::Double => v matches SimpleValue::Double(x) && x as int == u64_at(mem, at),
        BaseType::Uint64 => v matches SimpleValue::Uint64(x) && x as int == u64_at(mem, at),
        BaseType::Int64 => v matches SimpleValue::Int64(x) && x as int == signed(
            u64_at(mem, at),
            9223372036854775808,
        ),
        BaseType::String => v matches SimpleValue::String { data } && data as int == u64_at(
            mem,
            at,
        ),
        BaseType::BoundedString { .. } => v matches SimpleValue::BoundedString { data }
            && data as int == u64_at(mem, at),
        BaseType::WString => v matches SimpleValue::WString { data, size } && data as int
            == u64_at(mem, at) && size as int == u64_at(mem, at + 8),
        BaseType::BoundedWString { .. } => v matches SimpleValue::BoundedWString { data, size }
            && data as int == u64_at(mem, at) && size as int == u64_at(mem, at + 8),
        _ => false,
    }
}

proof fn lemma_le_zero(mem: Seq<u8>, at: int)
    requires
        0 <= at <= mem.len(),
    ensures
        read_le(mem, at, 0) == 0,
{
    assert(mem.subrange(at, at).len() == 0);
}

proof fn lemma_le_step(mem: Seq<u8>, at: int, n: int)
    requires
        in_range(mem, at, n),
        n >= 1,
    ensures
        read_le(mem, at, n) == mem[at] + 256 * read_le(mem, at + 1, n - 1),
{
    let s = mem.subrange(at, at + n);
    assert(s.drop_first() =~= mem.subrange(at + 1, at + n));
    assert(s[0] == mem[at]);
}

proof fn lemma_le_1(mem: Seq<u8>, at: int)
    requires
        in_range(mem, at, 1),
    ensures
        read_le(mem, at, 1) == mem[at],
{
    lemma_le_step(mem, at, 1);
    lemma_le_zero(mem, at + 1);
}

proof fn lemma_le_2(mem: Seq<u8>, at: int)
    requires
        in_range(mem, at, 2),
    ensures
        read_le(mem, at, 2) == u16_at(mem, at),
        0 <= u16_at(mem, at) < 0x1_0000,
{
    lemma_le_step(mem, at, 2);
    lemma_le_1(mem, at + 1);
}

proof fn lemma_le_4(mem: Seq<u8>, at: int)
    requires
        in_range(mem, at, 4),
    ensures
        read_le(mem, at, 4) == u32_at(mem, at),
        0 <= u32_at(mem, at) < 0x1_0000_0000,
{
    lemma_le_step(mem, at, 4);
    lemma_le_step(mem, at + 1, 3);
    lemma_le_2(mem, at + 2);
    lemma_le_2(mem, at);
}

proof fn lemma_le_8(mem: Seq<u8>, at: int)
    requires
        in_range(mem, at, 8),
    ensures
        read_le(mem, at, 8) == u64_at(mem, at),
        0 <= u64_at(mem, at) < 0x1_0000_0000_0000_0000,
{
    lemma_le_step(mem, at, 8);
    lemma_le_step(mem, at + 1, 7);
    lemma_le_step(mem, at + 2, 6);
    lemma_le_step(mem, at + 3, 5);
    lemma_le_4(mem, at + 4);
    lemma_le_4(mem, at);
}

/// Decoding an element gives the value its bytes hold.
proof fn lemma_decode_holds(b: BaseType, mem: Seq<u8>, at: int)
    requires
        stride(b) > 0,
        in_range(mem, at, reach(b)),
    ensures
        holds_value(crate::value::decode(b, mem, at), b, mem, at),
{
    if reach(b) >= 1 {
        lemma_le_1(mem, at);
    }
    if reach(b) >= 2 {
        lemma_le_2(mem, at);
    }
    if reach(b) >= 4 {
        lemma_le_4(mem, at);
    }
    if reach(b) >= 8 {
        lemma_le_8(mem, at);
    }
    if reach(b) >= 16 {
        lemma_le_8(mem, at + 8);
    }
}

/// A read stays a read of the element the position designates: for a
/// simple field the bytes at the field, for element i of an array the
/// bytes `i` strides into the field, and for element i of a sequence the
/// bytes `i` strides past the header's data word, in the memory it points
/// into, as long as i is below the header's size word; a bounded sequence
/// read past its size is an error. Each value is what its bytes hold
/// (`holds_value`).
pub proof fn law_values_from_bytes(m: ReaderModel)
    requires
        m.pos.len() > 0,
        stride(m.current.base_type) > 0,
    ensures
        ({
            let b = m.current.base_type;
            let fs = m.offset + m.current.offset;
            let i = m.pos.last().0 as int;
            let data = u64_at(m.storage, fs);
            let size = u64_at(m.storage, fs + 8);
            let not_bounded_text = !(b is BoundedString || b is BoundedWString);
            &&& m.current.value_kind == ValueKind::Simple && in_range(m.storage, fs, reach(b))
                ==> (value_of(m) matches Ok(v) && holds_value(v, b, m.storage, fs))
            &&& m.current.value_kind is Array && in_range(m.storage, fs + i * stride(b), reach(b))
                ==> (value_of(m) matches Ok(v) && holds_value(v, b, m.storage, fs + i * stride(b)))
            &&& (m.current.value_kind is Sequence || m.current.value_kind is BoundedSequence)
                && not_bounded_text && in_range(m.storage, fs, 16) && i < size && in_range(
                m.heap,
                data + i * stride(b),
                reach(b),
            ) ==> (value_of(m) matches Ok(v) && holds_value(v, b, m.heap, data + i * stride(b)))
            &&& m.current.value_kind is BoundedSequence && not_bounded_text && in_range(
                m.storage,
                fs,
                16,
            ) && i >= size ==> value_of(m) == Err::<SimpleValue, Failure>(
                Failure::InvalidEncapsulation,
            )
        }),
{
    let b = m.current.base_type;
    let fs = m.offset + m.current.offset;
    let i = m.pos.last().0 as int;
    assert(crate::reader::elem_size(b) == stride(b));
    if in_range(m.storage, fs, 16) {
        lemma_le_8(m.storage, fs);
        lemma_le_8(m.storage, fs + 8);
    }
    match m.current.value_kind {
        ValueKind::Simple => {
            if in_range(m.storage, fs, reach(b)) {
                lemma_decode_holds(b, m.storage, fs);
            }
        },
        ValueKind::Array { .. } => {
            if in_range(m.storage, fs + i * stride(b), reach(b)) {
                lemma_decode_holds(b, m.storage, fs + i * stride(b));
            }
        },
        _ => {
            let data = u64_at(m.storage, fs);
            if in_range(m.heap, data + i * stride(b), reach(b)) {
                lemma_decode_holds(b, m.heap, data + i * stride(b));
            }
        },
    }
}

/// Each typed read returns the payload of a value of its own type
/// unchanged (a `u8` read also takes a char or an octet, a `char` read the
/// character with the byte's code), and passes an earlier failure on as it
/// is.
pub proof fn law_typed_reads(h: Seq<u8>, v: SimpleValue, f: Failure)
    ensures
        v matches SimpleValue::Boolean(x) ==> as_bool(h, Ok(v)) == Ok::<bool, Failure>(x),
        v matches SimpleValue::Int8(x) ==> as_i8(h, Ok(v)) == Ok::<i8, Failure>(x),
        v matches SimpleValue::Uint8(x) ==> as_u8(h, Ok(v)) == Ok::<u8, Failure>(x),
        v matches SimpleValue::Octet(x) ==> as_u8(h, Ok(v)) == Ok::<u8, Failure>(x),
        v matches SimpleValue::Char(x) ==> as_u8(h, Ok(v)) == Ok::<u8, Failure>(x) && as_char(
            h,
            Ok(v),
        ) == Ok::<char, Failure>(x as char),
        v matches SimpleValue::Int16(x) ==> as_i16(h, Ok(v)) == Ok::<i16, Failure>(x),
        v matches SimpleValue::Uint16(x) ==> as_u16(h, Ok(v)) == Ok::<u16, Failure>(x),
        v matches SimpleValue::Int32(x) ==> as_i32(h, Ok(v)) == Ok::<i32, Failure>(x),
        v matches SimpleValue::Uint32(x) ==> as_u32(h, Ok(v)) == Ok::<u32, Failure>(x),
        v matches SimpleValue::Int64(x) ==> as_i64(h, Ok(v)) == Ok::<i64, Failure>(x),
        v matches SimpleValue::Uint64(x) ==> as_u64(h, Ok(v)) == Ok::<u64, Failure>(x),
        v matches SimpleValue::Float(x) ==> as_f32_bits(h, Ok(v)) == Ok::<u32, Failure>(x),
        v matches SimpleValue::Double(x) ==> as_f64_bits(h, Ok(v)) == Ok::<u64, Failure>(x),
        as_bool(h, Err(f)) == Err::<bool, Failure>(f),
        as_i8(h, Err(f)) == Err::<i8, Failure>(f),
        as_u8(h, Err(f)) == Err::<u8, Failure>(f),
        as_i16(h, Err(f)) == Err::<i16, Failure>(f),
        as_u16(h, Err(f)) == Err::<u16, Failure>(f),
        as_i32(h, Err(f)) == Err::<i32, Failure>(f),
        as_u32(h, Err(f)) == Err::<u32, Failure>(f),
        as_i64(h, Err(f)) == Err::<i64, Failure>(f),
        as_u64(h, Err(f)) == Err::<u64, Failure>(f),
        as_f32_bits(h, Err(f)) == Err::<u32, Failure>(f),
        as_f64_bits(h, Err(f)) == Err::<u64, Failure>(f),
        as_char(h, Err(f)) == Err::<char, Failure>(f),
        as_text(h, Err(f)) == Err::<Seq<char>, Failure>(f),
{
}

/// A self-describing read of a single value (a simple field, or an element
/// inside a sequence or array) asks for the read of the value's own type:
/// a `bool` for a boolean, a `u8` for an octet or an unsigned byte, a
/// `char` for a char or a wide char, the number of the same width and sign
/// for the other numbers, a string for every kind of string, a message for
/// a nested message; a long double cannot be asked for. Outside a sequence
/// an array asks for a tuple of its length and a sequence for a sequence.
pub proof fn law_self_describing_reads(m: ReaderModel)
    ensures
        ({
            let single = m.current.value_kind == ValueKind::Simple || (m.pos.len() > 0
                && m.pos.last().2);
            let b = m.current.base_type;
            let r = any_spec(m);
            &&& single && b == BaseType::Boolean ==> r == Ok::<Request, Failure>(Request::Bool)
            &&& single && b == BaseType::Octet ==> r == Ok::<Request, Failure>(Request::U8)
            &&& single && b == BaseType::Uint8 ==> r == Ok::<Request, Failure>(Request::U8)
            &&& single && b == BaseType::Char ==> r == Ok::<Request, Failure>(Request::Char)
            &&& single && b == BaseType::WChar ==> r == Ok::<Request, Failure>(Request::Char)
            &&& single && b == BaseType::Int8 ==> r == Ok::<Request, Failure>(Request::I8)
            &&& single && b == BaseType::Int16 ==> r == Ok::<Request, Failure>(Request::I16)
            &&& single && b == BaseType::Uint16 ==> r == Ok::<Request, Failure>(Request::U16)
            &&& single && b == BaseType::Int32 ==> r == Ok::<Request, Failure>(Request::I32)
            &&& single && b == BaseType::Uint32 ==> r == Ok::<Request, Failure>(Request::U32)
            &&& single && b == BaseType::Int64 ==> r == Ok::<Request, Failure>(Request::I64)
            &&& single && b == BaseType::Uint64 ==> r == Ok::<Request, Failure>(Request::U64)
            &&& single && b == BaseType::Float ==> r == Ok::<Request, Failure>(Request::F32)
            &&& single && b == BaseType::Double ==> r == Ok::<Request, Failure>(Request::F64)
            &&& single && (b is String || b is BoundedString || b is WString
                || b is BoundedWString) ==> r == Ok::<Request, Failure>(Request::Str)
            &&& single && b is Message ==> r == Ok::<Request, Failure>(Request::Message)
            &&& single && b is LongDouble ==> r is Err
            &&& !single ==> (m.current.value_kind matches ValueKind::Array { length } && r == Ok::<
                Request,
                Failure,
            >(Request::Tuple(length))) || (!(m.current.value_kind is Array) && r == Ok::<
                Request,
                Failure,
            >(Request::Sequence))
        }),
{
}

/// The number of bytes before the first zero byte from `at` on is `n`
/// when the `n` bytes there are not zero and the next one is.
proof fn lemma_cstr_len(mem: Seq<u8>, at: int, n: int)
    requires
        0 <= at,
        0 <= n,
        at + n < mem.len(),
        forall|i: int| 0 <= i < n ==> #[trigger] mem[at + i] != 0,
        mem[at + n] == 0,
    ensures
        cstr_len(mem, at) == Some(n as nat),
    decreases n,
{
    if n > 0 {
        assert(mem[at + 0] != 0);
        assert forall|i: int| 0 <= i < n - 1 implies #[trigger] mem[(at + 1) + i] != 0 by {
            assert(mem[at + (i + 1)] != 0);
        }
        lemma_cstr_len(mem, at + 1, n - 1);
    }
}

/// A narrow string, bounded or not, reads as the UTF-8 decoding of all its
/// bytes up to the terminating zero, and fails only where those bytes are
/// not valid UTF-8.
pub proof fn law_narrow_text(heap: Seq<u8>, data: u64, n: int)
    requires
        0 <= n,
        data + n < heap.len(),
        forall|i: int| 0 <= i < n ==> #[trigger] heap[data + i] != 0,
        heap[data + n] == 0,
    ensures
        ({
            let bytes = heap.subrange(data as int, data + n);
            let text = if valid_utf8(bytes) {
                Ok::<Seq<char>, Failure>(decode_utf8(bytes))
            } else {
                Err::<Seq<char>, Failure>(Failure::InvalidUtf8Encoding)
            };
            &&& text_readable(heap, Ok(SimpleValue::String { data }))
            &&& text_readable(heap, Ok(SimpleValue::BoundedString { data }))
            &&& as_text(heap, Ok(SimpleValue::String { data })) == text
            &&& as_text(heap, Ok(SimpleValue::BoundedString { data })) == text
        }),
{
    lemma_cstr_len(heap, data as int, n);
}

/// A wide string, bounded or not, reads as the UTF-16 decoding of its
/// `size` 16-bit units, each the little-endian value of two bytes from the
/// data word on, and fails only where a surrogate is unpaired.
pub proof fn law_wide_text(heap: Seq<u8>, data: u64, size: u64)
    requires
        in_range(heap, data as int, 2 * size),
    ensures
        ({
            let units = Seq::new(size as nat, |i: int| u16_at(heap, data + 2 * i) as u16);
            let text = match decode_utf16(units) {
                Some(c) => Ok::<Seq<char>, Failure>(c),
                None => Err::<Seq<char>, Failure>(Failure::InvalidUtf8Encoding),
            };
            &&& text_readable(heap, Ok(SimpleValue::WString { data, size }))
            &&& as_text(heap, Ok(SimpleValue::WString { data, size })) == text
            &&& as_text(heap, Ok(SimpleValue::BoundedWString { data, size })) == text
        }),
{
    let units = Seq::new(size as nat, |i: int| u16_at(heap, data + 2 * i) as u16);
    assert forall|i: int| 0 <= i < size implies #[trigger] units_at(
        heap,
        data as int,
        size as int,
    )[i] == units[i] by {
        lemma_le_2(heap, data + 2 * i);
    }
    assert(units_at(heap, data as int, size as int) =~= units);
}

/// A sequence has as many elements as the size word of its header says (the
/// eight bytes after the data word), not its capacity; an array as many as
/// its length. Entering a sequence of n elements and advancing visits the
/// indices 0 to n - 1 once each, in order, and then leaves the reader as it
/// was.
pub proof fn law_sequence_length(m: ReaderModel, j: int)
    requires
        in_range(m.storage, m.offset + m.current.offset + 8, 8),
        !(m.current.base_type is WChar || m.current.base_type is LongDouble),
    ensures
        ({
            let size = u64_at(m.storage, m.offset + m.current.offset + 8);
            let seq = m.current.value_kind is Sequence || m.current.value_kind is BoundedSequence;
            &&& seq ==> array_len_spec(m) == Ok::<int, Failure>(size)
            &&& m.current.value_kind matches ValueKind::Array { length } ==> array_len_spec(m)
                == Ok::<int, Failure>(length as int)
            &&& seq && size <= usize::MAX && 1 <= j <= size + 1 ==> ({
                let (first, s) = element_calls(m, (j - 1) as nat);
                let (r, s2) = inc_seq_spec(s, first);
                &&& j <= size ==> r == Ok::<bool, Failure>(true) && s2 == m.with_pos(
                    m.pos.push(((j - 1) as usize, size as usize, true)),
                )
                &&& j == size + 1 ==> r == Ok::<bool, Failure>(false) && s2 == m
            })
        }),
{
    let size = u64_at(m.storage, m.offset + m.current.offset + 8);
    lemma_le_8(m.storage, m.offset + m.current.offset + 8);
    let seq = m.current.value_kind is Sequence || m.current.value_kind is BoundedSequence;
    if seq && size <= usize::MAX && 1 <= j <= size + 1 {
        crate::laws::law_elements_traversal(m, size, j);
    }
}

} // verus!
