//! The reader that walks a dynamic message field by field and element by
//! element, in the order in which a deserializer asks for values.
use vstd::prelude::*;

use vstd::utf8::{decode_utf8, valid_utf8};

use crate::error::{agrees, fails_with, DynamicMessageError, Failure};
use crate::memory::{in_range, read_le, read_u64};
use crate::structure::{
    field_fits, offsets_fit, BaseType, MessageFieldInfo, MessageStructure, ValueKind,
};
use crate::render::{chars_readable, kind_text, kind_text_spec, value_text, value_text_spec};
use crate::text::{
    cstr_at, cstr_len, cstr_terminated, decode_utf16, read_cstr, read_units, units_at,
    utf16_to_string, utf8_to_string,
};
use crate::value::{decode, decode_simple, read_width, SimpleValue};

verus! {

/// One level of the reader's position: the index reached, the number of
/// entries at this level, and whether the level is a sequence or array
/// (`true`) rather than the fields of a message (`false`).
pub type Entry = (usize, usize, bool);

/// A message in memory: its type, the bytes of the message itself, and the
/// memory that the headers of its sequences and strings point into.
pub struct DynamicMessageView<'a> {
    /// The type of the message.
    pub structure: &'a MessageStructure,
    /// The bytes of the message, laid out as `structure` says.
    pub storage: &'a [u8],
    /// The memory that the data words of sequence and string headers
    /// address, from address 0 on.
    pub heap: &'a [u8],
}

/// A deserializer for dynamic messages.
#[derive(Debug)]
pub struct DynReader<'de> {
    structure: &'de MessageStructure,
    storage: &'de [u8],
    heap: &'de [u8],
    // (Current index, length, is a sequence?)
    pos: Vec<Entry>,
    // Current field being read
    current: &'de MessageFieldInfo,
    // Offset of current within the storage bytes
    offset: usize,
}

/// The state of a reader as plain values.
pub struct ReaderModel {
    /// The type of the message read.
    pub structure: MessageStructure,
    /// The bytes of the message.
    pub storage: Seq<u8>,
    /// The memory its sequence and string headers point into.
    pub heap: Seq<u8>,
    /// The position, outermost level first.
    pub pos: Seq<Entry>,
    /// The field the reader points at.
    pub current: MessageFieldInfo,
    /// Where the message enclosing `current` starts in the storage.
    pub offset: int,
}

impl<'de> View for DynReader<'de> {
    type V = ReaderModel;

    closed spec fn view(&self) -> ReaderModel {
        ReaderModel {
            structure: *self.structure,
            storage: self.storage@,
            heap: self.heap@,
            pos: self.pos@,
            current: *self.current,
            offset: self.offset as int,
        }
    }
}

/// The field, the offset of its enclosing message and the "skip" flag after
/// following the entries `es` from the field `first`, as the reader does:
/// an entry steps into the message type of the current field, except that
/// the entry just under a sequence or array level is the element index and
/// leaves the field as it is.
pub open spec fn walk(first: MessageFieldInfo, es: Seq<Entry>) -> Option<(MessageFieldInfo, int, bool)>
    decreases es.len(),
{
    if es.len() == 0 {
        Some((first, 0, false))
    } else {
        match walk(first, es.drop_last()) {
            None => None,
            Some((cur, off, skip)) => {
                let idx = es.last().0;
                if cur.value_kind == ValueKind::Simple || skip {
                    match cur.base_type {
                        BaseType::Message(ms) => if idx < ms.fields@.len() {
                            Some((ms.fields@[idx as int], off + cur.offset, false))
                        } else {
                            None
                        },
                        _ => Some((cur, off, false)),
                    }
                } else {
                    Some((cur, off, true))
                }
            },
        }
    }
}

/// The field and offset that a position designates in a message type, or
/// `None` where an index leads out of the fields of a message.
pub open spec fn resolve(s: MessageStructure, pos: Seq<Entry>) -> Option<(MessageFieldInfo, int)> {
    if pos.len() == 0 || pos[0].0 >= s.fields@.len() {
        None
    } else {
        match walk(s.fields@[pos[0].0 as int], pos.skip(1)) {
            Some((f, off, _)) => Some((f, off)),
            None => None,
        }
    }
}

/// A walk that starts at a field with `budget` bytes of room stays within
/// them: its offset is at most `budget`, and the field it reaches fits in
/// what is left.
proof fn lemma_walk_fits(first: MessageFieldInfo, es: Seq<Entry>, budget: int)
    requires
        field_fits(first, budget),
    ensures
        walk(first, es) matches Some((cur, off, _)) ==> 0 <= off <= budget && field_fits(
            cur,
            budget - off,
        ),
    decreases es.len(),
{
    if es.len() > 0 {
        lemma_walk_fits(first, es.drop_last(), budget);
        if let Some((cur, off, skip)) = walk(first, es.drop_last()) {
            let idx = es.last().0;
            if cur.value_kind == ValueKind::Simple || skip {
                if let BaseType::Message(ms) = cur.base_type {
                    if idx < ms.fields@.len() {
                        assert(field_fits(ms.fields@[idx as int], budget - off - cur.offset));
                    }
                }
            }
        }
    }
}

impl ReaderModel {
    /// The same state at another position.
    pub open spec fn with_pos(self, pos: Seq<Entry>) -> ReaderModel {
        ReaderModel { pos: pos, ..self }
    }

    /// The index at the innermost level of the position.
    pub open spec fn top_index(self) -> int {
        self.pos.last().0 as int
    }

    /// Where the current field starts in the storage.
    pub open spec fn field_start(self) -> int {
        self.offset + self.current.offset
    }

    /// The data word of the header at the current field.
    pub open spec fn seq_data(self) -> int {
        read_le(self.storage, self.field_start(), 8) as int
    }

    /// The size word of the header at the current field.
    pub open spec fn seq_size(self) -> int {
        read_le(self.storage, self.field_start() + 8, 8) as int
    }

    /// True when the bytes of the current field lie within the storage.
    pub open spec fn field_readable(self) -> bool {
        in_range(self.storage, self.field_start(), span(self.current))
    }
}

/// The bytes a field takes, one where its size is unknown.
pub open spec fn span(f: MessageFieldInfo) -> int {
    match f.spec_size() {
        Some(s) => s as int,
        None => 1,
    }
}

/// The bytes one element of `b` takes, one where its size is unknown.
pub open spec fn elem_size(b: BaseType) -> int {
    match b.spec_size() {
        Some(s) => s as int,
        None => 1,
    }
}

/// Element types whose arrays and sequences the reader does not read.
pub open spec fn unsupported_element(b: BaseType) -> bool {
    b is Message || b is LongDouble
}

/// Bounded strings, whose elements the reader takes from the storage even
/// in a sequence.
pub open spec fn bounded_text(b: BaseType) -> bool {
    b is BoundedString || b is BoundedWString
}

/// Sequence element types whose length the reader reports.
pub open spec fn counted_element(b: BaseType) -> bool {
    !(b is WChar || b is LongDouble)
}

/// The error text for a length asked of a field that holds no counted
/// sequence or array.
pub const NOT_A_SEQUENCE: &'static str = "array_len called on non-seq type";

/// The error text for entering a simple field as a sequence.
pub const NOT_ENTERABLE_SEQUENCE: &'static str = "Cannot increment sequence on non-sequence type";

/// The error text for entering a field that is not a message.
pub const NOT_ENTERABLE_MESSAGE: &'static str = "Cannot push field on non-message type";

/// The error text for asking for an optional value.
pub const NO_OPTIONAL_VALUES: &'static str = "rosidl does not support Option<T>";

/// The state and outcome after pointing the current field at the position.
pub open spec fn set_current_spec(m: ReaderModel) -> (Result<(), Failure>, ReaderModel) {
    if m.pos.len() == 0 {
        (Ok(()), m)
    } else {
        match resolve(m.structure, m.pos) {
            None => (Err(Failure::InvalidEncapsulation), m),
            Some((f, off)) => (Ok(()), ReaderModel { current: f, offset: off, ..m }),
        }
    }
}

/// `set_current_spec`, reporting `b` where it succeeds.
pub open spec fn settle(m: ReaderModel, b: bool) -> (Result<bool, Failure>, ReaderModel) {
    match set_current_spec(m) {
        (Ok(_), m2) => (Ok(b), m2),
        (Err(f), m2) => (Err(f), m2),
    }
}

/// The number of elements of the current field: an array's length, or the
/// size word of a sequence's header.
pub open spec fn array_len_spec(m: ReaderModel) -> Result<int, Failure> {
    match m.current.value_kind {
        ValueKind::Array { length } => Ok(length as int),
        ValueKind::Sequence | ValueKind::BoundedSequence { .. } => if counted_element(
            m.current.base_type,
        ) {
            Ok(m.seq_size())
        } else {
            Err(Failure::Unsupported(NOT_A_SEQUENCE@))
        },
        ValueKind::Simple => Err(Failure::Unsupported(NOT_A_SEQUENCE@)),
    }
}

/// True when `array_len` reads only bytes within the model.
pub open spec fn array_len_readable(m: ReaderModel) -> bool {
    &&& m.field_readable()
    &&& (m.current.value_kind is Sequence || m.current.value_kind is BoundedSequence)
        ==> m.seq_size() <= usize::MAX
}

/// Entering (`push`) or advancing the innermost sequence level.
pub open spec fn inc_seq_spec(m: ReaderModel, push: bool) -> (Result<bool, Failure>, ReaderModel) {
    if push {
        if m.current.value_kind == ValueKind::Simple {
            (Err(Failure::Unsupported(NOT_ENTERABLE_SEQUENCE@)), m)
        } else {
            match array_len_spec(m) {
                Err(f) => (Err(f), m),
                Ok(n) => if n == 0 {
                    (Ok(false), m)
                } else {
                    (Ok(true), m.with_pos(m.pos.push((0usize, n as usize, true))))
                },
            }
        }
    } else {
        let top = m.pos.last();
        if top.0 >= top.1 {
            (Err(Failure::InvalidEncapsulation), m)
        } else if top.0 == top.1 - 1 {
            (Ok(false), m.with_pos(m.pos.drop_last()))
        } else {
            (Ok(true), m.with_pos(m.pos.drop_last().push(((top.0 + 1) as usize, top.1, top.2))))
        }
    }
}

/// Entering (`push`) the fields of a message, or advancing to its next field.
pub open spec fn inc_field_spec(m: ReaderModel, push: bool) -> (Result<bool, Failure>, ReaderModel) {
    if push {
        if m.pos.len() == 0 {
            settle(m.with_pos(seq![(0usize, m.structure.fields.len(), false)]), true)
        } else {
            match m.current.base_type {
                BaseType::Message(ms) => if ms.fields@.len() == 0 {
                    (Ok(false), m)
                } else {
                    settle(m.with_pos(m.pos.push((0usize, ms.fields.len(), false))), true)
                },
                _ => (Err(Failure::Unsupported(NOT_ENTERABLE_MESSAGE@)), m),
            }
        }
    } else {
        let p = if m.pos.last().2 {
            m.pos.drop_last()
        } else {
            m.pos
        };
        let top = p.last();
        if top.0 >= top.1 {
            (Err(Failure::InvalidEncapsulation), m.with_pos(p))
        } else if top.0 == top.1 - 1 {
            settle(m.with_pos(p.drop_last()), false)
        } else {
            settle(m.with_pos(p.drop_last().push(((top.0 + 1) as usize, top.1, top.2))), true)
        }
    }
}

/// True when reading the value at the position stays within the model: the
/// position is not empty, the current field lies in the storage, an array
/// or sequence index is below the length, and the element lies in the
/// memory it is read from.
pub open spec fn value_readable(m: ReaderModel) -> bool {
    let base = m.current.base_type;
    let idx = m.top_index();
    let at = m.field_start() + idx * elem_size(base);
    &&& m.pos.len() > 0
    &&& m.field_readable()
    &&& match m.current.value_kind {
        ValueKind::Simple => in_range(m.storage, m.field_start(), read_width(base)),
        ValueKind::Array { length } => unsupported_element(base) || (idx < length && in_range(
            m.storage,
            at,
            read_width(base),
        ) && (bounded_text(base) ==> in_range(m.storage, at, elem_size(base)))),
        ValueKind::Sequence => unsupported_element(base) || (idx < m.seq_size() && if bounded_text(
            base,
        ) {
            in_range(m.storage, at, elem_size(base))
        } else {
            in_range(m.heap, m.seq_data() + idx * elem_size(base), read_width(base))
        }),
        ValueKind::BoundedSequence { .. } => unsupported_element(base) || if bounded_text(base) {
            idx < m.seq_size() && in_range(m.storage, at, elem_size(base))
        } else {
            idx < m.seq_size() ==> in_range(
                m.heap,
                m.seq_data() + idx * elem_size(base),
                read_width(base),
            )
        },
    }
}

/// The value at the position: the field itself when it is simple, else the
/// element at the innermost index, from the storage for arrays and bounded
/// strings and from the memory a sequence header points to otherwise.
pub open spec fn value_of(m: ReaderModel) -> Result<SimpleValue, Failure> {
    let base = m.current.base_type;
    let idx = m.top_index();
    let at = m.field_start() + idx * elem_size(base);
    match m.current.value_kind {
        ValueKind::Simple => Ok(decode(base, m.storage, m.field_start())),
        ValueKind::Array { .. } => if unsupported_element(base) {
            Err(Failure::Unsupported(kind_text_spec(m.current.value_kind, base)))
        } else {
            Ok(decode(base, m.storage, at))
        },
        ValueKind::Sequence => if unsupported_element(base) {
            Err(Failure::Unsupported(kind_text_spec(m.current.value_kind, base)))
        } else if bounded_text(base) {
            Ok(decode(base, m.storage, at))
        } else {
            Ok(decode(base, m.heap, m.seq_data() + idx * elem_size(base)))
        },
        ValueKind::BoundedSequence { .. } => if unsupported_element(base) {
            Err(Failure::Unsupported(kind_text_spec(m.current.value_kind, base)))
        } else if bounded_text(base) {
            Ok(decode(base, m.storage, at))
        } else if idx < m.seq_size() {
            Ok(decode(base, m.heap, m.seq_data() + idx * elem_size(base)))
        } else {
            Err(Failure::InvalidEncapsulation)
        },
    }
}

/// The outcome of asking for a `bool`.
pub open spec fn as_bool(heap: Seq<u8>, v: Result<SimpleValue, Failure>) -> Result<bool, Failure> {
    match v {
        Ok(SimpleValue::Boolean(b)) => Ok(b),
        Ok(other) => Err(Failure::Unsupported(value_text_spec(heap, other))),
        Err(f) => Err(f),
    }
}

/// The outcome of asking for an `i8`.
pub open spec fn as_i8(heap: Seq<u8>, v: Result<SimpleValue, Failure>) -> Result<i8, Failure> {
    match v {
        Ok(SimpleValue::Int8(x)) => Ok(x),
        Ok(other) => Err(Failure::Unsupported(value_text_spec(heap, other))),
        Err(f) => Err(f),
    }
}

/// The outcome of asking for an `i16`.
pub open spec fn as_i16(heap: Seq<u8>, v: Result<SimpleValue, Failure>) -> Result<i16, Failure> {
    match v {
        Ok(SimpleValue::Int16(x)) => Ok(x),
        Ok(other) => Err(Failure::Unsupported(value_text_spec(heap, other))),
        Err(f) => Err(f),
    }
}

/// The outcome of asking for an `i32`.
pub open spec fn as_i32(heap: Seq<u8>, v: Result<SimpleValue, Failure>) -> Result<i32, Failure> {
    match v {
        Ok(SimpleValue::Int32(x)) => Ok(x),
        Ok(other) => Err(Failure::Unsupported(value_text_spec(heap, other))),
        Err(f) => Err(f),
    }
}

/// The outcome of asking for an `i64`.
pub open spec fn as_i64(heap: Seq<u8>, v: Result<SimpleValue, Failure>) -> Result<i64, Failure> {
    match v {
        Ok(SimpleValue::Int64(x)) => Ok(x),
        Ok(other) => Err(Failure::Unsupported(value_text_spec(heap, other))),
        Err(f) => Err(f),
    }
}

/// The outcome of asking for a `u8`: an unsigned byte, a char or an octet.
pub open spec fn as_u8(heap: Seq<u8>, v: Result<SimpleValue, Failure>) -> Result<u8, Failure> {
    match v {
        Ok(SimpleValue::Uint8(x)) => Ok(x),
        Ok(SimpleValue::Char(x)) => Ok(x),
        Ok(SimpleValue::Octet(x)) => Ok(x),
        Ok(other) => Err(Failure::Unsupported(value_text_spec(heap, other))),
        Err(f) => Err(f),
    }
}

/// The outcome of asking for a `u16`.
pub open spec fn as_u16(heap: Seq<u8>, v: Result<SimpleValue, Failure>) -> Result<u16, Failure> {
    match v {
        Ok(SimpleValue::Uint16(x)) => Ok(x),
        Ok(other) => Err(Failure::Unsupported(value_text_spec(heap, other))),
        Err(f) => Err(f),
    }
}

/// The outcome of asking for a `u32`.
pub open spec fn as_u32(heap: Seq<u8>, v: Result<SimpleValue, Failure>) -> Result<u32, Failure> {
    match v {
        Ok(SimpleValue::Uint32(x)) => Ok(x),
        Ok(other) => Err(Failure::Unsupported(value_text_spec(heap, other))),
        Err(f) => Err(f),
    }
}

/// The outcome of asking for a `u64`.
pub open spec fn as_u64(heap: Seq<u8>, v: Result<SimpleValue, Failure>) -> Result<u64, Failure> {
    match v {
        Ok(SimpleValue::Uint64(x)) => Ok(x),
        Ok(other) => Err(Failure::Unsupported(value_text_spec(heap, other))),
        Err(f) => Err(f),
    }
}

/// The outcome of asking for an `f32`, as its bit pattern.
pub open spec fn as_f32_bits(heap: Seq<u8>, v: Result<SimpleValue, Failure>) -> Result<u32, Failure> {
    match v {
        Ok(SimpleValue::Float(x)) => Ok(x),
        Ok(other) => Err(Failure::Unsupported(value_text_spec(heap, other))),
        Err(f) => Err(f),
    }
}

/// The outcome of asking for an `f64`, as its bit pattern.
pub open spec fn as_f64_bits(heap: Seq<u8>, v: Result<SimpleValue, Failure>) -> Result<u64, Failure> {
    match v {
        Ok(SimpleValue::Double(x)) => Ok(x),
        Ok(other) => Err(Failure::Unsupported(value_text_spec(heap, other))),
        Err(f) => Err(f),
    }
}

/// The outcome of asking for a `char`: the character whose code is the
/// byte of a char, an unsigned byte or an octet.
pub open spec fn as_char(heap: Seq<u8>, v: Result<SimpleValue, Failure>) -> Result<char, Failure> {
    match v {
        Ok(SimpleValue::Char(x)) => Ok(x as char),
        Ok(SimpleValue::Uint8(x)) => Ok(x as char),
        Ok(SimpleValue::Octet(x)) => Ok(x as char),
        Ok(other) => Err(Failure::Unsupported(value_text_spec(heap, other))),
        Err(f) => Err(f),
    }
}

/// The outcome of asking for bytes: no single value is a byte array.
pub open spec fn as_bytes(heap: Seq<u8>, v: Result<SimpleValue, Failure>) -> Result<Seq<u8>, Failure> {
    match v {
        Ok(other) => Err(Failure::Unsupported(value_text_spec(heap, other))),
        Err(f) => Err(f),
    }
}

/// True when the characters of a string value lie within `heap`: a
/// zero byte ends a narrow string, and a wide string's units are all there.
pub open spec fn text_readable(heap: Seq<u8>, v: Result<SimpleValue, Failure>) -> bool {
    match v {
        Ok(x) => chars_readable(heap, x),
        Err(_) => true,
    }
}

/// The characters of a narrow string at `data`, decoded as UTF-8.
pub open spec fn narrow_text(heap: Seq<u8>, data: u64) -> Result<Seq<char>, Failure> {
    let b = cstr_at(heap, data as int);
    if valid_utf8(b) {
        Ok(decode_utf8(b))
    } else {
        Err(Failure::InvalidUtf8Encoding)
    }
}

/// The characters of a wide string of `size` units at `data`, decoded as
/// UTF-16.
pub open spec fn wide_text(heap: Seq<u8>, data: u64, size: u64) -> Result<Seq<char>, Failure> {
    match decode_utf16(units_at(heap, data as int, size as int)) {
        Some(c) => Ok(c),
        None => Err(Failure::InvalidUtf8Encoding),
    }
}

/// The outcome of asking for a string.
pub open spec fn as_text(heap: Seq<u8>, v: Result<SimpleValue, Failure>) -> Result<Seq<char>, Failure> {
    match v {
        Ok(SimpleValue::String { data }) => narrow_text(heap, data),
        Ok(SimpleValue::BoundedString { data }) => narrow_text(heap, data),
        Ok(SimpleValue::WString { data, size }) => wide_text(heap, data, size),
        Ok(SimpleValue::BoundedWString { data, size }) => wide_text(heap, data, size),
        Ok(other) => Err(Failure::Unsupported(value_text_spec(heap, other))),
        Err(f) => Err(f),
    }
}

/// True when a string result is the outcome `s`.
pub open spec fn text_agrees(r: Result<String, DynamicMessageError>, s: Result<Seq<char>, Failure>) -> bool {
    match s {
        Ok(c) => r matches Ok(t) && t@ == c,
        Err(f) => r matches Err(e) && fails_with(e, f),
    }
}

/// Which kind of value a self-describing read of the position asks for.
#[derive(Debug, PartialEq, Eq, Structural)]
pub enum Request {
    Bool,
    U8,
    Char,
    F32,
    F64,
    I8,
    I16,
    U16,
    I32,
    U32,
    I64,
    U64,
    Str,
    Message,
    Tuple(usize),
    Sequence,
}

/// What a self-describing read asks for: inside a sequence level the
/// element type decides, elsewhere the field's kind does.
pub open spec fn any_spec(m: ReaderModel) -> Result<Request, Failure> {
    let in_seq = m.pos.len() > 0 && m.pos.last().2;
    if in_seq || m.current.value_kind == ValueKind::Simple {
        match m.current.base_type {
            BaseType::Boolean => Ok(Request::Bool),
            BaseType::Octet => Ok(Request::U8),
            BaseType::Char => Ok(Request::Char),
            BaseType::Float => Ok(Request::F32),
            BaseType::Double => Ok(Request::F64),
            BaseType::Int8 => Ok(Request::I8),
            BaseType::Uint8 => Ok(Request::U8),
            BaseType::Int16 => Ok(Request::I16),
            BaseType::Uint16 => Ok(Request::U16),
            BaseType::Int32 => Ok(Request::I32),
            BaseType::Uint32 => Ok(Request::U32),
            BaseType::Int64 => Ok(Request::I64),
            BaseType::Uint64 => Ok(Request::U64),
            BaseType::String => Ok(Request::Str),
            BaseType::BoundedString { .. } => Ok(Request::Str),
            BaseType::WChar => Ok(Request::Char),
            BaseType::WString => Ok(Request::Str),
            BaseType::BoundedWString { .. } => Ok(Request::Str),
            BaseType::Message(_) => Ok(Request::Message),
            BaseType::LongDouble => Err(Failure::Unsupported("LongDouble"@)),
        }
    } else {
        match m.current.value_kind {
            ValueKind::Array { length } => Ok(Request::Tuple(length)),
            _ => Ok(Request::Sequence),
        }
    }
}

/// A `TypeNotSupported` error with the given text.
fn not_supported(text: &str) -> (r: DynamicMessageError)
    ensures
        r matches DynamicMessageError::TypeNotSupported(t) && t@ == text@,
{
    DynamicMessageError::TypeNotSupported(String::from_str(text))
}

fn is_unsupported_element(b: &BaseType) -> (r: bool)
    ensures
        r == unsupported_element(*b),
{
    match b {
        BaseType::Message(_) | BaseType::LongDouble => true,
        _ => false,
    }
}

fn is_bounded_text(b: &BaseType) -> (r: bool)
    ensures
        r == bounded_text(*b),
{
    match b {
        BaseType::BoundedString { .. } | BaseType::BoundedWString { .. } => true,
        _ => false,
    }
}

fn is_counted_element(b: &BaseType) -> (r: bool)
    ensures
        r == counted_element(*b),
{
    match b {
        BaseType::WChar | BaseType::LongDouble => false,
        _ => true,
    }
}

fn width(b: &BaseType) -> (r: usize)
    ensures
        r == read_width(*b),
{
    match b {
        BaseType::Boolean | BaseType::Octet | BaseType::Char | BaseType::Uint8
        | BaseType::Int8 => 1,
        BaseType::WChar | BaseType::Uint16 | BaseType::Int16 => 2,
        BaseType::Float | BaseType::Uint32 | BaseType::Int32 => 4,
        BaseType::Double | BaseType::Uint64 | BaseType::Int64 => 8,
        BaseType::String | BaseType::BoundedString { .. } => 8,
        BaseType::WString | BaseType::BoundedWString { .. } => 16,
        BaseType::LongDouble | BaseType::Message(_) => 0,
    }
}

fn element_size(b: &BaseType) -> (r: usize)
    ensures
        r == elem_size(*b),
{
    match b.size() {
        Some(s) => s,
        None => 1,
    }
}

impl<'de> DynReader<'de> {
    /// Starts reading a message at its first field.
    pub fn from_dyn_msg_view(view: DynamicMessageView<'de>) -> (r: Self)
        requires
            view.structure.fields@.len() > 0,
            offsets_fit(*view.structure, usize::MAX as int),
        ensures
            r@.structure == *view.structure,
            r@.storage == view.storage@,
            r@.heap == view.heap@,
            r@.pos == Seq::<Entry>::empty(),
            r@.current == view.structure.fields@[0],
            r@.offset == 0,
    {
        Self {
            structure: view.structure,
            storage: view.storage,
            heap: view.heap,
            pos: Vec::new(),
            current: &view.structure.fields[0],
            offset: 0,
        }
    }

    /// Points `current` and `offset` at the field that the position
    /// designates.
    pub fn set_current(&mut self) -> (r: Result<(), DynamicMessageError>)
        requires
            offsets_fit(old(self)@.structure, usize::MAX as int),
        ensures
            final(self)@ == set_current_spec(old(self)@).1,
            agrees(r, set_current_spec(old(self)@).0),
    {
        if self.pos.len() == 0 {
            return Ok(());
        }
        let structure: &'de MessageStructure = self.structure;
        let first = self.pos[0].0;
        if first >= structure.fields.len() {
            return Err(DynamicMessageError::InvalidEncapsulation);
        }
        let mut current: &'de MessageFieldInfo = &structure.fields[first];
        let mut offset: usize = 0;
        let mut skip_seq = false;
        let ghost first_field = *current;
        let ghost es = self.pos@.skip(1);
        proof {
            assert(field_fits(first_field, usize::MAX as int));
        }
        let n = self.pos.len();
        let mut i: usize = 1;
        while i < n
            invariant
                1 <= i <= n,
                n == self.pos@.len(),
                es == self.pos@.skip(1),
                offsets_fit(*self.structure, usize::MAX as int),
                field_fits(first_field, usize::MAX as int),
                (self.pos@[0].0 as int) < self.structure.fields@.len(),
                first_field == self.structure.fields@[self.pos@[0].0 as int],
                walk(first_field, es.take(i - 1)) == Some((*current, offset as int, skip_seq)),
            decreases n - i,
        {
            let idx = self.pos[i].0;
            proof {
                assert(es.take(i as int).drop_last() =~= es.take(i - 1));
                assert(es.take(i as int).last() == self.pos@[i as int]);
                lemma_walk_fits(first_field, es.take(i - 1), usize::MAX as int);
            }
            if current.value_kind == ValueKind::Simple || skip_seq {
                if let BaseType::Message(msg_struct) = &current.base_type {
                    offset = offset + current.offset;
                    if idx >= msg_struct.fields.len() {
                        proof {
                            assert(walk(first_field, es.take(i as int)) is None);
                            lemma_walk_none_extends(first_field, es, i as int);
                        }
                        return Err(DynamicMessageError::InvalidEncapsulation);
                    }
                    current = &msg_struct.fields[idx];
                }
                skip_seq = false;
            } else {
                // We are in a sequence, so skip the current idx and treat the next as a field index
                skip_seq = true;
            }
            i = i + 1;
        }
        proof {
            assert(es.take(n - 1) =~= es);
        }
        self.current = current;
        self.offset = offset;
        Ok(())
    }

    /// The number of elements of the current field.
    fn array_len(&self) -> (r: Result<usize, DynamicMessageError>)
        requires
            array_len_readable(self@),
        ensures
            match array_len_spec(self@) {
                Ok(n) => r == Ok::<usize, DynamicMessageError>(n as usize),
                Err(f) => r matches Err(e) && fails_with(e, f),
            },
    {
        let storage_len = self.storage.len();
        let offset = self.offset + self.current.offset;
        let len = match self.current.value_kind {
            ValueKind::Array { length } => length,
            ValueKind::Sequence | ValueKind::BoundedSequence { .. } => {
                if !is_counted_element(&self.current.base_type) {
                    return Err(not_supported(NOT_A_SEQUENCE));
                }
                read_u64(self.storage, offset + 8) as usize
            },
            ValueKind::Simple => {
                return Err(not_supported(NOT_A_SEQUENCE));
            },
        };
        Ok(len)
    }

    /// Enters the current sequence or array (`push`), or moves to the next
    /// element of the innermost one; reports whether there is an element.
    pub fn inc_seq(&mut self, push: bool) -> (r: Result<bool, DynamicMessageError>)
        requires
            push && old(self)@.current.value_kind != ValueKind::Simple ==> array_len_readable(
                old(self)@,
            ),
            !push ==> old(self)@.pos.len() > 0,
        ensures
            final(self)@ == inc_seq_spec(old(self)@, push).1,
            agrees(r, inc_seq_spec(old(self)@, push).0),
    {
        if push {
            if self.current.value_kind == ValueKind::Simple {
                return Err(not_supported(NOT_ENTERABLE_SEQUENCE));
            }
            let len = match self.array_len() {
                Ok(len) => len,
                Err(e) => return Err(e),
            };
            if len == 0 {
                return Ok(false);
            }
            self.pos.push((0, len, true));
            return Ok(true);
        }
        let last = self.pos.len() - 1;
        let pos_len = self.pos[last];
        // Sanity check to make sure we are not out of bounds
        if pos_len.0 >= pos_len.1 {
            return Err(DynamicMessageError::InvalidEncapsulation);
        }
        // If we have reached the end of the sequence, pop and return false
        if pos_len.0 == pos_len.1 - 1 {
            self.pos.pop();
            return Ok(false);
        }
        // Otherwise, increment the position and return true
        self.pos.set(last, (pos_len.0 + 1, pos_len.1, pos_len.2));
        proof {
            assert(self@.pos =~= old(self)@.pos.drop_last().push(
                ((pos_len.0 + 1) as usize, pos_len.1, pos_len.2),
            ));
        }
        Ok(true)
    }

    /// Enters the fields of the message (`push`), or moves to the next field
    /// of the innermost message; reports whether there is a field.
    pub fn inc_field(&mut self, push: bool) -> (r: Result<bool, DynamicMessageError>)
        requires
            offsets_fit(old(self)@.structure, usize::MAX as int),
            !push ==> old(self)@.pos.len() > 0,
            !push && old(self)@.pos.last().2 ==> old(self)@.pos.len() > 1,
        ensures
            final(self)@ == inc_field_spec(old(self)@, push).1,
            agrees(r, inc_field_spec(old(self)@, push).0),
    {
        if push {
            // Top-level (just started deserialization)
            if self.pos.len() == 0 {
                self.pos.push((0, self.structure.fields.len(), false));
                proof {
                    assert(self@.pos =~= seq![(0usize, old(self)@.structure.fields@.len() as usize, false)]);
                }
                return match self.set_current() {
                    Ok(()) => Ok(true),
                    Err(e) => Err(e),
                };
            }
            // We SHOULD have an inner message type to start parsing
            let len = match &self.current.base_type {
                BaseType::Message(msg) => msg.fields.len(),
                _ => {
                    return Err(not_supported(NOT_ENTERABLE_MESSAGE));
                },
            };
            // Not sure if a zero-field message is possible, but just in case
            if len == 0 {
                return Ok(false);
            }
            self.pos.push((0, len, false));
            return match self.set_current() {
                Ok(()) => Ok(true),
                Err(e) => Err(e),
            };
        }
        let mut last = self.pos.len() - 1;
        let mut pos_len = self.pos[last];
        // The last pos may still be in a sequence, so we need to pop back
        if pos_len.2 {
            self.pos.pop();
            last = self.pos.len() - 1;
            pos_len = self.pos[last];
        }
        // Sanity check to make sure we are not out of bounds
        if pos_len.0 >= pos_len.1 {
            return Err(DynamicMessageError::InvalidEncapsulation);
        }
        // If we have reached the end of the fields, pop and return false
        if pos_len.0 == pos_len.1 - 1 {
            self.pos.pop();
            return match self.set_current() {
                Ok(()) => Ok(false),
                Err(e) => Err(e),
            };
        }
        // Otherwise, increment the position and return true
        let ghost popped = self@.pos;
        self.pos.set(last, (pos_len.0 + 1, pos_len.1, pos_len.2));
        proof {
            assert(self@.pos =~= popped.drop_last().push(
                ((pos_len.0 + 1) as usize, pos_len.1, pos_len.2),
            ));
        }
        match self.set_current() {
            Ok(()) => Ok(true),
            Err(e) => Err(e),
        }
    }

    /// Reads a `bool` at the position.
    pub fn deserialize_bool(&self) -> (r: Result<bool, DynamicMessageError>)
        requires
            value_readable(self@),
            text_readable(self@.heap, value_of(self@)),
        ensures
            agrees(r, as_bool(self@.heap, value_of(self@))),
    {
        match self.get_value()? {
            SimpleValue::Boolean(b) => Ok(b),
            v => Err(DynamicMessageError::TypeNotSupported(value_text(self.heap, &v))),
        }
    }

    /// Reads bytes at the position; no single value is a byte array.
    pub fn deserialize_bytes(&self) -> (r: Result<Vec<u8>, DynamicMessageError>)
        requires
            value_readable(self@),
            text_readable(self@.heap, value_of(self@)),
        ensures
            match as_bytes(self@.heap, value_of(self@)) {
                Ok(b) => r matches Ok(v) && v@ == b,
                Err(f) => r matches Err(e) && fails_with(e, f),
            },
    {
        let v = self.get_value()?;
        Err(DynamicMessageError::TypeNotSupported(value_text(self.heap, &v)))
    }

    /// Reads an owned byte buffer at the position; as `deserialize_bytes`.
    pub fn deserialize_byte_buf(&self) -> (r: Result<Vec<u8>, DynamicMessageError>)
        requires
            value_readable(self@),
            text_readable(self@.heap, value_of(self@)),
        ensures
            match as_bytes(self@.heap, value_of(self@)) {
                Ok(b) => r matches Ok(v) && v@ == b,
                Err(f) => r matches Err(e) && fails_with(e, f),
            },
    {
        self.deserialize_bytes()
    }

    /// Reads an `i8` at the position.
    pub fn deserialize_i8(&self) -> (r: Result<i8, DynamicMessageError>)
        requires
            value_readable(self@),
            text_readable(self@.heap, value_of(self@)),
        ensures
            agrees(r, as_i8(self@.heap, value_of(self@))),
    {
        match self.get_value()? {
            SimpleValue::Int8(i) => Ok(i),
            v => Err(DynamicMessageError::TypeNotSupported(value_text(self.heap, &v))),
        }
    }

    /// Reads an `i16` at the position.
    pub fn deserialize_i16(&self) -> (r: Result<i16, DynamicMessageError>)
        requires
            value_readable(self@),
            text_readable(self@.heap, value_of(self@)),
        ensures
            agrees(r, as_i16(self@.heap, value_of(self@))),
    {
        match self.get_value()? {
            SimpleValue::Int16(i) => Ok(i),
            v => Err(DynamicMessageError::TypeNotSupported(value_text(self.heap, &v))),
        }
    }

    /// Reads an `i32` at the position.
    pub fn deserialize_i32(&self) -> (r: Result<i32, DynamicMessageError>)
        requires
            value_readable(self@),
            text_readable(self@.heap, value_of(self@)),
        ensures
            agrees(r, as_i32(self@.heap, value_of(self@))),
    {
        match self.get_value()? {
            SimpleValue::Int32(i) => Ok(i),
            v => Err(DynamicMessageError::TypeNotSupported(value_text(self.heap, &v))),
        }
    }

    /// Reads an `i64` at the position.
    pub fn deserialize_i64(&self) -> (r: Result<i64, DynamicMessageError>)
        requires
            value_readable(self@),
            text_readable(self@.heap, value_of(self@)),
        ensures
            agrees(r, as_i64(self@.heap, value_of(self@))),
    {
        match self.get_value()? {
            SimpleValue::Int64(i) => Ok(i),
            v => Err(DynamicMessageError::TypeNotSupported(value_text(self.heap, &v))),
        }
    }

    /// Reads a `u8` at the position: an unsigned byte, a char or an octet.
    pub fn deserialize_u8(&self) -> (r: Result<u8, DynamicMessageError>)
        requires
            value_readable(self@),
            text_readable(self@.heap, value_of(self@)),
        ensures
            agrees(r, as_u8(self@.heap, value_of(self@))),
    {
        match self.get_value()? {
            SimpleValue::Uint8(u) => Ok(u),
            SimpleValue::Char(c) => Ok(c),
            SimpleValue::Octet(o) => Ok(o),
            v => Err(DynamicMessageError::TypeNotSupported(value_text(self.heap, &v))),
        }
    }

    /// Reads a `u16` at the position.
    pub fn deserialize_u16(&self) -> (r: Result<u16, DynamicMessageError>)
        requires
            value_readable(self@),
            text_readable(self@.heap, value_of(self@)),
        ensures
            agrees(r, as_u16(self@.heap, value_of(self@))),
    {
        match self.get_value()? {
            SimpleValue::Uint16(u) => Ok(u),
            v => Err(DynamicMessageError::TypeNotSupported(value_text(self.heap, &v))),
        }
    }

    /// Reads a `u32` at the position.
    pub fn deserialize_u32(&self) -> (r: Result<u32, DynamicMessageError>)
        requires
            value_readable(self@),
            text_readable(self@.heap, value_of(self@)),
        ensures
            agrees(r, as_u32(self@.heap, value_of(self@))),
    {
        match self.get_value()? {
            SimpleValue::Uint32(u) => Ok(u),
            v => Err(DynamicMessageError::TypeNotSupported(value_text(self.heap, &v))),
        }
    }

    /// Reads a `u64` at the position.
    pub fn deserialize_u64(&self) -> (r: Result<u64, DynamicMessageError>)
        requires
            value_readable(self@),
            text_readable(self@.heap, value_of(self@)),
        ensures
            agrees(r, as_u64(self@.heap, value_of(self@))),
    {
        match self.get_value()? {
            SimpleValue::Uint64(u) => Ok(u),
            v => Err(DynamicMessageError::TypeNotSupported(value_text(self.heap, &v))),
        }
    }

    /// Reads the bit pattern of an `f32` at the position.
    pub fn deserialize_f32(&self) -> (r: Result<u32, DynamicMessageError>)
        requires
            value_readable(self@),
            text_readable(self@.heap, value_of(self@)),
        ensures
            agrees(r, as_f32_bits(self@.heap, value_of(self@))),
    {
        match self.get_value()? {
            SimpleValue::Float(f) => Ok(f),
            v => Err(DynamicMessageError::TypeNotSupported(value_text(self.heap, &v))),
        }
    }

    /// Reads the bit pattern of an `f64` at the position.
    pub fn deserialize_f64(&self) -> (r: Result<u64, DynamicMessageError>)
        requires
            value_readable(self@),
            text_readable(self@.heap, value_of(self@)),
        ensures
            agrees(r, as_f64_bits(self@.heap, value_of(self@))),
    {
        match self.get_value()? {
            SimpleValue::Double(f) => Ok(f),
            v => Err(DynamicMessageError::TypeNotSupported(value_text(self.heap, &v))),
        }
    }

    /// Reads a `char` at the position: the character whose code is a byte.
    pub fn deserialize_char(&self) -> (r: Result<char, DynamicMessageError>)
        requires
            value_readable(self@),
            text_readable(self@.heap, value_of(self@)),
        ensures
            agrees(r, as_char(self@.heap, value_of(self@))),
    {
        match self.get_value()? {
            SimpleValue::Char(c) => Ok(c as char),
            SimpleValue::Uint8(u) => Ok(u as char),
            SimpleValue::Octet(o) => Ok(o as char),
            v => Err(DynamicMessageError::TypeNotSupported(value_text(self.heap, &v))),
        }
    }

    /// Reads a string at the position: a narrow string up to its first zero
    /// byte, decoded as UTF-8, or a wide string, decoded as UTF-16.
    pub fn deserialize_str(&self) -> (r: Result<String, DynamicMessageError>)
        requires
            value_readable(self@),
            text_readable(self@.heap, value_of(self@)),
        ensures
            text_agrees(r, as_text(self@.heap, value_of(self@))),
    {
        let heap_len = self.heap.len();
        match self.get_value()? {
            SimpleValue::String { data } | SimpleValue::BoundedString { data } => {
                let bytes = read_cstr(self.heap, data as usize);
                match utf8_to_string(bytes.as_slice()) {
                    Some(s) => Ok(s),
                    None => Err(DynamicMessageError::InvalidUtf8Encoding),
                }
            },
            SimpleValue::WString { data, size } | SimpleValue::BoundedWString { data, size } => {
                let units = read_units(self.heap, data as usize, size as usize);
                match utf16_to_string(units.as_slice()) {
                    Some(s) => Ok(s),
                    None => Err(DynamicMessageError::InvalidUtf8Encoding),
                }
            },
            v => Err(DynamicMessageError::TypeNotSupported(value_text(self.heap, &v))),
        }
    }

    /// Reads an owned string at the position; as `deserialize_str`.
    pub fn deserialize_string(&self) -> (r: Result<String, DynamicMessageError>)
        requires
            value_readable(self@),
            text_readable(self@.heap, value_of(self@)),
        ensures
            text_agrees(r, as_text(self@.heap, value_of(self@))),
    {
        self.deserialize_str()
    }

    /// Asks for an optional value: messages hold no optional values.
    pub fn deserialize_option(&self) -> (r: Result<(), DynamicMessageError>)
        ensures
            r matches Err(e) && fails_with(e, Failure::Unsupported(NO_OPTIONAL_VALUES@)),
    {
        Err(not_supported(NO_OPTIONAL_VALUES))
    }

    /// The name of the current field, which identifies a message's key.
    pub fn deserialize_identifier(&self) -> (r: String)
        ensures
            r@ == self@.current.name@,
    {
        self.current.name.clone()
    }

    /// Which kind of value a self-describing read of the position asks for.
    pub fn deserialize_any(&self) -> (r: Result<Request, DynamicMessageError>)
        ensures
            agrees(r, any_spec(self@)),
    {
        let in_seq = self.pos.len() > 0 && self.pos[self.pos.len() - 1].2;
        if in_seq || self.current.value_kind == ValueKind::Simple {
            match &self.current.base_type {
                BaseType::Boolean => Ok(Request::Bool),
                BaseType::Octet => Ok(Request::U8),
                BaseType::Char => Ok(Request::Char),
                BaseType::Float => Ok(Request::F32),
                BaseType::Double => Ok(Request::F64),
                BaseType::Int8 => Ok(Request::I8),
                BaseType::Uint8 => Ok(Request::U8),
                BaseType::Int16 => Ok(Request::I16),
                BaseType::Uint16 => Ok(Request::U16),
                BaseType::Int32 => Ok(Request::I32),
                BaseType::Uint32 => Ok(Request::U32),
                BaseType::Int64 => Ok(Request::I64),
                BaseType::Uint64 => Ok(Request::U64),
                BaseType::String => Ok(Request::Str),
                BaseType::BoundedString { .. } => Ok(Request::Str),
                BaseType::WChar => Ok(Request::Char),
                BaseType::WString => Ok(Request::Str),
                BaseType::BoundedWString { .. } => Ok(Request::Str),
                BaseType::Message(_) => Ok(Request::Message),
                BaseType::LongDouble => Err(not_supported("LongDouble")),
            }
        } else {
            match self.current.value_kind {
                ValueKind::Array { length } => Ok(Request::Tuple(length)),
                _ => Ok(Request::Sequence),
            }
        }
    }

    /// Whether reading the value at the position stays within the model.
    pub fn can_read_value(&self) -> (b: bool)
        ensures
            b == value_readable(self@),
    {
        if self.pos.len() == 0 {
            return false;
        }
        let storage_len = self.storage.len() as u128;
        let heap_len = self.heap.len() as u128;
        let start = self.offset as u128 + self.current.offset as u128;
        let span: u128 = match self.current.size() {
            Some(s) => s as u128,
            None => 1,
        };
        if start + span > storage_len {
            return false;
        }
        let idx = self.pos[self.pos.len() - 1].0 as u128;
        let base = &self.current.base_type;
        let es = element_size(base) as u128;
        let w = width(base) as u128;
        proof {
            assert(idx * es <= 0xFFFF_FFFF_FFFF_FFFF * 0xFFFF_FFFF_FFFF_FFFFu128) by (nonlinear_arith)
                requires
                    idx <= 0xFFFF_FFFF_FFFF_FFFF,
                    es <= 0xFFFF_FFFF_FFFF_FFFF,
            ;
        }
        let at = start + idx * es;
        match self.current.value_kind {
            ValueKind::Simple => start + w <= storage_len,
            ValueKind::Array { length } => is_unsupported_element(base) || (idx < length as u128
                && at + w <= storage_len && (!is_bounded_text(base) || at + es <= storage_len)),
            ValueKind::Sequence => {
                if is_unsupported_element(base) {
                    return true;
                }
                let data = read_u64(self.storage, start as usize) as u128;
                let size = read_u64(self.storage, start as usize + 8) as u128;
                idx < size && if is_bounded_text(base) {
                    at + es <= storage_len
                } else {
                    data + idx * es + w <= heap_len
                }
            },
            ValueKind::BoundedSequence { .. } => {
                if is_unsupported_element(base) {
                    return true;
                }
                let data = read_u64(self.storage, start as usize) as u128;
                let size = read_u64(self.storage, start as usize + 8) as u128;
                if is_bounded_text(base) {
                    idx < size && at + es <= storage_len
                } else {
                    idx >= size || data + idx * es + w <= heap_len
                }
            },
        }
    }

    /// Whether the characters of the string at the position lie within the
    /// model.
    pub fn can_read_text(&self) -> (b: bool)
        requires
            value_readable(self@),
        ensures
            b == text_readable(self@.heap, value_of(self@)),
    {
        let heap_len = self.heap.len();
        match self.get_value() {
            Ok(SimpleValue::String { data }) | Ok(SimpleValue::BoundedString { data }) => {
                cstr_terminated(self.heap, data)
            },
            Ok(SimpleValue::WString { data, size }) | Ok(SimpleValue::BoundedWString { data, size }) => {
                data as u128 + 2 * (size as u128) <= heap_len as u128
            },
            _ => true,
        }
    }

    /// Whether `inc_seq(push)` stays within the model.
    pub fn can_inc_seq(&self, push: bool) -> (b: bool)
        ensures
            b == ((push && self@.current.value_kind != ValueKind::Simple ==> array_len_readable(
                self@,
            )) && (!push ==> self@.pos.len() > 0)),
    {
        if !push {
            return self.pos.len() > 0;
        }
        if self.current.value_kind == ValueKind::Simple {
            return true;
        }
        let storage_len = self.storage.len() as u128;
        let start = self.offset as u128 + self.current.offset as u128;
        let span: u128 = match self.current.size() {
            Some(s) => s as u128,
            None => 1,
        };
        if start + span > storage_len {
            return false;
        }
        match self.current.value_kind {
            ValueKind::Sequence | ValueKind::BoundedSequence { .. } => {
                read_u64(self.storage, start as usize + 8) as u128 <= usize::MAX as u128
            },
            _ => true,
        }
    }

    /// Whether `inc_field(push)` stays within the model.
    pub fn can_inc_field(&self, push: bool) -> (b: bool)
        ensures
            b == ((!push ==> self@.pos.len() > 0) && (!push && self@.pos.len() > 0
                && self@.pos.last().2 ==> self@.pos.len() > 1)),
    {
        push || (self.pos.len() > 0 && (!self.pos[self.pos.len() - 1].2 || self.pos.len() > 1))
    }

    /// The value at the reader's position.
    fn get_value(&self) -> (r: Result<SimpleValue, DynamicMessageError>)
        requires
            value_readable(self@),
        ensures
            agrees(r, value_of(self@)),
    {
        let storage_len = self.storage.len();
        let heap_len = self.heap.len();
        let offset = self.offset + self.current.offset;
        let idx = self.pos[self.pos.len() - 1].0;
        let base = &self.current.base_type;
        match self.current.value_kind {
            ValueKind::Simple => Ok(decode_simple(base, self.storage, offset)),
            ValueKind::Array { .. } => {
                if is_unsupported_element(base) {
                    return Err(DynamicMessageError::TypeNotSupported(
                        kind_text(&self.current.value_kind, base),
                    ));
                }
                let size = element_size(base);
                Ok(decode_simple(base, self.storage, idx * size + offset))
            },
            ValueKind::Sequence | ValueKind::BoundedSequence { .. } => {
                if is_unsupported_element(base) {
                    return Err(DynamicMessageError::TypeNotSupported(
                        kind_text(&self.current.value_kind, base),
                    ));
                }
                let size = element_size(base);
                if is_bounded_text(base) {
                    return Ok(decode_simple(base, self.storage, idx * size + offset));
                }
                let data = read_u64(self.storage, offset);
                if let ValueKind::BoundedSequence { .. } = self.current.value_kind {
                    let len = read_u64(self.storage, offset + 8);
                    if idx as u64 >= len {
                        return Err(DynamicMessageError::InvalidEncapsulation);
                    }
                }
                Ok(decode_simple(base, self.heap, data as usize + idx * size))
            },
        }
    }
}


/// Once a walk fails on a prefix of the entries, it fails on all of them.
proof fn lemma_walk_none_extends(first: MessageFieldInfo, es: Seq<Entry>, k: int)
    requires
        0 <= k <= es.len(),
        walk(first, es.take(k)) is None,
    ensures
        walk(first, es) is None,
    decreases es.len() - k,
{
    if k < es.len() {
        assert(es.take(k + 1).drop_last() =~= es.take(k));
        lemma_walk_none_extends(first, es, k + 1);
    } else {
        assert(es.take(k) =~= es);
    }
}

} // verus!

verus! {

/// Hands out the elements of a sequence or array one after the other.
pub struct SeqAccess {
    /// The number of elements, where it is known beforehand.
    pub len: Option<usize>,
    /// True until the sequence has been entered.
    pub first: bool,
}

impl SeqAccess {
    /// A sequence that has not been entered yet.
    pub fn new(len: Option<usize>) -> (r: Self)
        ensures
            r.len == len,
            r.first,
    {
        SeqAccess { len, first: true }
    }

    /// Moves `de` to the next element (entering the sequence on the first
    /// call); reports whether there is one.
    pub fn next_element(&mut self, de: &mut DynReader) -> (r: Result<bool, DynamicMessageError>)
        requires
            old(self).first && old(de)@.current.value_kind != ValueKind::Simple
                ==> array_len_readable(old(de)@),
            !old(self).first ==> old(de)@.pos.len() > 0,
        ensures
            final(de)@ == inc_seq_spec(old(de)@, old(self).first).1,
            agrees(r, inc_seq_spec(old(de)@, old(self).first).0),
            final(self).len == old(self).len,
            final(self).first == (old(self).first && !(r matches Ok(true))),
    {
        let more = de.inc_seq(self.first)?;
        if more {
            self.first = false;
        }
        Ok(more)
    }

    /// The number of elements, where it is known beforehand.
    pub fn size_hint(&self) -> (r: Option<usize>)
        ensures
            r == self.len,
    {
        self.len
    }
}

/// Hands out the fields of a message one after the other.
pub struct MsgAccess {
    /// True until the message has been entered.
    pub first: bool,
}

impl MsgAccess {
    /// A message that has not been entered yet.
    pub fn new() -> (r: Self)
        ensures
            r.first,
    {
        MsgAccess { first: true }
    }

    /// Moves `de` to the next field (entering the message on the first
    /// call); reports whether there is one.
    pub fn next_key(&mut self, de: &mut DynReader) -> (r: Result<bool, DynamicMessageError>)
        requires
            offsets_fit(old(de)@.structure, usize::MAX as int),
            !old(self).first ==> old(de)@.pos.len() > 0,
            !old(self).first && old(de)@.pos.last().2 ==> old(de)@.pos.len() > 1,
        ensures
            final(de)@ == inc_field_spec(old(de)@, old(self).first).1,
            agrees(r, inc_field_spec(old(de)@, old(self).first).0),
            final(self).first == (old(self).first && !(r matches Ok(true))),
    {
        let more = de.inc_field(self.first)?;
        if more {
            self.first = false;
        }
        Ok(more)
    }
}

} // verus!

verus! {

impl<'de> DynReader<'de> {
    /// The reader's position, outermost level first.
    pub fn position(&self) -> (r: &Vec<Entry>)
        ensures
            r@ == self@.pos,
    {
        &self.pos
    }

    /// The field the reader points at.
    pub fn current(&self) -> (r: &MessageFieldInfo)
        ensures
            *r == self@.current,
    {
        self.current
    }

    /// Where the message enclosing the current field starts in the storage.
    pub fn offset(&self) -> (r: usize)
        ensures
            r == self@.offset,
    {
        self.offset
    }
}

} // verus!
