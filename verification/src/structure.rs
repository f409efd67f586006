//! The type description of a dynamic message: its fields, their kinds and
//! base types, and where each field lies in the message's storage.
use vstd::prelude::*;

verus! {

/// Size in bytes of the header of a sequence or a string in a message's
/// storage: a data address, a size and a capacity, each a 64-bit word.
pub const HEADER_SIZE: usize = 24;

/// The element type of a field.
#[derive(Debug)]
pub enum BaseType {
    Float,
    Double,
    LongDouble,
    Char,
    WChar,
    Boolean,
    Octet,
    Uint8,
    Int8,
    Uint16,
    Int16,
    Uint32,
    Int32,
    Uint64,
    Int64,
    String,
    BoundedString { upper_bound: usize },
    WString,
    BoundedWString { upper_bound: usize },
    Message(Box<MessageStructure>),
}

/// Whether a field holds one element, a fixed-size array, or a sequence.
#[derive(Debug, PartialEq, Eq, Structural)]
pub enum ValueKind {
    Simple,
    Array { length: usize },
    Sequence,
    BoundedSequence { upper_bound: usize },
}

/// One field of a message type.
#[derive(Debug)]
pub struct MessageFieldInfo {
    /// The field's name.
    pub name: String,
    /// Simple, array or sequence.
    pub value_kind: ValueKind,
    /// The type of one element.
    pub base_type: BaseType,
    /// Where the field starts, relative to the start of its message.
    pub offset: usize,
}

/// The description of a message type.
#[derive(Debug)]
pub struct MessageStructure {
    /// The fields in declaration order.
    pub fields: Vec<MessageFieldInfo>,
    /// The size in bytes of one message of this type.
    pub size: usize,
}

impl BaseType {
    /// Size in bytes of one element of this type; `None` where no size is known.
    pub open spec fn spec_size(&self) -> Option<usize> {
        match self {
            BaseType::Boolean | BaseType::Octet | BaseType::Char | BaseType::Uint8
            | BaseType::Int8 => Some(1usize),
            BaseType::WChar | BaseType::Uint16 | BaseType::Int16 => Some(2usize),
            BaseType::Float | BaseType::Uint32 | BaseType::Int32 => Some(4usize),
            BaseType::Double | BaseType::Uint64 | BaseType::Int64 => Some(8usize),
            BaseType::LongDouble => Some(16usize),
            BaseType::String | BaseType::BoundedString { .. } | BaseType::WString
            | BaseType::BoundedWString { .. } => Some(HEADER_SIZE),
            BaseType::Message(s) => Some(s.size),
        }
    }

    /// Size in bytes of one element of this type.
    pub fn size(&self) -> (r: Option<usize>)
        ensures
            r == self.spec_size(),
    {
        match self {
            BaseType::Boolean | BaseType::Octet | BaseType::Char | BaseType::Uint8
            | BaseType::Int8 => Some(1),
            BaseType::WChar | BaseType::Uint16 | BaseType::Int16 => Some(2),
            BaseType::Float | BaseType::Uint32 | BaseType::Int32 => Some(4),
            BaseType::Double | BaseType::Uint64 | BaseType::Int64 => Some(8),
            BaseType::LongDouble => Some(16),
            BaseType::String | BaseType::BoundedString { .. } | BaseType::WString
            | BaseType::BoundedWString { .. } => Some(HEADER_SIZE),
            BaseType::Message(s) => Some(s.size),
        }
    }
}

impl MessageFieldInfo {
    /// Size in bytes that the field takes in its message; `None` where it
    /// does not fit a `usize` or the element size is unknown.
    pub open spec fn spec_size(&self) -> Option<usize> {
        match self.value_kind {
            ValueKind::Simple => self.base_type.spec_size(),
            ValueKind::Array { length } => match self.base_type.spec_size() {
                Some(s) => if s * length <= usize::MAX {
                    Some((s * length) as usize)
                } else {
                    None
                },
                None => None,
            },
            ValueKind::Sequence | ValueKind::BoundedSequence { .. } => Some(HEADER_SIZE),
        }
    }

    /// Size in bytes that the field takes in its message.
    pub fn size(&self) -> (r: Option<usize>)
        ensures
            r == self.spec_size(),
    {
        match self.value_kind {
            ValueKind::Simple => self.base_type.size(),
            ValueKind::Array { length } => match self.base_type.size() {
                Some(s) => s.checked_mul(length),
                None => None,
            },
            ValueKind::Sequence | ValueKind::BoundedSequence { .. } => Some(HEADER_SIZE),
        }
    }
}

/// True when every chain of nested field offsets that starts in `s` sums to
/// at most `budget`: a walk down the fields of `s` and of the message types
/// nested in it never leaves the range of addresses below `budget`.
pub open spec fn offsets_fit(s: MessageStructure, budget: int) -> bool
    decreases s,
{
    forall|i: int|
        #![trigger s.fields@[i]]
        0 <= i < s.fields@.len() ==> {
            &&& s.fields@[i].offset <= budget
            &&& match s.fields@[i].base_type {
                BaseType::Message(inner) => offsets_fit(*inner, budget - s.fields@[i].offset),
                _ => true,
            }
        }
}

/// True when a field, taken at `budget` bytes of room, fits: its offset is
/// within the room, and so is every walk down into its message type.
pub open spec fn field_fits(f: MessageFieldInfo, budget: int) -> bool {
    &&& f.offset <= budget
    &&& match f.base_type {
        BaseType::Message(inner) => offsets_fit(*inner, budget - f.offset),
        _ => true,
    }
}

/// Checks that every chain of nested field offsets in `s` sums to at most
/// `budget`.
pub fn check_offsets_fit(s: &MessageStructure, budget: usize) -> (r: bool)
    ensures
        r == offsets_fit(*s, budget as int),
    decreases *s,
{
    let n = s.fields.len();
    let mut i: usize = 0;
    while i < n
        invariant
            0 <= i <= n,
            n == s.fields@.len(),
            forall|j: int| 0 <= j < i ==> #[trigger] field_fits(s.fields@[j], budget as int),
        decreases n - i,
    {
        let f = &s.fields[i];
        if f.offset > budget {
            assert(!field_fits(s.fields@[i as int], budget as int));
            return false;
        }
        if let BaseType::Message(inner) = &f.base_type {
            assert(decreases_to!(*s => s.fields@[i as int].base_type));
            if !check_offsets_fit(inner, budget - f.offset) {
                assert(!field_fits(s.fields@[i as int], budget as int));
                return false;
            }
        }
        assert(field_fits(s.fields@[i as int], budget as int));
        i = i + 1;
    }
    assert forall|j: int| 0 <= j < s.fields@.len() implies {
        &&& s.fields@[j].offset <= budget
        &&& match s.fields@[j].base_type {
            BaseType::Message(inner) => offsets_fit(*inner, budget - s.fields@[j].offset),
            _ => true,
        }
    } by {
        assert(field_fits(s.fields@[j], budget as int));
    }
    true
}

} // verus!
