// The reader's operations on small hand-built messages, with exact values.

use rclrs::memory::{read_u16, read_u32, read_u64, read_u8};
use rclrs::structure::check_offsets_fit;
use rclrs::text::{read_cstr, read_units, utf16_to_string, utf8_to_string};
use rclrs::{
    BaseType, DynReader, DynamicMessageError, DynamicMessageView, MessageFieldInfo,
    MessageStructure, MsgAccess, Request, SeqAccess, SimpleValue, ValueKind,
};

fn field(name: &str, value_kind: ValueKind, base_type: BaseType, offset: usize) -> MessageFieldInfo {
    MessageFieldInfo { name: name.to_string(), value_kind, base_type, offset }
}

/// { bool flag @0; i32 number @4; i8 small @8; u64 big @16; char letter @24 }
fn scalars() -> MessageStructure {
    MessageStructure {
        fields: vec![
            field("flag", ValueKind::Simple, BaseType::Boolean, 0),
            field("number", ValueKind::Simple, BaseType::Int32, 4),
            field("small", ValueKind::Simple, BaseType::Int8, 8),
            field("big", ValueKind::Simple, BaseType::Uint64, 16),
            field("letter", ValueKind::Simple, BaseType::Char, 24),
        ],
        size: 32,
    }
}

fn scalars_storage() -> Vec<u8> {
    let mut s = vec![0u8; 32];
    s[0] = 1;
    s[4..8].copy_from_slice(&(-123456i32).to_le_bytes());
    s[8] = (-50i8) as u8;
    s[16..24].copy_from_slice(&u64::MAX.to_le_bytes());
    s[24] = 100;
    s
}

/// { i32[3] values @0; i32[] list @16; u8 tail @40 }
fn collections() -> MessageStructure {
    MessageStructure {
        fields: vec![
            field("values", ValueKind::Array { length: 3 }, BaseType::Int32, 0),
            field("list", ValueKind::Sequence, BaseType::Int32, 16),
            field("tail", ValueKind::Simple, BaseType::Uint8, 40),
        ],
        size: 48,
    }
}

fn header(data: u64, size: u64) -> Vec<u8> {
    let mut h = Vec::new();
    h.extend_from_slice(&data.to_le_bytes());
    h.extend_from_slice(&size.to_le_bytes());
    h.extend_from_slice(&size.to_le_bytes());
    h
}

fn collections_memory() -> (Vec<u8>, Vec<u8>) {
    let mut s = vec![0u8; 48];
    for (i, v) in [7i32, -8, 9].iter().enumerate() {
        s[4 * i..4 * i + 4].copy_from_slice(&v.to_le_bytes());
    }
    s[16..40].copy_from_slice(&header(8, 2));
    s[40] = 5;
    let mut heap = vec![0u8; 16];
    heap[8..12].copy_from_slice(&100i32.to_le_bytes());
    heap[12..16].copy_from_slice(&200i32.to_le_bytes());
    (s, heap)
}

/// { u8 before @0; { u16 a @0; u16 b @2 } inner @2; u8 after @6 }
fn nested() -> MessageStructure {
    let inner = MessageStructure {
        fields: vec![
            field("a", ValueKind::Simple, BaseType::Uint16, 0),
            field("b", ValueKind::Simple, BaseType::Uint16, 2),
        ],
        size: 4,
    };
    MessageStructure {
        fields: vec![
            field("before", ValueKind::Simple, BaseType::Uint8, 0),
            field("inner", ValueKind::Simple, BaseType::Message(Box::new(inner)), 2),
            field("after", ValueKind::Simple, BaseType::Uint8, 6),
        ],
        size: 8,
    }
}

fn view<'a>(s: &'a MessageStructure, storage: &'a [u8], heap: &'a [u8]) -> DynamicMessageView<'a> {
    DynamicMessageView { structure: s, storage, heap }
}

fn enter(r: &mut DynReader) -> MsgAccess {
    let mut acc = MsgAccess::new();
    assert_eq!(acc.next_key(r).unwrap(), true);
    acc
}

fn names_in_order(r: &mut DynReader) -> Vec<String> {
    let mut acc = MsgAccess::new();
    let mut names = Vec::new();
    while acc.next_key(r).unwrap() {
        names.push(r.deserialize_identifier());
    }
    names
}

#[test]
fn reader_starts_at_first_field() {
    let s = scalars();
    let storage = scalars_storage();
    let r = DynReader::from_dyn_msg_view(view(&s, &storage, &[]));
    assert!(r.position().is_empty());
    assert_eq!(r.current().name, "flag");
    assert_eq!(r.offset(), 0);
}

#[test]
fn fields_come_in_declaration_order() {
    let s = scalars();
    let storage = scalars_storage();
    let mut r = DynReader::from_dyn_msg_view(view(&s, &storage, &[]));
    let names = names_in_order(&mut r);
    assert_eq!(names, vec!["flag", "number", "small", "big", "letter"]);
    assert!(r.position().is_empty());
}

#[test]
fn field_positions_count_up() {
    let s = scalars();
    let storage = scalars_storage();
    let mut r = DynReader::from_dyn_msg_view(view(&s, &storage, &[]));
    assert_eq!(r.inc_field(true).unwrap(), true);
    assert_eq!(r.position(), &vec![(0, 5, false)]);
    assert_eq!(r.inc_field(false).unwrap(), true);
    assert_eq!(r.position(), &vec![(1, 5, false)]);
    assert_eq!(r.current().name, "number");
}

#[test]
fn scalar_values_are_read_exactly() {
    let s = scalars();
    let storage = scalars_storage();
    let mut r = DynReader::from_dyn_msg_view(view(&s, &storage, &[]));
    let _acc = enter(&mut r);
    assert_eq!(r.deserialize_bool().unwrap(), true);
    r.inc_field(false).unwrap();
    assert_eq!(r.deserialize_i32().unwrap(), -123456);
    r.inc_field(false).unwrap();
    assert_eq!(r.deserialize_i8().unwrap(), -50);
    r.inc_field(false).unwrap();
    assert_eq!(r.deserialize_u64().unwrap(), u64::MAX);
    r.inc_field(false).unwrap();
    assert_eq!(r.deserialize_u8().unwrap(), 100);
    assert_eq!(r.deserialize_char().unwrap(), 'd');
}

#[test]
fn wrong_type_is_not_supported() {
    let s = scalars();
    let storage = scalars_storage();
    let mut r = DynReader::from_dyn_msg_view(view(&s, &storage, &[]));
    let _acc = enter(&mut r);
    assert_eq!(
        r.deserialize_i32(),
        Err(DynamicMessageError::TypeNotSupported("Simple(Boolean(true))".to_string()))
    );
    assert!(matches!(r.deserialize_string(), Err(DynamicMessageError::TypeNotSupported(_))));
    assert!(matches!(r.deserialize_bytes(), Err(DynamicMessageError::TypeNotSupported(_))));
    assert!(matches!(r.deserialize_byte_buf(), Err(DynamicMessageError::TypeNotSupported(_))));
    assert_eq!(r.deserialize_option(), Err(DynamicMessageError::TypeNotSupported("rosidl does not support Option<T>".to_string())));
    assert_eq!(r.inc_seq(true), Err(DynamicMessageError::TypeNotSupported("Cannot increment sequence on non-sequence type".to_string())));
    assert_eq!(r.inc_field(true), Err(DynamicMessageError::TypeNotSupported("Cannot push field on non-message type".to_string())));
    assert_eq!(r.position(), &vec![(0, 5, false)]);
    let mut elements = SeqAccess::new(None);
    assert_eq!(elements.next_element(&mut r), Err(DynamicMessageError::TypeNotSupported("Cannot increment sequence on non-sequence type".to_string())));
    assert!(elements.first);
}

#[test]
fn any_follows_the_field_kind() {
    let s = collections();
    let (storage, heap) = collections_memory();
    let mut r = DynReader::from_dyn_msg_view(view(&s, &storage, &heap));
    let _acc = enter(&mut r);
    assert_eq!(r.deserialize_any().unwrap(), Request::Tuple(3));
    let mut seq = SeqAccess::new(Some(3));
    assert_eq!(seq.next_element(&mut r).unwrap(), true);
    assert_eq!(r.deserialize_any().unwrap(), Request::I32);
    assert_eq!(seq.size_hint(), Some(3));
}

#[test]
fn array_round_trip_restores_position() {
    let s = collections();
    let (storage, heap) = collections_memory();
    let mut r = DynReader::from_dyn_msg_view(view(&s, &storage, &heap));
    let _acc = enter(&mut r);
    let before = r.position().clone();
    let mut seq = SeqAccess::new(Some(3));
    let mut got = Vec::new();
    while seq.next_element(&mut r).unwrap() {
        got.push(r.deserialize_i32().unwrap());
        let top = *r.position().last().unwrap();
        assert!(top.0 < top.1);
    }
    assert_eq!(got, vec![7, -8, 9]);
    assert_eq!(r.position(), &before);
    assert_eq!(r.current().name, "values");
}

#[test]
fn sequence_elements_come_from_the_heap() {
    let s = collections();
    let (storage, heap) = collections_memory();
    let mut r = DynReader::from_dyn_msg_view(view(&s, &storage, &heap));
    let mut acc = enter(&mut r);
    assert_eq!(acc.next_key(&mut r).unwrap(), true);
    assert_eq!(r.deserialize_identifier(), "list");
    assert_eq!(r.deserialize_any().unwrap(), Request::Sequence);
    let mut seq = SeqAccess::new(None);
    let mut got = Vec::new();
    while seq.next_element(&mut r).unwrap() {
        got.push(r.deserialize_i32().unwrap());
    }
    assert_eq!(got, vec![100, 200]);
    assert_eq!(acc.next_key(&mut r).unwrap(), true);
    assert_eq!(r.deserialize_u8().unwrap(), 5);
    assert_eq!(acc.next_key(&mut r).unwrap(), false);
}

#[test]
fn empty_sequence_is_not_entered() {
    let s = collections();
    let (mut storage, heap) = collections_memory();
    storage[16..40].copy_from_slice(&header(0, 0));
    let mut r = DynReader::from_dyn_msg_view(view(&s, &storage, &heap));
    let mut acc = enter(&mut r);
    acc.next_key(&mut r).unwrap();
    let before = r.position().clone();
    assert_eq!(r.inc_seq(true).unwrap(), false);
    assert_eq!(r.position(), &before);
}

#[test]
fn nested_message_enter_and_leave() {
    let s = nested();
    let mut storage = vec![0u8; 8];
    storage[0] = 1;
    storage[2..4].copy_from_slice(&0x1234u16.to_le_bytes());
    storage[4..6].copy_from_slice(&0xABCDu16.to_le_bytes());
    storage[6] = 9;
    let mut r = DynReader::from_dyn_msg_view(view(&s, &storage, &[]));
    let mut acc = enter(&mut r);
    assert_eq!(acc.next_key(&mut r).unwrap(), true);
    assert_eq!(r.deserialize_any().unwrap(), Request::Message);
    let before = r.position().clone();
    let mut inner = MsgAccess::new();
    assert_eq!(inner.next_key(&mut r).unwrap(), true);
    assert_eq!(r.offset(), 2);
    assert_eq!(r.deserialize_u16().unwrap(), 0x1234);
    assert_eq!(inner.next_key(&mut r).unwrap(), true);
    assert_eq!(r.deserialize_u16().unwrap(), 0xABCD);
    assert_eq!(inner.next_key(&mut r).unwrap(), false);
    assert_eq!(r.position(), &before);
    assert_eq!(r.current().name, "inner");
    assert_eq!(r.offset(), 0);
    assert_eq!(acc.next_key(&mut r).unwrap(), true);
    assert_eq!(r.deserialize_u8().unwrap(), 9);
}

#[test]
fn set_current_resolves_the_position() {
    let s = nested();
    let storage = vec![0u8; 8];
    let mut r = DynReader::from_dyn_msg_view(view(&s, &storage, &[]));
    r.set_current().unwrap();
    assert_eq!(r.current().name, "before");
    r.inc_field(true).unwrap();
    r.inc_field(false).unwrap();
    r.inc_field(true).unwrap();
    r.set_current().unwrap();
    assert_eq!(r.current().name, "a");
    assert_eq!(r.offset(), 2);
}

#[test]
fn floats_come_as_bit_patterns() {
    let s = MessageStructure {
        fields: vec![
            field("x", ValueKind::Simple, BaseType::Float, 0),
            field("y", ValueKind::Simple, BaseType::Double, 8),
        ],
        size: 16,
    };
    let mut storage = vec![0u8; 16];
    storage[0..4].copy_from_slice(&1.125f32.to_le_bytes());
    storage[8..16].copy_from_slice(&(-3.1415f64).to_le_bytes());
    let mut r = DynReader::from_dyn_msg_view(view(&s, &storage, &[]));
    let _acc = enter(&mut r);
    assert_eq!(f32::from_bits(r.deserialize_f32().unwrap()), 1.125);
    r.inc_field(false).unwrap();
    assert_eq!(f64::from_bits(r.deserialize_f64().unwrap()), -3.1415);
    assert_eq!(r.deserialize_any().unwrap(), Request::F64);
}

fn text_message() -> MessageStructure {
    MessageStructure {
        fields: vec![
            field("narrow", ValueKind::Simple, BaseType::String, 0),
            field("wide", ValueKind::Simple, BaseType::WString, 24),
        ],
        size: 48,
    }
}

fn text_memory(narrow: &[u8], wide: &[u16]) -> (Vec<u8>, Vec<u8>) {
    let mut heap = Vec::new();
    heap.extend_from_slice(narrow);
    heap.push(0);
    let wide_at = heap.len();
    for u in wide {
        heap.extend_from_slice(&u.to_le_bytes());
    }
    heap.extend_from_slice(&[0, 0]);
    let mut storage = vec![0u8; 48];
    storage[0..24].copy_from_slice(&header(0, narrow.len() as u64));
    storage[24..48].copy_from_slice(&header(wide_at as u64, wide.len() as u64));
    (storage, heap)
}

#[test]
fn strings_decode_utf8_and_utf16() {
    let s = text_message();
    let wide: Vec<u16> = "grüß 😀".encode_utf16().collect();
    let (storage, heap) = text_memory("Hello world!".as_bytes(), &wide);
    let mut r = DynReader::from_dyn_msg_view(view(&s, &storage, &heap));
    let _acc = enter(&mut r);
    assert!(r.can_read_text());
    assert_eq!(r.deserialize_str().unwrap(), "Hello world!");
    assert_eq!(r.deserialize_any().unwrap(), Request::Str);
    r.inc_field(false).unwrap();
    assert_eq!(r.deserialize_string().unwrap(), "grüß 😀");
}

#[test]
fn invalid_text_is_an_encoding_error() {
    let s = text_message();
    let (storage, heap) = text_memory(&[0x48, 0xFF, 0x49], &[0x0041, 0xD800]);
    let mut r = DynReader::from_dyn_msg_view(view(&s, &storage, &heap));
    let _acc = enter(&mut r);
    assert_eq!(r.deserialize_str(), Err(DynamicMessageError::InvalidUtf8Encoding));
    r.inc_field(false).unwrap();
    assert_eq!(r.deserialize_string(), Err(DynamicMessageError::InvalidUtf8Encoding));
}

#[test]
fn unterminated_string_is_not_readable() {
    let s = text_message();
    let (storage, mut heap) = text_memory(b"abc", &[]);
    heap.truncate(3);
    let mut r = DynReader::from_dyn_msg_view(view(&s, &storage, &heap));
    let _acc = enter(&mut r);
    assert!(r.can_read_value());
    assert!(!r.can_read_text());
}

#[test]
fn bounded_sequence_index_past_size_is_invalid() {
    let s = MessageStructure {
        fields: vec![field("b", ValueKind::BoundedSequence { upper_bound: 3 }, BaseType::Int32, 0)],
        size: 24,
    };
    let storage = header(0, 0);
    let mut r = DynReader::from_dyn_msg_view(view(&s, &storage, &[]));
    let _acc = enter(&mut r);
    assert!(r.can_read_value());
    assert_eq!(r.deserialize_i32(), Err(DynamicMessageError::InvalidEncapsulation));
}

#[test]
fn unbounded_sequence_index_past_size_is_not_readable() {
    let s = MessageStructure {
        fields: vec![field("u", ValueKind::Sequence, BaseType::Int32, 0)],
        size: 24,
    };
    let storage = header(0, 0);
    let mut r = DynReader::from_dyn_msg_view(view(&s, &storage, &[]));
    let _acc = enter(&mut r);
    assert!(!r.can_read_value());
}

#[test]
fn message_arrays_are_not_read_as_values() {
    let inner = MessageStructure {
        fields: vec![field("a", ValueKind::Simple, BaseType::Uint8, 0)],
        size: 1,
    };
    let s = MessageStructure {
        fields: vec![field(
            "m",
            ValueKind::Array { length: 2 },
            BaseType::Message(Box::new(inner)),
            0,
        )],
        size: 2,
    };
    let storage = vec![3u8, 4];
    let mut r = DynReader::from_dyn_msg_view(view(&s, &storage, &[]));
    let _acc = enter(&mut r);
    assert_eq!(
        r.deserialize_u8(),
        Err(DynamicMessageError::TypeNotSupported("Array(MessageArray)".to_string()))
    );
    assert_eq!(r.inc_seq(true).unwrap(), true);
    assert_eq!(r.deserialize_any().unwrap(), Request::Message);
}

#[test]
fn wide_char_sequences_have_no_length() {
    let s = MessageStructure {
        fields: vec![field("w", ValueKind::Sequence, BaseType::WChar, 0)],
        size: 24,
    };
    let storage = header(0, 1);
    let heap = vec![0x41, 0];
    let mut r = DynReader::from_dyn_msg_view(view(&s, &storage, &heap));
    let _acc = enter(&mut r);
    assert_eq!(r.inc_seq(true), Err(DynamicMessageError::TypeNotSupported("array_len called on non-seq type".to_string())));
    assert!(r.position().len() == 1);
}

#[test]
fn long_double_is_not_supported() {
    let s = MessageStructure {
        fields: vec![field("l", ValueKind::Simple, BaseType::LongDouble, 0)],
        size: 16,
    };
    let storage = vec![0u8; 16];
    let mut r = DynReader::from_dyn_msg_view(view(&s, &storage, &[]));
    let _acc = enter(&mut r);
    assert_eq!(
        r.deserialize_any(),
        Err(DynamicMessageError::TypeNotSupported("LongDouble".to_string()))
    );
}

#[test]
fn field_sizes() {
    let f = field("a", ValueKind::Array { length: 3 }, BaseType::Int64, 0);
    assert_eq!(f.size(), Some(24));
    let g = field("s", ValueKind::Sequence, BaseType::Int64, 0);
    assert_eq!(g.size(), Some(24));
    let h = field("h", ValueKind::Array { length: usize::MAX }, BaseType::Int16, 0);
    assert_eq!(h.size(), None);
    assert_eq!(BaseType::WChar.size(), Some(2));
}

#[test]
fn offsets_that_overflow_are_found() {
    assert!(check_offsets_fit(&nested(), usize::MAX));
    assert!(check_offsets_fit(&nested(), 6));
    assert!(!check_offsets_fit(&nested(), 5));
}

#[test]
fn little_endian_reads() {
    let mem = [0x01, 0x02, 0x03, 0x04, 0x05, 0x06, 0x07, 0x08, 0x09];
    assert_eq!(read_u8(&mem, 8), 9);
    assert_eq!(read_u16(&mem, 0), 0x0201);
    assert_eq!(read_u32(&mem, 1), 0x05040302);
    assert_eq!(read_u64(&mem, 1), 0x0908070605040302);
}

#[test]
fn text_helpers() {
    assert_eq!(read_cstr(b"ab\0cd", 0), b"ab".to_vec());
    assert_eq!(read_cstr(b"ab\0cd\0", 3), b"cd".to_vec());
    assert_eq!(read_units(&[0x41, 0x00, 0x3D, 0xD8], 0, 2), vec![0x0041, 0xD83D]);
    assert_eq!(utf8_to_string("grüß".as_bytes()), Some("grüß".to_string()));
    assert_eq!(utf8_to_string(&[0xC3]), None);
    assert_eq!(utf16_to_string(&[0xD83D, 0xDE00]), Some("😀".to_string()));
    assert_eq!(utf16_to_string(&[0xDE00]), None);
}

#[test]
fn errors_compare_by_variant_and_text() {
    assert_eq!(
        DynamicMessageError::TypeNotSupported("a".to_string()),
        DynamicMessageError::TypeNotSupported("a".to_string())
    );
    assert_ne!(
        DynamicMessageError::TypeNotSupported("a".to_string()),
        DynamicMessageError::TypeNotSupported("b".to_string())
    );
    assert_ne!(DynamicMessageError::InvalidEncapsulation, DynamicMessageError::InvalidUtf8Encoding);
    assert_eq!(
        DynamicMessageError::RequiredPrefixNotSourced { package: "p".to_string() },
        DynamicMessageError::RequiredPrefixNotSourced { package: "p".to_string() }
    );
}

#[test]
fn equal_errors_have_equal_texts() {
    let pairs = vec![
        (
            DynamicMessageError::SerdeMessage("x".to_string()),
            DynamicMessageError::SerdeMessage("x".to_string()),
        ),
        (
            DynamicMessageError::SerdeMessage("x".to_string()),
            DynamicMessageError::SerdeMessage("y".to_string()),
        ),
        (
            DynamicMessageError::InvalidMessageTypeSyntax { input: "a".to_string() },
            DynamicMessageError::InvalidMessageTypeSyntax { input: "b".to_string() },
        ),
        (DynamicMessageError::InvalidUtf8Encoding, DynamicMessageError::InvalidUtf8Encoding),
    ];
    for (a, b) in pairs {
        assert_eq!(a == b, a.message() == b.message());
    }
}

#[test]
fn simple_values_compare() {
    assert_eq!(SimpleValue::Int32(1), SimpleValue::Int32(1));
    assert_ne!(SimpleValue::Int32(1), SimpleValue::Uint32(1));
}

#[test]
fn error_messages() {
    let cases = vec![
        (
            DynamicMessageError::RequiredPrefixNotSourced { package: "pkg".to_string() },
            "Package 'pkg' was not found in any prefix",
        ),
        (
            DynamicMessageError::InvalidMessageTypeSyntax { input: "a/b".to_string() },
            "The message type 'a/b' does not have the form <package>/msg/<msg_name>",
        ),
        (DynamicMessageError::InvalidMessageType, "The message type was not found in the package"),
        (
            DynamicMessageError::MessageTypeMismatch,
            "The operation expected a dynamic message of a different type",
        ),
        (
            DynamicMessageError::SerdeMessage("missing field `x`".to_string()),
            "Dynamic message serde error: missing field `x`",
        ),
        (
            DynamicMessageError::TypeNotSupported("Simple LongDouble".to_string()),
            "Type not supported for serde: Simple LongDouble",
        ),
        (
            DynamicMessageError::LibraryLoadingError(libloading::Error::DlOpenUnknown),
            "Loading the type support library failed",
        ),
        (DynamicMessageError::InvalidUtf8Encoding, "The UTF-8 encoding is invalid"),
        (
            DynamicMessageError::InvalidEncapsulation,
            "The position of the reader does not lead to a value of the message",
        ),
    ];
    for (e, text) in cases {
        assert_eq!(e.message(), text);
    }
}

/// { u8 head @0; { u8 x @0; u8 y @1; u8 z @2 } mid @1; u8 tail @4 }
fn three_inner() -> MessageStructure {
    let inner = MessageStructure {
        fields: vec![
            field("x", ValueKind::Simple, BaseType::Uint8, 0),
            field("y", ValueKind::Simple, BaseType::Uint8, 1),
            field("z", ValueKind::Simple, BaseType::Uint8, 2),
        ],
        size: 3,
    };
    MessageStructure {
        fields: vec![
            field("head", ValueKind::Simple, BaseType::Uint8, 0),
            field("mid", ValueKind::Simple, BaseType::Message(Box::new(inner)), 1),
            field("tail", ValueKind::Simple, BaseType::Uint8, 4),
        ],
        size: 5,
    }
}

#[test]
fn nested_fields_advance_in_order() {
    let s = three_inner();
    let storage = vec![1u8, 2, 3, 4, 5];
    let mut r = DynReader::from_dyn_msg_view(view(&s, &storage, &[]));
    let mut acc = enter(&mut r);
    assert_eq!(acc.next_key(&mut r).unwrap(), true);
    let outer = r.position().clone();
    assert_eq!(outer, vec![(1, 3, false)]);
    let mut inner = MsgAccess::new();
    let mut seen = Vec::new();
    while inner.next_key(&mut r).unwrap() {
        let mut expected = outer.clone();
        expected.push((seen.len(), 3, false));
        assert_eq!(r.position(), &expected);
        assert_eq!(r.offset(), 1);
        seen.push((r.deserialize_identifier(), r.deserialize_u8().unwrap()));
    }
    assert_eq!(
        seen,
        vec![("x".to_string(), 2), ("y".to_string(), 3), ("z".to_string(), 4)]
    );
    assert_eq!(r.position(), &outer);
    assert_eq!(r.current().name, "mid");
    assert_eq!(acc.next_key(&mut r).unwrap(), true);
    assert_eq!(r.deserialize_u8().unwrap(), 5);
    assert_eq!(acc.next_key(&mut r).unwrap(), false);
    assert!(r.position().is_empty());
}

#[test]
fn elements_come_once_each_in_order() {
    let (s, (storage, heap)) = (collections(), collections_memory());
    let mut r = DynReader::from_dyn_msg_view(view(&s, &storage, &heap));
    let _acc = enter(&mut r);
    let before = r.position().clone();
    let mut elements = SeqAccess::new(Some(3));
    let mut seen = Vec::new();
    while elements.next_element(&mut r).unwrap() {
        assert_eq!(r.position().last(), Some(&(seen.len(), 3, true)));
        seen.push(r.deserialize_i32().unwrap());
    }
    assert_eq!(seen, vec![7, -8, 9]);
    assert_eq!(r.position(), &before);
    assert!(!elements.first);
}

fn unsupported(text: &str) -> DynamicMessageError {
    DynamicMessageError::TypeNotSupported(text.to_string())
}

#[test]
fn wrong_type_texts_give_the_value() {
    let s = scalars();
    let storage = scalars_storage();
    let mut r = DynReader::from_dyn_msg_view(view(&s, &storage, &[]));
    let mut acc = enter(&mut r);
    assert_eq!(r.deserialize_bytes(), Err(unsupported("Simple(Boolean(true))")));
    acc.next_key(&mut r).unwrap();
    assert_eq!(r.deserialize_u8(), Err(unsupported("Simple(Int32(-123456))")));
    acc.next_key(&mut r).unwrap();
    assert_eq!(r.deserialize_bool(), Err(unsupported("Simple(Int8(-50))")));
    acc.next_key(&mut r).unwrap();
    assert_eq!(r.deserialize_i64(), Err(unsupported("Simple(Uint64(18446744073709551615))")));
    acc.next_key(&mut r).unwrap();
    assert_eq!(r.deserialize_str(), Err(unsupported("Simple(Char(100))")));
}

#[test]
fn wrong_type_texts_of_floats_give_their_bits() {
    let s = MessageStructure {
        fields: vec![field("x", ValueKind::Simple, BaseType::Float, 0)],
        size: 4,
    };
    let storage = 1.125f32.to_le_bytes().to_vec();
    let mut r = DynReader::from_dyn_msg_view(view(&s, &storage, &[]));
    let _acc = enter(&mut r);
    let bits = 1.125f32.to_bits();
    assert_eq!(r.deserialize_i32(), Err(unsupported(&format!("Simple(Float({}))", bits))));
}

#[test]
fn wrong_type_texts_quote_strings() {
    let s = text_message();
    let wide: Vec<u16> = "a\"b".encode_utf16().collect();
    let mut narrow = b"tab\there ".to_vec();
    narrow.push(0xFF);
    let (storage, heap) = text_memory(&narrow, &wide);
    let mut r = DynReader::from_dyn_msg_view(view(&s, &storage, &heap));
    let _acc = enter(&mut r);
    assert!(r.can_read_text());
    assert_eq!(r.deserialize_i32(), Err(unsupported("Simple(String(\"tab\\there \u{fffd}\"))")));
    r.inc_field(false).unwrap();
    assert_eq!(r.deserialize_char(), Err(unsupported("Simple(WString(\"a\\\"b\"))")));
}
