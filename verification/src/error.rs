//! The errors of dynamic messages.
use vstd::prelude::*;

use vstd::std_specs::cmp::PartialEqSpec;

use crate::render::framed;

verus! {

/// The error of the library that loads type support, carried unchanged.
#[verifier::external_type_specification]
#[verifier::external_body]
pub struct ExLibloadingError(libloading::Error);

/// An error related to creating, reading or deserializing a dynamic message.
#[derive(Debug)]
pub enum DynamicMessageError {
    /// The type support library was not found because no matching prefix was sourced.
    RequiredPrefixNotSourced {
        /// The package that was not found.
        package: String,
    },
    /// The message type does not have the shape `<package>/msg/<msg_name>`.
    InvalidMessageTypeSyntax {
        /// The message type passed to rclrs.
        input: String,
    },
    /// The message type could not be found in the package.
    InvalidMessageType,
    /// The operation expected a dynamic message of a different type.
    MessageTypeMismatch,
    /// Loading the type support library failed.
    LibraryLoadingError(libloading::Error),
    /// An error related to serializing or deserializing a dynamic message.
    SerdeMessage(String),
    /// A type is not supported for serde serialization/deserialization.
    TypeNotSupported(String),
    /// The UTF-8 encoding is invalid.
    InvalidUtf8Encoding,
    /// The position of a reader does not lead to a value of the message.
    InvalidEncapsulation,
}

/// Two errors are equal when they are the same variant with the same text:
/// the same payload strings, and any two library-loading errors.
impl PartialEq for DynamicMessageError {
    fn eq(&self, other: &Self) -> (r: bool) {
        match (self, other) {
            (
                DynamicMessageError::RequiredPrefixNotSourced { package: a },
                DynamicMessageError::RequiredPrefixNotSourced { package: b },
            ) => *a == *b,
            (
                DynamicMessageError::InvalidMessageTypeSyntax { input: a },
                DynamicMessageError::InvalidMessageTypeSyntax { input: b },
            ) => *a == *b,
            (DynamicMessageError::InvalidMessageType, DynamicMessageError::InvalidMessageType) => true,
            (DynamicMessageError::MessageTypeMismatch, DynamicMessageError::MessageTypeMismatch) => true,
            (DynamicMessageError::LibraryLoadingError(_), DynamicMessageError::LibraryLoadingError(_)) => true,
            (DynamicMessageError::SerdeMessage(a), DynamicMessageError::SerdeMessage(b)) => *a == *b,
            (DynamicMessageError::TypeNotSupported(a), DynamicMessageError::TypeNotSupported(b)) => *a == *b,
            (DynamicMessageError::InvalidUtf8Encoding, DynamicMessageError::InvalidUtf8Encoding) => true,
            (DynamicMessageError::InvalidEncapsulation, DynamicMessageError::InvalidEncapsulation) => true,
            _ => false,
        }
    }
}

impl vstd::std_specs::cmp::PartialEqSpecImpl for DynamicMessageError {
    open spec fn obeys_eq_spec() -> bool {
        true
    }

    open spec fn eq_spec(&self, other: &Self) -> bool {
        match (self, other) {
            (
                DynamicMessageError::RequiredPrefixNotSourced { package: a },
                DynamicMessageError::RequiredPrefixNotSourced { package: b },
            ) => a@ == b@,
            (
                DynamicMessageError::InvalidMessageTypeSyntax { input: a },
                DynamicMessageError::InvalidMessageTypeSyntax { input: b },
            ) => a@ == b@,
            (DynamicMessageError::InvalidMessageType, DynamicMessageError::InvalidMessageType) => true,
            (DynamicMessageError::MessageTypeMismatch, DynamicMessageError::MessageTypeMismatch) => true,
            (DynamicMessageError::LibraryLoadingError(_), DynamicMessageError::LibraryLoadingError(_)) => true,
            (DynamicMessageError::SerdeMessage(a), DynamicMessageError::SerdeMessage(b)) => a@ == b@,
            (DynamicMessageError::TypeNotSupported(a), DynamicMessageError::TypeNotSupported(b)) => a@ == b@,
            (DynamicMessageError::InvalidUtf8Encoding, DynamicMessageError::InvalidUtf8Encoding) => true,
            (DynamicMessageError::InvalidEncapsulation, DynamicMessageError::InvalidEncapsulation) => true,
            _ => false,
        }
    }
}

impl Eq for DynamicMessageError {
}

} // verus!

verus! {

/// The text of an error, as its display shows it.
pub open spec fn message_spec(e: DynamicMessageError) -> Seq<char> {
    match e {
        DynamicMessageError::RequiredPrefixNotSourced { package } => "Package '"@ + package@
            + "' was not found in any prefix"@,
        DynamicMessageError::InvalidMessageTypeSyntax { input } => "The message type '"@ + input@
            + "' does not have the form <package>/msg/<msg_name>"@,
        DynamicMessageError::InvalidMessageType => "The message type was not found in the package"@,
        DynamicMessageError::MessageTypeMismatch =>
            "The operation expected a dynamic message of a different type"@,
        DynamicMessageError::LibraryLoadingError(_) => "Loading the type support library failed"@,
        DynamicMessageError::SerdeMessage(msg) => "Dynamic message serde error: "@ + msg@,
        DynamicMessageError::TypeNotSupported(ty) => "Type not supported for serde: "@ + ty@,
        DynamicMessageError::InvalidUtf8Encoding => "The UTF-8 encoding is invalid"@,
        DynamicMessageError::InvalidEncapsulation =>
            "The position of the reader does not lead to a value of the message"@,
    }
}

/// The text of every library-loading error, whatever the loader reported.
pub fn library_loading_message() -> (r: String)
    ensures
        r@ == "Loading the type support library failed"@,
{
    String::from_str("Loading the type support library failed")
}

/// The position of the error's variant among the variants.
pub open spec fn variant_index(e: DynamicMessageError) -> int {
    match e {
        DynamicMessageError::RequiredPrefixNotSourced { .. } => 0,
        DynamicMessageError::InvalidMessageTypeSyntax { .. } => 1,
        DynamicMessageError::InvalidMessageType => 2,
        DynamicMessageError::MessageTypeMismatch => 3,
        DynamicMessageError::LibraryLoadingError(_) => 4,
        DynamicMessageError::SerdeMessage(_) => 5,
        DynamicMessageError::TypeNotSupported(_) => 6,
        DynamicMessageError::InvalidUtf8Encoding => 7,
        DynamicMessageError::InvalidEncapsulation => 8,
    }
}

proof fn lemma_framed_cancels(p: Seq<char>, x: Seq<char>, y: Seq<char>, q: Seq<char>)
    requires
        p + x + q == p + y + q,
    ensures
        x == y,
{
    let s = p + x + q;
    assert(s.len() == p.len() + x.len() + q.len());
    assert((p + y + q).len() == p.len() + y.len() + q.len());
    assert(x =~= s.subrange(p.len() as int, (p.len() + x.len()) as int));
    assert(y =~= (p + y + q).subrange(p.len() as int, (p.len() + y.len()) as int));
}

proof fn lemma_prefixed_cancels(p: Seq<char>, x: Seq<char>, y: Seq<char>)
    requires
        p + x == p + y,
    ensures
        x == y,
{
    assert(x =~= (p + x).subrange(p.len() as int, (p + x).len() as int));
    assert(y =~= (p + y).subrange(p.len() as int, (p + y).len() as int));
}

/// Two errors are equal exactly when they are the same variant and their
/// texts, as `message` gives them, are the same.
pub proof fn law_errors_equal_by_text(a: DynamicMessageError, b: DynamicMessageError)
    ensures
        a.eq_spec(&b) <==> (variant_index(a) == variant_index(b) && message_spec(a)
            == message_spec(b)),
{
    match (a, b) {
        (
            DynamicMessageError::RequiredPrefixNotSourced { package: x },
            DynamicMessageError::RequiredPrefixNotSourced { package: y },
        ) => {
            if message_spec(a) == message_spec(b) {
                lemma_framed_cancels("Package '"@, x@, y@, "' was not found in any prefix"@);
            }
        },
        (
            DynamicMessageError::InvalidMessageTypeSyntax { input: x },
            DynamicMessageError::InvalidMessageTypeSyntax { input: y },
        ) => {
            if message_spec(a) == message_spec(b) {
                lemma_framed_cancels(
                    "The message type '"@,
                    x@,
                    y@,
                    "' does not have the form <package>/msg/<msg_name>"@,
                );
            }
        },
        (DynamicMessageError::SerdeMessage(x), DynamicMessageError::SerdeMessage(y)) => {
            if message_spec(a) == message_spec(b) {
                lemma_prefixed_cancels("Dynamic message serde error: "@, x@, y@);
            }
        },
        (DynamicMessageError::TypeNotSupported(x), DynamicMessageError::TypeNotSupported(y)) => {
            if message_spec(a) == message_spec(b) {
                lemma_prefixed_cancels("Type not supported for serde: "@, x@, y@);
            }
        },
        _ => {},
    }
}

/// `prefix`, then `rest`.
fn prefixed(prefix: &str, rest: &String) -> (r: String)
    ensures
        r@ == prefix@ + rest@,
{
    let mut s = String::from_str(prefix);
    s.append(rest.as_str());
    s
}

impl DynamicMessageError {
    /// The text of the error, as its display shows it.
    pub fn message(&self) -> (r: String)
        ensures
            r@ == message_spec(*self),
    {
        match self {
            DynamicMessageError::RequiredPrefixNotSourced { package } => framed(
                "Package '",
                package,
                "' was not found in any prefix",
            ),
            DynamicMessageError::InvalidMessageTypeSyntax { input } => framed(
                "The message type '",
                input,
                "' does not have the form <package>/msg/<msg_name>",
            ),
            DynamicMessageError::InvalidMessageType => String::from_str(
                "The message type was not found in the package",
            ),
            DynamicMessageError::MessageTypeMismatch => String::from_str(
                "The operation expected a dynamic message of a different type",
            ),
            DynamicMessageError::LibraryLoadingError(_) => library_loading_message(),
            DynamicMessageError::SerdeMessage(msg) => prefixed("Dynamic message serde error: ", msg),
            DynamicMessageError::TypeNotSupported(ty) => prefixed("Type not supported for serde: ", ty),
            DynamicMessageError::InvalidUtf8Encoding => String::from_str(
                "The UTF-8 encoding is invalid",
            ),
            DynamicMessageError::InvalidEncapsulation => String::from_str(
                "The position of the reader does not lead to a value of the message",
            ),
        }
    }
}

/// Which error an operation of a reader fails with, as the contracts state it.
pub enum Failure {
    /// `TypeNotSupported` with exactly this text.
    Unsupported(Seq<char>),
    InvalidEncapsulation,
    InvalidUtf8Encoding,
}

/// True when the error `e` is the one that `f` names.
pub open spec fn fails_with(e: DynamicMessageError, f: Failure) -> bool {
    match f {
        Failure::Unsupported(text) => e matches DynamicMessageError::TypeNotSupported(t) && t@
            == text,
        Failure::InvalidEncapsulation => e is InvalidEncapsulation,
        Failure::InvalidUtf8Encoding => e is InvalidUtf8Encoding,
    }
}

/// True when the result `r` is the outcome `s`: the same value, or the
/// error that `s` names, with its text where it has one.
pub open spec fn agrees<T>(r: Result<T, DynamicMessageError>, s: Result<T, Failure>) -> bool {
    match s {
        Ok(v) => r matches Ok(w) && w == v,
        Err(f) => r matches Err(e) && fails_with(e, f),
    }
}

} // verus!
