//! Error taxonomy of the crate.

use vstd::prelude::*;

verus! {

/// Failure of the underlying byte source.
#[derive(Clone, Copy, Debug, PartialEq, Eq, Structural)]
pub enum IoError {
    /// The source ended before the requested bytes could be read.
    UnexpectedEof,
}

/// Violation of the wire format.
#[derive(Clone, Copy, Debug, PartialEq, Eq, Structural)]
pub enum FormatError {
    /// A discriminator that names no constructor of the expected type.
    UnknownConstructor(i32),
    /// A 32-bit word that is neither of the two boolean sentinels.
    BoolSentinel(i32),
    /// A vector that does not start with the vector tag.
    VectorTag(u32),
    /// A vector whose element count is negative.
    NegativeCount(i32),
    /// An integer that must not be negative, but is.
    NegativeInt(i64),
    /// A length or count that the format cannot express.
    LengthOutOfRange(usize),
    /// A padding byte that is not zero.
    NonZeroPadding,
    /// A string payload that is not UTF-8.
    InvalidUtf8,
}

/// Any failure of a codec operation.
#[derive(Clone, Copy, Debug, PartialEq, Eq, Structural)]
pub enum TlError {
    Io(IoError),
    Format(FormatError),
}

/// Result of a codec operation.
pub type MyResult<T> = Result<T, TlError>;

/// Violation of the schema-authoring rules, found while generating code.
#[derive(Clone, Copy, Debug, PartialEq, Eq, Structural)]
pub enum SchemaError {
    /// An identifier with more than one `.`.
    NamespaceDepth,
    /// A generic whose argument is itself generic.
    NestedGeneric,
    /// A generic whose wrapper is not `Vector`.
    UnknownGeneric,
    /// A `<` or `>` outside the `Outer<Inner>` shape, or a `.` in a name that takes none.
    StrayPunctuation,
    /// A pseudo-type that has no Rust counterpart used as a field type.
    SpecialType,
    /// A logical type without constructors.
    NoConstructors,
    /// Two constructors with the same id.
    DuplicateId(i32),
}

impl TlError {
    /// The error for a source that ended early.
    pub open spec fn eof() -> TlError {
        TlError::Io(IoError::UnexpectedEof)
    }
}

} // verus!
