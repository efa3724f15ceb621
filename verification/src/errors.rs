use vstd::prelude::*;

verus! {

/// Every way a decode can fail.  Decoding is all-or-nothing: the first error
/// aborts the whole call and no partial module is returned.
#[derive(Clone, Copy, Debug, PartialEq, Eq)]
pub enum DecodeError {
    /// A read ran past the end of the input buffer.
    UnexpectedEof,
    /// The first four bytes are not `\0asm`.
    InvalidMagicNumber,
    /// The version field is not 1.
    UnsupportedVersion,
    /// A section id byte outside 0..=12.
    InvalidSectionId,
    /// A non-custom section whose id is not strictly greater than the id of
    /// the previous non-custom section.
    SectionOutOfOrder,
    /// A section (or code body) whose decoder consumed a number of bytes
    /// different from its declared content length.
    SectionLengthMismatch,
    /// A LEB128 field with no terminating byte within the maximum group
    /// count, or whose decoded magnitude exceeds the target integer width.
    InvalidLeb128Encoding,
    /// An opcode byte that no instruction family recognizes.
    InvalidOpcode,
    /// An instruction sequence that ran out of bytes before its end marker.
    UnterminatedExpression,
    /// Block nesting deeper than the decoder's fixed limit.
    NestingTooDeep,
    /// A byte that does not encode any value type.
    InvalidValueType,
    /// A function type that does not begin with the 0x60 tag.
    InvalidFunctionTypeTag,
    /// A limits tag byte other than 0 or 1.
    InvalidLimitsTag,
    /// A global mutability byte other than 0 or 1.
    InvalidMutabilityTag,
    /// An import tag byte other than 0..=3.
    InvalidImportTag,
    /// An export tag byte other than 0..=3.
    InvalidExportTag,
    /// A length-prefixed name that is not valid UTF-8.
    InvalidUtf8,
    /// A cross-section reference to an entry that does not exist, such as
    /// code bodies whose count differs from the function-section count.
    IndexOutOfRange,
}

} // verus!
