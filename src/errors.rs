//! Errors of this library.
use crate::model::ParseFailure;
use crate::string_name::StringName;
use vstd::prelude::*;

verus! {

/// A malformed reference text, with the text that could not be parsed.
#[derive(Clone, Debug)]
pub enum ParseStrError {
    AtStringTypeReference(StringName),
    AtStringMethodReference(StringName),
}

impl View for ParseStrError {
    type V = ParseFailure;

    open spec fn view(&self) -> ParseFailure {
        match self {
            ParseStrError::AtStringTypeReference(s) => ParseFailure::AtType(s@),
            ParseStrError::AtStringMethodReference(s) => ParseFailure::AtMethod(s@),
        }
    }
}

} // verus!

verus! {

/// An operation that the runtime may refuse.
#[derive(Clone, Debug)]
pub enum RuntimeMayBeInvalidOperation {
    ConsoleKeyAvailableOnFile,
}

/// An unwrap of a value that was not there.
#[derive(Clone, Copy, Debug)]
pub struct UnwrapError;

/// Malformed or unexpected binary metadata.
#[derive(Debug)]
pub enum BinaryError {
    StringNotFound { index: u64 },
    IndexOutOfRange,
    UnexpectedTypeSpecificAttr(&'static str),
    WrongFileFormat,
    SectionNotFound,
    BinaryTooShort,
    EnumOutOfBounds(&'static str),
}

/// A text encoding that is not supported.
#[derive(Clone, Debug)]
pub enum EncodingError {
    UnsupportedEncoding(&'static str),
}

} // verus!
