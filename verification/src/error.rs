//! The errors of the codec.

use vstd::prelude::*;

verus! {

/// Why a class file could not be decoded, or a value could not be encoded.
#[derive(Debug, Clone, PartialEq, Eq)]
pub enum Error {
    /// The input ends too early, an attribute's declared length does not fit
    /// its payload, or a table is too long for its count field.
    InvalidLength,
    /// The first four bytes are not `CA FE BA BE`.
    InvalidMagic,
    /// A `Utf8` constant does not hold valid UTF-8; the text describes where.
    InvalidString(String),
    /// A constant-pool entry starts with a tag that names no constant.
    InvalidConstantTag(u8),
    /// A pool index resolves to a constant of another kind than required.
    MismatchConstantType,
    /// An attribute's name is none of the known attribute names.
    InvalidAttributeName(String),
    /// A stack-map frame type in the unassigned range 128..=246.
    InvalidFrameType,
    /// A stack-map frame whose shape is not the one its frame type implies.
    MismatchFrameType(u8),
    /// A verification type tag above 8.
    InvalidVerificationTypeInfo,
    /// An element value whose tag is none of the known tag characters.
    InvalidElementValueTag(char),
    /// An element value whose shape is not the one its tag implies.
    InvalidElementValue,
    /// A type annotation whose target type is not assigned.
    InvalidTargetType(u8),
    /// A type annotation whose target info is not the one its target type implies.
    InvalidTargetInfo,
}

/// The model of an [`Error`]: texts are sequences of characters.
pub enum ErrorView {
    InvalidLength,
    InvalidMagic,
    InvalidString(Seq<char>),
    InvalidConstantTag(u8),
    MismatchConstantType,
    InvalidAttributeName(Seq<char>),
    InvalidFrameType,
    MismatchFrameType(u8),
    InvalidVerificationTypeInfo,
    InvalidElementValueTag(char),
    InvalidElementValue,
    InvalidTargetType(u8),
    InvalidTargetInfo,
}

impl View for Error {
    type V = ErrorView;

    open spec fn view(&self) -> ErrorView {
        match *self {
            Error::InvalidLength => ErrorView::InvalidLength,
            Error::InvalidMagic => ErrorView::InvalidMagic,
            Error::InvalidString(text) => ErrorView::InvalidString(text@),
            Error::InvalidConstantTag(tag) => ErrorView::InvalidConstantTag(tag),
            Error::MismatchConstantType => ErrorView::MismatchConstantType,
            Error::InvalidAttributeName(name) => ErrorView::InvalidAttributeName(name@),
            Error::InvalidFrameType => ErrorView::InvalidFrameType,
            Error::MismatchFrameType(frame_type) => ErrorView::MismatchFrameType(frame_type),
            Error::InvalidVerificationTypeInfo => ErrorView::InvalidVerificationTypeInfo,
            Error::InvalidElementValueTag(tag) => ErrorView::InvalidElementValueTag(tag),
            Error::InvalidElementValue => ErrorView::InvalidElementValue,
            Error::InvalidTargetType(target_type) => ErrorView::InvalidTargetType(target_type),
            Error::InvalidTargetInfo => ErrorView::InvalidTargetInfo,
        }
    }
}

} // verus!
