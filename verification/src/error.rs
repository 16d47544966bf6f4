//! Decoding and setup errors.
//!
//! Every failure is returned, never swallowed, and carries enough context
//! (type name, tag, expected and actual shape) to be surfaced to a caller
//! without backend-specific detail.

use vstd::prelude::*;

use crate::tags::SpecTag;
use crate::tags::TagValue;
use crate::tags::view_tag;
use crate::value::TypeHint;

verus! {

/// A decoding or setup failure.
#[derive(Debug, PartialEq, Eq)]
pub enum DecodeError {
    /// A scalar or shape expectation was violated.
    TypeMismatch { expected: TypeHint, actual: TypeHint },
    /// Two members of one type resolve to the same tag (setup-time).
    DuplicateTag { owner: String, tag: TagValue },
    /// A required tagged field was absent and has no default.
    ExpectedTag { owner: String, tag: TagValue },
    /// A packed cursor was exhausted before every position was filled.
    ExpectedPackValue,
    /// An unknown field tag could not be skipped.
    InvalidFieldTag { owner: String, tag: TagValue },
    /// An unknown field tag inside a matched variant could not be skipped.
    InvalidVariantFieldTag { owner: String, variant_tag: TagValue, field_tag: TagValue },
    /// An unknown variant tag, and no fallback variant is declared.
    InvalidVariantTag { owner: String, tag: TagValue },
    /// A zero-variant enum can decode nothing.
    Uninhabitable { owner: String },
    /// A fixed-size byte array did not match the length of the input bytes.
    ArrayOutOfBounds,
    /// A transparent type must have exactly one member (setup-time).
    InvalidTransparent { owner: String },
    /// A member of a packed body may not carry a default (setup-time).
    DefaultInPacked { owner: String },
    /// A fallback variant must be empty, and only one may exist (setup-time).
    InvalidFallback { owner: String },
    /// An enum may not itself be packed (setup-time).
    PackedEnum { owner: String },
}

/// The ghost image of a failure.
pub enum SpecError {
    TypeMismatch { expected: TypeHint, actual: TypeHint },
    DuplicateTag { owner: Seq<char>, tag: SpecTag },
    ExpectedTag { owner: Seq<char>, tag: SpecTag },
    ExpectedPackValue,
    InvalidFieldTag { owner: Seq<char>, tag: SpecTag },
    InvalidVariantFieldTag { owner: Seq<char>, variant_tag: SpecTag, field_tag: SpecTag },
    InvalidVariantTag { owner: Seq<char>, tag: SpecTag },
    Uninhabitable { owner: Seq<char> },
    ArrayOutOfBounds,
    InvalidTransparent { owner: Seq<char> },
    DefaultInPacked { owner: Seq<char> },
    InvalidFallback { owner: Seq<char> },
    PackedEnum { owner: Seq<char> },
}

/// The ghost image of one failure.
pub open spec fn view_error(e: DecodeError) -> SpecError {
    match e {
        DecodeError::TypeMismatch { expected, actual } => (SpecError::TypeMismatch {
            expected,
            actual,
        }),
        DecodeError::DuplicateTag { owner, tag } => (SpecError::DuplicateTag {
            owner: owner@,
            tag: view_tag(tag),
        }),
        DecodeError::ExpectedTag { owner, tag } => (SpecError::ExpectedTag {
            owner: owner@,
            tag: view_tag(tag),
        }),
        DecodeError::ExpectedPackValue => SpecError::ExpectedPackValue,
        DecodeError::InvalidFieldTag { owner, tag } => (SpecError::InvalidFieldTag {
            owner: owner@,
            tag: view_tag(tag),
        }),
        DecodeError::InvalidVariantFieldTag { owner, variant_tag, field_tag } => (
        SpecError::InvalidVariantFieldTag {
            owner: owner@,
            variant_tag: view_tag(variant_tag),
            field_tag: view_tag(field_tag),
        }),
        DecodeError::InvalidVariantTag { owner, tag } => (SpecError::InvalidVariantTag {
            owner: owner@,
            tag: view_tag(tag),
        }),
        DecodeError::Uninhabitable { owner } => (SpecError::Uninhabitable {
            owner: owner@,
        }),
        DecodeError::ArrayOutOfBounds => SpecError::ArrayOutOfBounds,
        DecodeError::InvalidTransparent { owner } => (SpecError::InvalidTransparent {
            owner: owner@,
        }),
        DecodeError::DefaultInPacked { owner } => (SpecError::DefaultInPacked {
            owner: owner@,
        }),
        DecodeError::InvalidFallback { owner } => (SpecError::InvalidFallback {
            owner: owner@,
        }),
        DecodeError::PackedEnum { owner } => (SpecError::PackedEnum { owner: owner@ }),
    }
}

/// The ghost image of a result whose error is a failure and whose success
/// carries a plain value.
pub open spec fn view_plain_result<T>(r: Result<T, DecodeError>) -> Result<T, SpecError> {
    match r {
        Ok(v) => Ok(v),
        Err(e) => Err(view_error(e)),
    }
}

} // verus!
