//! Flat result and error types for callers in other languages.

use crate::{checksum_error_name, MRZParseError as DecodeError};
use vstd::prelude::*;
use vstd::string::*;

verus! {

/// A decoded document as plain strings.
#[derive(Debug, Clone)]
pub struct MrzResult {
    /// Document code.
    pub document_type: String,
    /// Document number.
    pub document_number: String,
    /// Surname and given names.
    pub name: String,
    /// Nationality.
    pub nationality: String,
    /// Birth date (YYYY-MM-DD), empty when not a calendar date.
    pub birth_date: String,
    /// Sex.
    pub sex: String,
    /// Expiry date (YYYY-MM-DD), empty when not a calendar date.
    pub expiry_date: String,
    /// Optional data field 1.
    pub optional_data1: String,
    /// Optional data field 2.
    pub optional_data2: String,
    /// Issuing state.
    pub issuing_state: String,
    /// Given names.
    pub given_names: String,
    /// Surname.
    pub surname: String,
}

/// Decoding errors, the failing field named in text.
#[derive(Debug, Clone)]
pub enum MrzParseError {
    /// The line count or a line width does not fit the layout.
    InvalidLength,
    /// The named field failed its check digit.
    InvalidChecksumField(String),
    /// No layout was recognised.
    UnknownFormat,
    /// The layout was recognised but is not decoded.
    UnsupportedFormat,
    /// Bytes could not be read as text.
    Utf8Error,
}

/// The flat error for a decoding error.
pub open spec fn flat_error(e: DecodeError, f: MrzParseError) -> bool {
    match e {
        DecodeError::InvalidLength => f is InvalidLength,
        DecodeError::InvalidChecksumField(k) => f matches MrzParseError::InvalidChecksumField(s)
            && s@ == checksum_error_name(k),
        DecodeError::UnknownFormat => f is UnknownFormat,
        DecodeError::UnsupportedFormat => f is UnsupportedFormat,
        DecodeError::Utf8Error => f is Utf8Error,
    }
}

impl MrzParseError {
    /// The flat form of a decoding error.
    pub fn from_decode_error(e: DecodeError) -> (r: MrzParseError)
        ensures
            flat_error(e, r),
    {
        match e {
            DecodeError::InvalidLength => MrzParseError::InvalidLength,
            DecodeError::InvalidChecksumField(kind) => MrzParseError::InvalidChecksumField(
                String::from_str(kind.as_str()),
            ),
            DecodeError::UnknownFormat => MrzParseError::UnknownFormat,
            DecodeError::UnsupportedFormat => MrzParseError::UnsupportedFormat,
            DecodeError::Utf8Error => MrzParseError::Utf8Error,
        }
    }
}

} // verus!
