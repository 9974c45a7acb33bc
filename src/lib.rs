//! Decoding of the machine-readable zone (MRZ) printed on travel documents.
//!
//! The library classifies raw MRZ lines into a layout (TD3 passports, TD1
//! identity cards), decodes their fixed-offset fields, validates the ICAO 9303
//! check digits, and repairs document numbers that fail their check digit
//! because of common OCR confusions.

pub mod bridge;
pub mod checked_field;
pub mod checksum;
pub mod document;
pub mod field_correction;
pub mod field_validators;
pub mod host;
pub mod ocr;
pub mod parser;
pub mod passport;

pub use checked_field::CheckedField;
pub use document::{MrzIcao, MrzIcaoCommonFields, MrzIcaoTd1, MrzIcaoTd3, ParsedMRZ};

use vstd::prelude::*;
use parser::{format_of, parsed_from};
use vstd::string::StringSliceAdditionalSpecFns;

verus! {

/// The field whose check digit failed.
#[derive(Debug, Clone, Copy, PartialEq, Eq, Structural)]
pub enum MRZChecksumError {
    /// Document number check digit.
    DocumentNumber,
    /// Birth date check digit.
    BirthDate,
    /// Expiry date check digit.
    ExpiryDate,
    /// Composite check digit over several fields.
    Final,
}

/// The name of a checksum error kind, as text.
pub open spec fn checksum_error_name(e: MRZChecksumError) -> Seq<char> {
    match e {
        MRZChecksumError::DocumentNumber => "DocumentNumber"@,
        MRZChecksumError::BirthDate => "BirthDate"@,
        MRZChecksumError::ExpiryDate => "ExpiryDate"@,
        MRZChecksumError::Final => "Final"@,
    }
}

impl MRZChecksumError {
    /// The variant's name: `"DocumentNumber"`, `"BirthDate"`, `"ExpiryDate"`
    /// or `"Final"`.
    pub fn as_str(&self) -> (r: &'static str)
        ensures
            r@ == checksum_error_name(*self),
    {
        match self {
            MRZChecksumError::DocumentNumber => "DocumentNumber",
            MRZChecksumError::BirthDate => "BirthDate",
            MRZChecksumError::ExpiryDate => "ExpiryDate",
            MRZChecksumError::Final => "Final",
        }
    }
}

/// Errors of MRZ decoding.
#[derive(Debug, Clone, Copy, PartialEq, Eq, Structural)]
pub enum MRZParseError {
    /// The line count or a line width does not fit the layout.
    InvalidLength,
    /// A field failed its check digit (and, where tried, OCR repair failed).
    InvalidChecksumField(MRZChecksumError),
    /// No layout was recognised.
    UnknownFormat,
    /// The layout was recognised but is not decoded.
    UnsupportedFormat,
    /// Bytes could not be read as text.
    Utf8Error,
}

impl MRZParseError {
    /// The error for a field whose check digit failed.
    pub fn from_checksum(kind: MRZChecksumError) -> (r: MRZParseError)
        ensures
            r == MRZParseError::InvalidChecksumField(kind),
    {
        MRZParseError::InvalidChecksumField(kind)
    }
}

/// MRZ layouts.
#[derive(Debug, Clone, Copy, PartialEq, Eq, Structural)]
pub enum MRZFormat {
    /// Two lines of 44 characters (passports).
    MrzIcaoTd3,
    /// Three lines of 30 characters (identity cards).
    MrzIcaoTd1,
    /// Bar-coded boarding pass.
    BCBP,
    /// Not recognised.
    Unknown,
}

/// The line feed.
pub const LINE_FEED: u8 = 0x0a;
/// The carriage return.
pub const CARRIAGE_RETURN: u8 = 0x0d;

/// The position of the first line feed in `s`, or `s.len()`.
pub open spec fn newline_index(s: Seq<u8>) -> int
    decreases s.len(),
{
    if s.len() == 0 || s[0] == LINE_FEED {
        0
    } else {
        1 + newline_index(s.drop_first())
    }
}

/// `l` without one trailing carriage return.
pub open spec fn strip_carriage_return(l: Seq<u8>) -> Seq<u8> {
    if l.len() > 0 && l.last() == CARRIAGE_RETURN {
        l.drop_last()
    } else {
        l
    }
}

/// The lines of `s`: split at line feeds, each line without a trailing
/// carriage return, and no empty line after a final line feed.
pub open spec fn lines_of(s: Seq<u8>) -> Seq<Seq<u8>>
    decreases s.len(),
{
    if s.len() == 0 {
        Seq::empty()
    } else {
        let i = newline_index(s);
        if i < 0 || i >= s.len() {
            seq![strip_carriage_return(s)]
        } else {
            seq![strip_carriage_return(s.subrange(0, i))] + lines_of(s.subrange(i + 1, s.len() as int))
        }
    }
}

proof fn lemma_newline_index_bounds(s: Seq<u8>)
    ensures
        0 <= newline_index(s) <= s.len(),
        newline_index(s) < s.len() ==> s[newline_index(s)] == LINE_FEED,
        forall|k: int| 0 <= k < newline_index(s) ==> s[k] != LINE_FEED,
    decreases s.len(),
{
    if s.len() > 0 && s[0] != LINE_FEED {
        lemma_newline_index_bounds(s.drop_first());
        assert forall|k: int| 0 <= k < newline_index(s) implies s[k] != LINE_FEED by {
            if k > 0 {
                assert(s[k] == s.drop_first()[k - 1]);
            }
        }
    }
}

proof fn lemma_newline_index_step(s: Seq<u8>, j: int)
    requires
        0 <= j < s.len(),
        s[j] != LINE_FEED,
    ensures
        newline_index(s.subrange(j, s.len() as int)) == 1 + newline_index(
            s.subrange(j + 1, s.len() as int),
        ),
{
    assert(s.subrange(j, s.len() as int).drop_first() =~= s.subrange(j + 1, s.len() as int));
}

/// Splits `input` into lines (see `lines_of`).
pub fn split_lines(input: &[u8]) -> (r: Vec<&[u8]>)
    ensures
        parser::lines_view(r@) == lines_of(input@),
{
    let mut out: Vec<&[u8]> = Vec::new();
    let mut pos: usize = 0;
    let n = input.len();
    assert(input@.subrange(0, n as int) =~= input@);
    assert(parser::lines_view(out@) =~= Seq::<Seq<u8>>::empty());
    while pos < n
        invariant
            n == input@.len(),
            pos <= n,
            parser::lines_view(out@) + lines_of(input@.subrange(pos as int, n as int)) == lines_of(
                input@,
            ),
        decreases n - pos,
    {
        let ghost rest = input@.subrange(pos as int, n as int);
        let mut j: usize = pos;
        while j < n && input[j] != LINE_FEED
            invariant
                n == input@.len(),
                pos <= j <= n,
                rest == input@.subrange(pos as int, n as int),
                newline_index(rest) == (j - pos) + newline_index(input@.subrange(j as int, n as int)),
            decreases n - j,
        {
            proof {
                lemma_newline_index_step(input@, j as int);
            }
            j = j + 1;
        }
        proof {
            lemma_newline_index_bounds(rest);
            if j < n {
                assert(input@.subrange(j as int, n as int)[0] == LINE_FEED);
            }
            assert(newline_index(rest) == j - pos);
        }
        let mut end: usize = j;
        if end > pos && input[end - 1] == CARRIAGE_RETURN {
            end = end - 1;
        }
        let line: &[u8] = &input[pos..end];
        proof {
            assert(rest.subrange(0, j - pos) =~= input@.subrange(pos as int, j as int));
            assert(line@ == strip_carriage_return(rest.subrange(0, j - pos))) by {
                if j > pos && input@[j - 1] == CARRIAGE_RETURN {
                    assert(rest.subrange(0, j - pos).drop_last() =~= line@);
                } else {
                    assert(rest.subrange(0, j - pos) =~= line@);
                }
            }
        }
        let ghost before = out@;
        out.push(line);
        proof {
            assert(parser::lines_view(out@) =~= parser::lines_view(before).push(line@));
            if j < n {
                assert(rest.subrange(j - pos + 1, rest.len() as int) =~= input@.subrange(
                    j as int + 1,
                    n as int,
                ));
                assert(lines_of(rest) == seq![line@] + lines_of(input@.subrange(j as int + 1, n as int)));
                assert(parser::lines_view(out@) + lines_of(input@.subrange(j as int + 1, n as int))
                    =~= parser::lines_view(before) + lines_of(rest));
            } else {
                assert(rest.subrange(0, j - pos) =~= rest);
                assert(lines_of(rest) == seq![line@]);
                assert(input@.subrange(n as int, n as int) =~= Seq::<u8>::empty());
                assert(parser::lines_view(out@) + lines_of(input@.subrange(n as int, n as int))
                    =~= parser::lines_view(before) + lines_of(rest));
            }
        }
        pos = if j < n {
            j + 1
        } else {
            n
        };
    }
    proof {
        assert(input@.subrange(pos as int, n as int) =~= Seq::<u8>::empty());
        assert(parser::lines_view(out@) + Seq::<Seq<u8>>::empty() =~= parser::lines_view(out@));
    }
    out
}

/// Detects the layout of MRZ text given as lines.
pub fn detect_format(input: &str) -> (r: MRZFormat)
    ensures
        r == format_of(lines_of(input.spec_bytes())),
{
    let lines = split_lines(input.as_bytes());
    parser::detect_format(lines.as_slice())
}

/// Decodes MRZ text given as lines (see `parser::parse_any`).
pub fn parse_any(input: &str) -> (r: Result<ParsedMRZ, MRZParseError>)
    ensures
        parsed_from(lines_of(input.spec_bytes()), r),
{
    let lines = split_lines(input.as_bytes());
    parser::parse_any(lines.as_slice())
}

} // verus!
