//! A strict TD3 (passport) parser over text lines: every field is checked
//! for its character class, the document number and dates for their check
//! digits, and optionally the composite check digit.

use crate::field_validators::{
    all_digits, all_mrz_alnum, all_upper, calculate_mrz_checksum, digit_of, is_valid_alphanumeric,
    is_valid_numeric, is_valid_uppercase, lenient_sum, normalize_field, trim_of, trim_text,
    uppercase_of,
};
use vstd::prelude::*;
use vstd::string::*;

verus! {

/// Parsing options.
#[derive(Debug, Clone, Copy)]
pub struct ParseOptions {
    /// Whether to check the composite check digit of the lower line.
    pub validate_final_checksum: bool,
}

impl Default for ParseOptions {
    /// The composite check digit is not checked by default.
    fn default() -> (r: ParseOptions)
        ensures
            !r.validate_final_checksum,
    {
        ParseOptions { validate_final_checksum: false }
    }
}

/// Errors of the strict parser.
#[derive(Debug, Clone, Copy)]
pub enum MRZParseError {
    /// The input was empty.
    EmptyInput,
    /// The input is not two ASCII lines of 44 characters.
    InvalidFormat,
    /// A field failed its check; the text says which and how.
    FieldError(&'static str),
}

/// The fields of a passport MRZ.
#[derive(Debug)]
pub struct MRZData {
    /// Document type (first character, e.g. `P`).
    pub document_type: String,
    /// Issuing country code.
    pub issuing_country: String,
    /// Surname and given names.
    pub names: (String, String),
    /// Passport number, trimmed and upper-cased.
    pub passport_number: String,
    /// Nationality code.
    pub nationality: String,
    /// Birth date (YYMMDD), trimmed and upper-cased.
    pub birth_date: String,
    /// Sex: `M`, `F` or `<`.
    pub sex: String,
    /// Expiry date (YYMMDD), trimmed and upper-cased.
    pub expiry_date: String,
}

/// `s[i..i+2]` is `<<`.
pub open spec fn text_delimiter_at(s: Seq<char>, i: int) -> bool {
    0 <= i && i + 1 < s.len() && s[i] == '<' && s[i + 1] == '<'
}

/// The first position at or after `i` where `<<` starts, or `s.len()`.
pub open spec fn text_delimiter_from(s: Seq<char>, i: int) -> int
    decreases s.len() - i,
{
    if i + 1 >= s.len() {
        s.len() as int
    } else if text_delimiter_at(s, i) {
        i
    } else {
        text_delimiter_from(s, i + 1)
    }
}

/// `s` with each `<` replaced by a space.
pub open spec fn text_fillers_to_spaces(s: Seq<char>) -> Seq<char> {
    s.map_values(|c: char| if c == '<' { ' ' } else { c })
}

/// Surname and given names of a name field: the text before and after the
/// first `<<`, fillers turned to spaces and surrounding whitespace trimmed.
/// `None` when the field holds no `<<`.
pub open spec fn names_of(field: Seq<char>) -> Option<(Seq<char>, Seq<char>)> {
    let d = text_delimiter_from(field, 0);
    if d < field.len() {
        Some(
            (
                trim_of(text_fillers_to_spaces(field.subrange(0, d))),
                trim_of(text_fillers_to_spaces(field.subrange(d + 2, field.len() as int))),
            ),
        )
    } else {
        None
    }
}

/// The error for a passport number field and its check character, if any.
pub open spec fn passport_number_error(field: Seq<char>, c: char) -> Option<MRZParseError> {
    if !all_mrz_alnum(field) {
        Some(MRZParseError::FieldError("Invalid passport number characters"))
    } else if digit_of(c) is None {
        Some(MRZParseError::FieldError("Invalid passport number checksum character"))
    } else if lenient_sum(field) % 10 != digit_of(c)->0 {
        Some(MRZParseError::FieldError("Passport number checksum mismatch"))
    } else {
        None
    }
}

/// The error for a numeric field and its check character, if any.
pub open spec fn numeric_field_error(field: Seq<char>, c: char) -> Option<MRZParseError> {
    if !all_digits(field) {
        Some(MRZParseError::FieldError("Invalid numeric field characters"))
    } else if digit_of(c) is None {
        Some(MRZParseError::FieldError("Invalid checksum character"))
    } else if lenient_sum(field) % 10 != digit_of(c)->0 {
        Some(MRZParseError::FieldError("Field checksum mismatch"))
    } else {
        None
    }
}

/// The composite span of the lower line: passport number and check digit,
/// birth date and check digit, expiry date through the personal number's
/// check digit.
pub open spec fn final_span(l2: Seq<char>) -> Seq<char> {
    l2.subrange(0, 10) + l2.subrange(13, 20) + l2.subrange(21, 43)
}

/// The error for the composite check digit of the lower line, if any.
pub open spec fn final_checksum_error(l2: Seq<char>) -> Option<MRZParseError> {
    if digit_of(l2[43]) is None {
        Some(MRZParseError::FieldError("Invalid final checksum character"))
    } else if lenient_sum(final_span(l2)) % 10 != digit_of(l2[43])->0 {
        Some(MRZParseError::FieldError("Final checksum mismatch"))
    } else {
        None
    }
}

/// The first failing check of two 44-character lines, in field order.
pub open spec fn strict_error(l1: Seq<char>, l2: Seq<char>, validate_final: bool) -> Option<
    MRZParseError,
> {
    if !all_mrz_alnum(l1.subrange(0, 1)) {
        Some(MRZParseError::FieldError("Invalid document type"))
    } else if !all_upper(l1.subrange(2, 5)) {
        Some(MRZParseError::FieldError("Invalid issuing country"))
    } else if names_of(l1.subrange(5, 44)) is None {
        Some(MRZParseError::FieldError("Missing given names"))
    } else if passport_number_error(l2.subrange(0, 9), l2[9]) is Some {
        passport_number_error(l2.subrange(0, 9), l2[9])
    } else if !all_upper(l2.subrange(10, 13)) {
        Some(MRZParseError::FieldError("Invalid nationality"))
    } else if numeric_field_error(l2.subrange(13, 19), l2[19]) is Some {
        numeric_field_error(l2.subrange(13, 19), l2[19])
    } else if !(l2[20] == 'M' || l2[20] == 'F' || l2[20] == '<') {
        Some(MRZParseError::FieldError("Invalid sex field"))
    } else if numeric_field_error(l2.subrange(21, 27), l2[27]) is Some {
        numeric_field_error(l2.subrange(21, 27), l2[27])
    } else if validate_final && final_checksum_error(l2) is Some {
        final_checksum_error(l2)
    } else {
        None
    }
}

/// `d` holds the fields of the lines `l1`, `l2`.
pub open spec fn data_of(l1: Seq<char>, l2: Seq<char>, d: MRZData) -> bool {
    &&& d.document_type@ == l1.subrange(0, 1)
    &&& d.issuing_country@ == l1.subrange(2, 5)
    &&& names_of(l1.subrange(5, 44)) == Some((d.names.0@, d.names.1@))
    &&& d.passport_number@ == uppercase_of(trim_of(l2.subrange(0, 9)))
    &&& d.nationality@ == l2.subrange(10, 13)
    &&& d.birth_date@ == uppercase_of(trim_of(l2.subrange(13, 19)))
    &&& d.sex@ == l2.subrange(20, 21)
    &&& d.expiry_date@ == uppercase_of(trim_of(l2.subrange(21, 27)))
}

/// `r` is the outcome of strictly parsing `lines`.
pub open spec fn strict_outcome(
    lines: Seq<&str>,
    options: ParseOptions,
    r: Result<MRZData, MRZParseError>,
) -> bool {
    if lines.len() != 2 || lines[0].len() != 44 || lines[1].len() != 44 || !is_ascii(lines[0]) || !is_ascii(lines[1]) {
        r is Err && r->Err_0 == MRZParseError::InvalidFormat
    } else {
        match strict_error(lines[0]@, lines[1]@, options.validate_final_checksum) {
            Some(e) => r is Err && r->Err_0 == e,
            None => r matches Ok(d) && data_of(lines[0]@, lines[1]@, d),
        }
    }
}

/// Relies on `str::replace`: every `<` replaced by a space.
#[verifier::external_body]
fn replace_fillers(s: &str) -> (r: String)
    ensures
        r@ == text_fillers_to_spaces(s@),
{
    s.replace('<', " ")
}

/// Splits a name field at its first `<<` into surname and given names,
/// turning `<` into spaces and trimming each; fails when there is no `<<`.
pub fn parse_names(name_field: &str) -> (r: Result<(String, String), MRZParseError>)
    ensures
        match names_of(name_field@) {
            Some(n) => r matches Ok(p) && p.0@ == n.0 && p.1@ == n.1,
            None => r is Err && r->Err_0 == MRZParseError::FieldError("Missing given names"),
        },
{
    let n = name_field.unicode_len();
    let mut i: usize = 0;
    while i < n && i + 1 < n && !(name_field.get_char(i) == '<' && name_field.get_char(i + 1)
        == '<')
        invariant
            n == name_field@.len(),
            i <= n,
            text_delimiter_from(name_field@, i as int) == text_delimiter_from(name_field@, 0),
        decreases n - i,
    {
        i = i + 1;
    }
    if !(i < n && i + 1 < n) {
        return Err(MRZParseError::FieldError("Missing given names"));
    }
    let surname = replace_fillers(name_field.substring_char(0, i));
    let given = replace_fillers(name_field.substring_char(i + 2, n));
    Ok((trim_text(surname.as_str()), trim_text(given.as_str())))
}

/// Checks a passport number field against its check character and returns
/// it trimmed and upper-cased.
pub fn validate_passport_number(field: &str, checksum_char: char) -> (r: Result<
    String,
    MRZParseError,
>)
    ensures
        match passport_number_error(field@, checksum_char) {
            Some(e) => r is Err && r->Err_0 == e,
            None => r matches Ok(s) && s@ == uppercase_of(trim_of(field@)),
        },
{
    if !is_valid_alphanumeric(field) {
        return Err(MRZParseError::FieldError("Invalid passport number characters"));
    }
    if !('0' <= checksum_char && checksum_char <= '9') {
        return Err(MRZParseError::FieldError("Invalid passport number checksum character"));
    }
    let expected = checksum_char as u32 - '0' as u32;
    if calculate_mrz_checksum(field) != expected {
        return Err(MRZParseError::FieldError("Passport number checksum mismatch"));
    }
    Ok(normalize_field(field))
}

/// Checks that a field is numeric and matches its check character.
pub fn validate_numeric_field_with_checksum(field: &str, checksum_char: char) -> (r: Result<
    (),
    MRZParseError,
>)
    ensures
        match numeric_field_error(field@, checksum_char) {
            Some(e) => r is Err && r->Err_0 == e,
            None => r is Ok,
        },
{
    if !is_valid_numeric(field) {
        return Err(MRZParseError::FieldError("Invalid numeric field characters"));
    }
    if !('0' <= checksum_char && checksum_char <= '9') {
        return Err(MRZParseError::FieldError("Invalid checksum character"));
    }
    let expected = checksum_char as u32 - '0' as u32;
    if calculate_mrz_checksum(field) != expected {
        return Err(MRZParseError::FieldError("Field checksum mismatch"));
    }
    Ok(())
}

/// Checks the composite check digit (position 43) of a 44-character lower
/// line.
pub fn validate_final_checksum(line2: &str) -> (r: Result<(), MRZParseError>)
    requires
        line2.is_ascii(),
        line2@.len() >= 44,
    ensures
        match final_checksum_error(line2@) {
            Some(e) => r is Err && r->Err_0 == e,
            None => r is Ok,
        },
{
    let mut data = String::from_str(line2.substring_ascii(0, 10));
    data.append(line2.substring_ascii(13, 20));
    data.append(line2.substring_ascii(21, 43));
    assert(data@ =~= final_span(line2@));
    let c = line2.get_char(43);
    if !('0' <= c && c <= '9') {
        return Err(MRZParseError::FieldError("Invalid final checksum character"));
    }
    let expected = c as u32 - '0' as u32;
    if calculate_mrz_checksum(data.as_str()) == expected {
        Ok(())
    } else {
        Err(MRZParseError::FieldError("Final checksum mismatch"))
    }
}

/// Strictly parses two TD3 lines: both must be 44 ASCII characters; every
/// field is checked in order (document type, issuing country, names,
/// passport number and its check digit, nationality, birth date and its
/// check digit, sex, expiry date and its check digit, and, if `options` asks,
/// the composite check digit) and the first failure is returned.
pub fn parse_td3_mrz_strict(lines: &[&str], options: ParseOptions) -> (r: Result<
    MRZData,
    MRZParseError,
>)
    ensures
        strict_outcome(lines@, options, r),
{
    if lines.len() != 2 {
        return Err(MRZParseError::InvalidFormat);
    }
    let line1: &str = lines[0];
    let line2: &str = lines[1];
    if line1.len() != 44 || line2.len() != 44 {
        return Err(MRZParseError::InvalidFormat);
    }
    if !line1.is_ascii() || !line2.is_ascii() {
        return Err(MRZParseError::InvalidFormat);
    }
    proof {
        vstd::string::is_ascii_spec_bytes(line1);
        vstd::string::is_ascii_spec_bytes(line2);
    }
    let ghost l1 = line1@;
    let ghost l2 = line2@;
    let document_type = line1.substring_ascii(0, 1);
    if !is_valid_alphanumeric(document_type) {
        return Err(MRZParseError::FieldError("Invalid document type"));
    }
    let issuing_country = line1.substring_ascii(2, 5);
    if !is_valid_uppercase(issuing_country) {
        return Err(MRZParseError::FieldError("Invalid issuing country"));
    }
    let names = match parse_names(line1.substring_ascii(5, 44)) {
        Ok(n) => n,
        Err(e) => return Err(e),
    };
    let passport_number_raw = line2.substring_ascii(0, 9);
    let passport_number = match validate_passport_number(passport_number_raw, line2.get_char(9)) {
        Ok(p) => p,
        Err(e) => return Err(e),
    };
    let nationality = line2.substring_ascii(10, 13);
    if !is_valid_uppercase(nationality) {
        return Err(MRZParseError::FieldError("Invalid nationality"));
    }
    let birth_date_raw = line2.substring_ascii(13, 19);
    match validate_numeric_field_with_checksum(birth_date_raw, line2.get_char(19)) {
        Ok(()) => {},
        Err(e) => return Err(e),
    }
    let sex = line2.substring_ascii(20, 21);
    let sex_char = line2.get_char(20);
    if !(sex_char == 'M' || sex_char == 'F' || sex_char == '<') {
        return Err(MRZParseError::FieldError("Invalid sex field"));
    }
    let expiry_date_raw = line2.substring_ascii(21, 27);
    match validate_numeric_field_with_checksum(expiry_date_raw, line2.get_char(27)) {
        Ok(()) => {},
        Err(e) => return Err(e),
    }
    if options.validate_final_checksum {
        match validate_final_checksum(line2) {
            Ok(()) => {},
            Err(e) => return Err(e),
        }
    }
    Ok(
        MRZData {
            document_type: String::from_str(document_type),
            issuing_country: String::from_str(issuing_country),
            names,
            passport_number,
            nationality: String::from_str(nationality),
            birth_date: normalize_field(birth_date_raw),
            sex: String::from_str(sex),
            expiry_date: normalize_field(expiry_date_raw),
        },
    )
}

/// Parses passport lines with the default options (no composite check).
pub fn parse_mrz(lines: &[&str]) -> (r: Result<MRZData, MRZParseError>)
    ensures
        strict_outcome(lines@, ParseOptions { validate_final_checksum: false }, r),
{
    let options = ParseOptions::default();
    parse_mrz_with_options(lines, options)
}

/// Parses passport lines with `options`: two lines, the first of 44 bytes,
/// go to the strict TD3 parser; anything else is `InvalidFormat`.
pub fn parse_mrz_with_options(lines: &[&str], options: ParseOptions) -> (r: Result<
    MRZData,
    MRZParseError,
>)
    ensures
        strict_outcome(lines@, options, r),
{
    if lines.len() == 2 && lines[0].len() == 44 {
        parse_td3_mrz_strict(lines, options)
    } else {
        Err(MRZParseError::InvalidFormat)
    }
}

} // verus!
