//! Host-side presentation of decoded documents: calendar dates from the raw
//! YYMMDD fields (with century windowing), text fields without their filler
//! padding, and one record shape for both layouts.

use crate::checksum::{DIGIT_NINE, DIGIT_ZERO, FILLER};
use crate::document::{given_names_of, surname_of, MrzIcao, ParsedMRZ, ICAO_COMMON_DATE_LEN};
use crate::parser::{lines_view, parse_any, parsed_from};
use crate::{MRZChecksumError, MRZParseError};
use vstd::prelude::*;
use vstd::string::*;
use vstd::utf8::{decode_utf8, valid_utf8};

verus! {

/// A calendar date.
#[derive(Debug, Clone, Copy, PartialEq, Eq, Structural)]
pub struct CalendarDate {
    /// Year.
    pub year: i32,
    /// Month, 1 to 12.
    pub month: u8,
    /// Day of the month, from 1.
    pub day: u8,
}

/// A leap year of the proleptic Gregorian calendar.
pub open spec fn is_leap_year(y: int) -> bool {
    y % 4 == 0 && (y % 100 != 0 || y % 400 == 0)
}

/// The number of days of month `m` in year `y`.
pub open spec fn days_in_month(y: int, m: int) -> int {
    if m == 2 {
        if is_leap_year(y) {
            29
        } else {
            28
        }
    } else if m == 4 || m == 6 || m == 9 || m == 11 {
        30
    } else {
        31
    }
}

/// `y-m-d` names a day of the proleptic Gregorian calendar.
pub open spec fn is_calendar_date(y: int, m: int, d: int) -> bool {
    1 <= m <= 12 && 1 <= d <= days_in_month(y, m)
}

/// Relies on `time::Month::try_from` (months 1 to 12) and
/// `time::Date::from_calendar_date`, which accepts a year within ±9999 and
/// a day that exists in that month of that year.
#[verifier::external_body]
fn calendar_date_exists(year: i32, month: u8, day: u8) -> (r: bool)
    requires
        -9999 <= year <= 9999,
    ensures
        r == is_calendar_date(year as int, month as int, day as int),
{
    match time::Month::try_from(month) {
        Ok(m) => time::Date::from_calendar_date(year, m, day).is_ok(),
        Err(_) => false,
    }
}

/// The character `+`.
pub const PLUS_SIGN: u8 = 0x2b;

/// The number written by two bytes, as an unsigned decimal reading accepts
/// it: two digits, or `+` and one digit.
pub open spec fn two_digit_value(a: u8, b: u8) -> Option<int> {
    if DIGIT_ZERO <= b && b <= DIGIT_NINE {
        if DIGIT_ZERO <= a && a <= DIGIT_NINE {
            Some(10 * (a - DIGIT_ZERO) + (b - DIGIT_ZERO))
        } else if a == PLUS_SIGN {
            Some(b - DIGIT_ZERO)
        } else {
            None
        }
    } else {
        None
    }
}

/// The full year of a two-digit year. With a reference year (read as 1950
/// to 2049), a year that would fall after the reference in the 1900s is
/// taken in the 2000s; without one, 50-99 are the 1900s and 00-49 the 2000s.
pub open spec fn full_year(year: int, reference: Option<int>) -> int {
    match reference {
        Some(r) => {
            let reference_full: int = (if r >= 50 {
                1900int
            } else {
                2000int
            }) + r;
            if 1900 + year > reference_full {
                2000 + year
            } else {
                1900 + year
            }
        },
        None => if year >= 50 {
            1900 + year
        } else {
            2000 + year
        },
    }
}

/// The calendar date of a YYMMDD field, the year windowed against the year
/// of `reference` if given; `None` when a part is not a number or the date
/// does not exist.
pub open spec fn mrz_date(date: Seq<u8>, reference: Option<Seq<u8>>) -> Option<CalendarDate> {
    let y = two_digit_value(date[0], date[1]);
    let m = two_digit_value(date[2], date[3]);
    let d = two_digit_value(date[4], date[5]);
    let r: Option<Option<int>> = match reference {
        Some(rf) => match two_digit_value(rf[0], rf[1]) {
            Some(v) => Some(Some(v)),
            None => None,
        },
        None => Some(None),
    };
    if y is Some && m is Some && d is Some && r is Some {
        let fy = full_year(y->0, r->0);
        if is_calendar_date(fy, m->0, d->0) {
            Some(CalendarDate { year: fy as i32, month: m->0 as u8, day: d->0 as u8 })
        } else {
            None
        }
    } else {
        None
    }
}

fn two_digits(a: u8, b: u8) -> (r: Option<u8>)
    ensures
        match two_digit_value(a, b) {
            Some(v) => r == Some(v as u8) && 0 <= v <= 99,
            None => r is None,
        },
{
    if DIGIT_ZERO <= b && b <= DIGIT_NINE {
        if DIGIT_ZERO <= a && a <= DIGIT_NINE {
            Some(10 * (a - DIGIT_ZERO) + (b - DIGIT_ZERO))
        } else if a == PLUS_SIGN {
            Some(b - DIGIT_ZERO)
        } else {
            None
        }
    } else {
        None
    }
}

/// Converts a YYMMDD field into a calendar date. The two-digit year is
/// expanded against the year of `reference` when given (a birth date is read
/// against the expiry date), otherwise by the 50/50 window.
pub fn parse_mrz_date_with_reference(
    date: &[u8; ICAO_COMMON_DATE_LEN],
    reference: Option<&[u8; ICAO_COMMON_DATE_LEN]>,
) -> (r: Option<CalendarDate>)
    ensures
        r == mrz_date(
            date@,
            match reference {
                Some(rf) => Some(rf@),
                None => None,
            },
        ),
{
    let year = match two_digits(date[0], date[1]) {
        Some(v) => v,
        None => return None,
    };
    let month = match two_digits(date[2], date[3]) {
        Some(v) => v,
        None => return None,
    };
    let day = match two_digits(date[4], date[5]) {
        Some(v) => v,
        None => return None,
    };
    let full_year: i32 = match reference {
        Some(ref_date) => {
            let ref_year = match two_digits(ref_date[0], ref_date[1]) {
                Some(v) => v,
                None => return None,
            };
            let ref_century: i32 = if ref_year >= 50 {
                1900
            } else {
                2000
            };
            let ref_full_year = ref_century + ref_year as i32;
            let candidate = 1900 + year as i32;
            if candidate > ref_full_year {
                2000 + year as i32
            } else {
                candidate
            }
        },
        None => {
            if year >= 50 {
                1900 + year as i32
            } else {
                2000 + year as i32
            }
        },
    };
    if calendar_date_exists(full_year, month, day) {
        Some(CalendarDate { year: full_year, month, day })
    } else {
        None
    }
}

/// `s` without its trailing `<` characters.
pub open spec fn trim_trailing_fillers(s: Seq<char>) -> Seq<char>
    decreases s.len(),
{
    if s.len() > 0 && s.last() == '<' {
        trim_trailing_fillers(s.drop_last())
    } else {
        s
    }
}

/// The display text of a field's bytes: the decoded characters without
/// trailing fillers, or empty text when the bytes are not valid UTF-8.
pub open spec fn field_text(b: Seq<u8>) -> Seq<char> {
    if valid_utf8(b) {
        trim_trailing_fillers(decode_utf8(b))
    } else {
        Seq::empty()
    }
}

/// Relies on `core::str::from_utf8`: it succeeds exactly on valid UTF-8,
/// and the text then holds the decoded characters.
#[verifier::external_body]
fn text_from_bytes(bytes: &[u8]) -> (r: Option<String>)
    ensures
        r is Some <==> valid_utf8(bytes@),
        r matches Some(s) ==> s@ == decode_utf8(bytes@),
{
    match core::str::from_utf8(bytes) {
        Ok(s) => Some(s.to_string()),
        Err(_) => None,
    }
}

/// What `String::from_utf8_lossy` returns on bytes `b`.
pub uninterp spec fn lossy_text_of(b: Seq<u8>) -> Seq<char>;

/// Relies on `String::from_utf8_lossy`: valid UTF-8 is decoded as it is and
/// each invalid sequence becomes U+FFFD; the result depends on the bytes
/// alone.
#[verifier::external_body]
fn lossy_text(bytes: &[u8]) -> (r: String)
    ensures
        r@ == lossy_text_of(bytes@),
        valid_utf8(bytes@) ==> r@ == decode_utf8(bytes@),
{
    String::from_utf8_lossy(bytes).into_owned()
}

/// `s` without its trailing `<` characters.
pub fn parse_str_field(s: &str) -> (r: String)
    ensures
        r@ == trim_trailing_fillers(s@),
{
    let n = s.unicode_len();
    let mut k: usize = n;
    assert(s@.subrange(0, n as int) =~= s@);
    while k > 0 && s.get_char(k - 1) == '<'
        invariant
            n == s@.len(),
            k <= n,
            trim_trailing_fillers(s@.subrange(0, k as int)) == trim_trailing_fillers(s@),
        decreases k,
    {
        assert(s@.subrange(0, k as int).drop_last() =~= s@.subrange(0, k as int - 1));
        k = k - 1;
    }
    String::from_str(s.substring_char(0, k))
}

/// The text of a field's bytes without trailing fillers; empty when the
/// bytes are not valid UTF-8.
pub fn parse_field(bytes: &[u8]) -> (r: String)
    ensures
        r@ == field_text(bytes@),
{
    match text_from_bytes(bytes) {
        Some(text) => parse_str_field(text.as_str()),
        None => String::new(),
    }
}

/// A decoded document of either layout, as display text and calendar dates.
#[derive(Debug)]
pub struct MrzIcaoUnified {
    document_number: String,
    surname: String,
    given_names: String,
    birth_date: Option<CalendarDate>,
    expiry_date: Option<CalendarDate>,
    sex: char,
    optional_data1: String,
    optional_data2: String,
    final_check: Option<bool>,
    nationality: String,
    issuing_state: String,
    document_code: String,
    format: String,
}

/// The decoded document, or none.
#[derive(Debug)]
pub enum MRZ {
    /// A TD1 or TD3 document.
    Icao(MrzIcaoUnified),
    /// No document.
    Unknown,
}

impl MrzIcaoUnified {
    /// The document number.
    pub closed spec fn spec_document_number(&self) -> Seq<char> {
        self.document_number@
    }

    /// The surname.
    pub closed spec fn spec_surname(&self) -> Seq<char> {
        self.surname@
    }

    /// The given names.
    pub closed spec fn spec_given_names(&self) -> Seq<char> {
        self.given_names@
    }

    /// The birth date.
    pub closed spec fn spec_birth_date(&self) -> Option<CalendarDate> {
        self.birth_date
    }

    /// The expiry date.
    pub closed spec fn spec_expiry_date(&self) -> Option<CalendarDate> {
        self.expiry_date
    }

    /// The sex character.
    pub closed spec fn spec_sex(&self) -> char {
        self.sex
    }

    /// Optional data field 1.
    pub closed spec fn spec_optional_data1(&self) -> Seq<char> {
        self.optional_data1@
    }

    /// Optional data field 2.
    pub closed spec fn spec_optional_data2(&self) -> Seq<char> {
        self.optional_data2@
    }

    /// Whether a composite check digit was present and held.
    pub closed spec fn spec_final_check(&self) -> Option<bool> {
        self.final_check
    }

    /// The nationality.
    pub closed spec fn spec_nationality(&self) -> Seq<char> {
        self.nationality@
    }

    /// The issuing state.
    pub closed spec fn spec_issuing_state(&self) -> Seq<char> {
        self.issuing_state@
    }

    /// The document code.
    pub closed spec fn spec_document_code(&self) -> Seq<char> {
        self.document_code@
    }

    /// The layout name.
    pub closed spec fn spec_format(&self) -> Seq<char> {
        self.format@
    }

    /// Assembles a record from its parts.
    pub fn new(
        document_number: String,
        surname: String,
        given_names: String,
        birth_date: Option<CalendarDate>,
        expiry_date: Option<CalendarDate>,
        sex: char,
        optional_data1: String,
        optional_data2: String,
        final_check: Option<bool>,
        nationality: String,
        issuing_state: String,
        document_code: String,
        format: String,
    ) -> (r: Self)
        ensures
            r.spec_document_number() == document_number@,
            r.spec_surname() == surname@,
            r.spec_given_names() == given_names@,
            r.spec_birth_date() == birth_date,
            r.spec_expiry_date() == expiry_date,
            r.spec_sex() == sex,
            r.spec_optional_data1() == optional_data1@,
            r.spec_optional_data2() == optional_data2@,
            r.spec_final_check() == final_check,
            r.spec_nationality() == nationality@,
            r.spec_issuing_state() == issuing_state@,
            r.spec_document_code() == document_code@,
            r.spec_format() == format@,
    {
        MrzIcaoUnified {
            document_number,
            surname,
            given_names,
            birth_date,
            expiry_date,
            sex,
            optional_data1,
            optional_data2,
            final_check,
            nationality,
            issuing_state,
            document_code,
            format,
        }
    }

    /// The document number.
    pub fn document_number(&self) -> (r: &str)
        ensures
            r@ == self.spec_document_number(),
    {
        self.document_number.as_str()
    }

    /// The surname.
    pub fn surname(&self) -> (r: &str)
        ensures
            r@ == self.spec_surname(),
    {
        self.surname.as_str()
    }

    /// The given names.
    pub fn given_names(&self) -> (r: &str)
        ensures
            r@ == self.spec_given_names(),
    {
        self.given_names.as_str()
    }

    /// The birth date, if it is a calendar date.
    pub fn birth_date(&self) -> (r: Option<CalendarDate>)
        ensures
            r == self.spec_birth_date(),
    {
        self.birth_date
    }

    /// The expiry date, if it is a calendar date.
    pub fn expiry_date(&self) -> (r: Option<CalendarDate>)
        ensures
            r == self.spec_expiry_date(),
    {
        self.expiry_date
    }

    /// The sex character.
    pub fn sex(&self) -> (r: char)
        ensures
            r == self.spec_sex(),
    {
        self.sex
    }

    /// Optional data field 1.
    pub fn optional_data1(&self) -> (r: &str)
        ensures
            r@ == self.spec_optional_data1(),
    {
        self.optional_data1.as_str()
    }

    /// Optional data field 2.
    pub fn optional_data2(&self) -> (r: &str)
        ensures
            r@ == self.spec_optional_data2(),
    {
        self.optional_data2.as_str()
    }

    /// Whether a composite check digit was present and held.
    pub fn final_check(&self) -> (r: Option<bool>)
        ensures
            r == self.spec_final_check(),
    {
        self.final_check
    }

    /// The nationality.
    pub fn nationality(&self) -> (r: &str)
        ensures
            r@ == self.spec_nationality(),
    {
        self.nationality.as_str()
    }

    /// The issuing state.
    pub fn issuing_state(&self) -> (r: &str)
        ensures
            r@ == self.spec_issuing_state(),
    {
        self.issuing_state.as_str()
    }

    /// The document code.
    pub fn document_code(&self) -> (r: &str)
        ensures
            r@ == self.spec_document_code(),
    {
        self.document_code.as_str()
    }

    /// The layout name (`TD3` or `TD1`).
    pub fn format(&self) -> (r: &str)
        ensures
            r@ == self.spec_format(),
    {
        self.format.as_str()
    }

    /// Surname and given names separated by a space.
    pub fn full_name(&self) -> (r: String)
        ensures
            r@ == self.spec_surname() + " "@ + self.spec_given_names(),
    {
        let mut name = String::from_str(self.surname.as_str());
        name.append(" ");
        name.append(self.given_names.as_str());
        name
    }

    /// The display record of a decoded document: text fields without their
    /// filler padding, and the given names, dates and sex passed in.
    pub fn from_common_fields<const A: usize, const B: usize, const C: usize>(
        source: &MrzIcao<A, B, C>,
        format: &str,
        surname: &str,
        given_names: &str,
        birth_date: Option<CalendarDate>,
        expiry_date: Option<CalendarDate>,
        sex: char,
    ) -> (r: Self)
        ensures
            unified_fields(*source, format@, surname@, given_names@, r),
            r.spec_birth_date() == birth_date,
            r.spec_expiry_date() == expiry_date,
            r.spec_sex() == sex,
    {
        Self::new(
            parse_field(source.document_number()),
            parse_str_field(surname),
            parse_str_field(given_names),
            birth_date,
            expiry_date,
            sex,
            parse_field(source.optional_data1()),
            parse_field(source.optional_data2()),
            if source.has_final_check() {
                Some(true)
            } else {
                None
            },
            parse_str_field(lossy_text(source.nationality.as_slice()).as_str()),
            parse_str_field(lossy_text(source.issuing_state.as_slice()).as_str()),
            parse_str_field(lossy_text(source.document_code.as_slice()).as_str()),
            String::from_str(format),
        )
    }
}

/// The text fields of `u` are those of `m`, without filler padding; the
/// country and document codes are decoded lossily, the other fields are
/// empty when not valid UTF-8.
pub open spec fn unified_fields<const A: usize, const B: usize, const C: usize>(
    m: MrzIcao<A, B, C>,
    format: Seq<char>,
    surname: Seq<char>,
    given_names: Seq<char>,
    u: MrzIcaoUnified,
) -> bool {
    &&& u.spec_document_number() == field_text(m.document_number@)
    &&& u.spec_surname() == trim_trailing_fillers(surname)
    &&& u.spec_given_names() == trim_trailing_fillers(given_names)
    &&& u.spec_optional_data1() == field_text(m.optional_data1@)
    &&& u.spec_optional_data2() == field_text(m.optional_data2@)
    &&& u.spec_final_check() == (if m.final_check_valid is Some {
        Some(true)
    } else {
        None
    })
    &&& u.spec_nationality() == trim_trailing_fillers(lossy_text_of(m.nationality@))
    &&& u.spec_issuing_state() == trim_trailing_fillers(lossy_text_of(m.issuing_state@))
    &&& u.spec_document_code() == trim_trailing_fillers(lossy_text_of(m.document_code@))
    &&& u.spec_format() == format
}

/// The width host input lines are padded to, by line count: TD3 (2 lines)
/// 44, TD1 (3 lines) 30, a boarding pass (1 line) 60.
pub open spec fn padded_width(count: int) -> int {
    if count == 2 {
        44
    } else if count == 3 {
        30
    } else if count == 1 {
        60
    } else {
        0
    }
}

/// `l` padded with fillers up to `w` bytes.
pub open spec fn pad_line(l: Seq<u8>, w: int) -> Seq<u8> {
    if l.len() >= w {
        l
    } else {
        l + Seq::new((w - l.len()) as nat, |i: int| FILLER)
    }
}

/// The bytes of `lines`, each padded to the width of the layout its count
/// suggests.
pub open spec fn padded_lines(lines: Seq<&str>) -> Seq<Seq<u8>> {
    lines.map_values(|l: &str| pad_line(l.spec_bytes(), padded_width(lines.len() as int)))
}

/// Pads each line with fillers to the width of the layout that the number
/// of lines suggests.
pub fn normalize_lines(lines: &[&str]) -> (r: Vec<Vec<u8>>)
    ensures
        r@.len() == lines@.len(),
        forall|i: int| 0 <= i < r@.len() ==> #[trigger] r@[i]@ == padded_lines(lines@)[i],
{
    let expected_len: usize = if lines.len() == 2 {
        44
    } else if lines.len() == 3 {
        30
    } else if lines.len() == 1 {
        60
    } else {
        0
    };
    let mut out: Vec<Vec<u8>> = Vec::new();
    let mut i: usize = 0;
    while i < lines.len()
        invariant
            i <= lines@.len(),
            expected_len == padded_width(lines@.len() as int),
            out@.len() == i,
            forall|j: int| 0 <= j < i ==> #[trigger] out@[j]@ == padded_lines(lines@)[j],
        decreases lines@.len() - i,
    {
        let line: &str = lines[i];
        let mut bytes = crate::ocr::copy_bytes(line.as_bytes());
        let ghost unpadded = bytes@;
        while bytes.len() < expected_len
            invariant
                unpadded == line.spec_bytes(),
                unpadded.len() >= expected_len ==> bytes@.len() == unpadded.len(),
                unpadded.len() < expected_len ==> bytes@.len() <= expected_len,
                bytes@ == unpadded + Seq::new(
                    (bytes@.len() - unpadded.len()) as nat,
                    |k: int| FILLER,
                ),
                bytes@.len() >= unpadded.len(),
            decreases expected_len - bytes@.len(),
        {
            bytes.push(FILLER);
            assert(bytes@ =~= unpadded + Seq::new(
                (bytes@.len() - unpadded.len()) as nat,
                |k: int| FILLER,
            ));
        }
        proof {
            if unpadded.len() >= expected_len {
                assert(bytes@ =~= unpadded);
            }
        }
        out.push(bytes);
        i = i + 1;
    }
    out
}

/// Fails with the first field whose check did not hold: document number,
/// birth date, expiry date, composite check.
pub fn validate_common_fields<const A: usize, const B: usize, const C: usize>(
    raw: &MrzIcao<A, B, C>,
) -> (r: Result<(), MRZParseError>)
    ensures
        r == (if !raw.document_number_check_valid {
            Err(MRZParseError::InvalidChecksumField(MRZChecksumError::DocumentNumber))
        } else if !raw.birth_date_check_valid {
            Err(MRZParseError::InvalidChecksumField(MRZChecksumError::BirthDate))
        } else if !raw.expiry_date_check_valid {
            Err(MRZParseError::InvalidChecksumField(MRZChecksumError::ExpiryDate))
        } else if raw.final_check_valid == Some(false) {
            Err(MRZParseError::InvalidChecksumField(MRZChecksumError::Final))
        } else {
            Ok(())
        }),
{
    if !raw.is_document_number_valid() {
        return Err(MRZParseError::InvalidChecksumField(MRZChecksumError::DocumentNumber));
    }
    if !raw.is_birth_date_valid() {
        return Err(MRZParseError::InvalidChecksumField(MRZChecksumError::BirthDate));
    }
    if !raw.is_expiry_date_valid() {
        return Err(MRZParseError::InvalidChecksumField(MRZChecksumError::ExpiryDate));
    }
    if raw.is_final_check_valid() == Some(false) {
        return Err(MRZParseError::InvalidChecksumField(MRZChecksumError::Final));
    }
    Ok(())
}

/// `u` presents the decoded document `m` of layout `format`: text without
/// filler padding, the birth date read against the expiry date, and the
/// expiry date by the 50/50 window.
pub open spec fn presents<const A: usize, const B: usize, const C: usize>(
    m: MrzIcao<A, B, C>,
    format: Seq<char>,
    u: MrzIcaoUnified,
) -> bool {
    &&& unified_fields(
        m,
        format,
        field_text(surname_of(m.name@)),
        field_text(given_names_of(m.name@)),
        u,
    )
    &&& u.spec_birth_date() == mrz_date(m.birth_date@, Some(m.expiry_date@))
    &&& u.spec_expiry_date() == mrz_date(m.expiry_date@, None)
    &&& u.spec_sex() == (m.sex as char)
}

fn build_mrz_result<const A: usize, const B: usize, const C: usize>(
    raw: &MrzIcao<A, B, C>,
    format: &str,
) -> (r: MrzIcaoUnified)
    ensures
        presents(*raw, format@, r),
{
    let surname = parse_field(raw.surname().as_slice());
    let given_names = parse_field(raw.given_names().as_slice());
    MrzIcaoUnified::from_common_fields(
        raw,
        format,
        surname.as_str(),
        given_names.as_str(),
        parse_mrz_date_with_reference(raw.birth_date(), Some(raw.expiry_date())),
        parse_mrz_date_with_reference(raw.expiry_date(), None),
        raw.sex() as char,
    )
}

/// Decodes text lines for display: pads each line with fillers to its
/// layout's width, decodes it, and presents the document with calendar
/// dates and text without filler padding.
pub fn parse_lines(lines: &[&str]) -> (r: Result<MRZ, MRZParseError>)
    ensures
        match r {
            Err(e) => parsed_from(padded_lines(lines@), Err(e)),
            Ok(MRZ::Icao(u)) => (exists|m: crate::document::MrzIcaoTd3|
                #[trigger] parsed_from(padded_lines(lines@), Ok(ParsedMRZ::MrzIcaoTd3(m)))
                    && presents(m, "TD3"@, u)) || (exists|m: crate::document::MrzIcaoTd1|
                #[trigger] parsed_from(padded_lines(lines@), Ok(ParsedMRZ::MrzIcaoTd1(m)))
                    && presents(m, "TD1"@, u)),
            Ok(MRZ::Unknown) => parsed_from(padded_lines(lines@), Ok(ParsedMRZ::Unknown)),
        },
{
    let normalized = normalize_lines(lines);
    let mut refs: Vec<&[u8]> = Vec::new();
    let mut i: usize = 0;
    while i < normalized.len()
        invariant
            i <= normalized@.len(),
            normalized@.len() == lines@.len(),
            forall|j: int| 0 <= j < normalized@.len() ==> #[trigger] normalized@[j]@ == padded_lines(lines@)[j],
            refs@.len() == i,
            forall|j: int| 0 <= j < i ==> #[trigger] refs@[j]@ == normalized@[j]@,
        decreases normalized@.len() - i,
    {
        refs.push(normalized[i].as_slice());
        i = i + 1;
    }
    assert(lines_view(refs@) =~= padded_lines(lines@));
    let parsed = match parse_any(refs.as_slice()) {
        Ok(p) => p,
        Err(e) => return Err(e),
    };
    match parsed {
        ParsedMRZ::MrzIcaoTd3(raw) => {
            match validate_common_fields(&raw) {
                Ok(()) => {},
                Err(e) => return Err(e),
            }
            let u = build_mrz_result(&raw, "TD3");
            assert(parsed_from(padded_lines(lines@), Ok(ParsedMRZ::MrzIcaoTd3(raw))));
            Ok(MRZ::Icao(u))
        },
        ParsedMRZ::MrzIcaoTd1(raw) => {
            match validate_common_fields(&raw) {
                Ok(()) => {},
                Err(e) => return Err(e),
            }
            let u = build_mrz_result(&raw, "TD1");
            assert(parsed_from(padded_lines(lines@), Ok(ParsedMRZ::MrzIcaoTd1(raw))));
            Ok(MRZ::Icao(u))
        },
        ParsedMRZ::Unknown => Ok(MRZ::Unknown),
    }
}

} // verus!
