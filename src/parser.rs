//! Layout detection and the fixed-offset TD3 and TD1 decoders.

use crate::checked_field::CheckedField;
use crate::checksum::{checksum_of, compute_checksum, DIGIT_NINE, DIGIT_ZERO, FILLER};
use crate::document::{
    MrzIcaoTd1, MrzIcaoTd3, ParsedMRZ, ICAO_COMMON_COUNTRY_CODE_LEN, ICAO_COMMON_DATE_LEN,
    ICAO_COMMON_DOC_CODE_LEN, SPACE,
};
use crate::field_correction::{
    correct_checked_field, digit_value, is_repair, lemma_trim_fillers_prefix, repair_exhausted,
    repair_of, trim_fillers, trimmed_len,
};
use crate::ocr::copy_bytes;
use crate::{MRZChecksumError, MRZFormat, MRZParseError};
use vstd::prelude::*;

verus! {

/// Most substitutions, and most candidates, tried when repairing a document
/// number.
pub const MAX_FIELD_PERMUTATIONS: usize = 8;

/// The character `P`, first byte of a passport's upper line.
pub const LETTER_P: u8 = 0x50;
/// The character `M`.
pub const LETTER_M: u8 = 0x4d;
/// The character `1`.
pub const DIGIT_ONE: u8 = 0x31;

/// `c` is a decimal digit equal to the check digit of `data`.
pub open spec fn check_ok(data: Seq<u8>, c: u8) -> bool {
    digit_value(c) matches Some(d) && checksum_of(data) == Some(d)
}

/// `v` is what the document number field `raw` with check byte `c` decodes
/// to: `raw` itself when its check digit holds, otherwise a repair of it
/// (within the fixed search bound) padded back with `raw`'s trailing fillers.
pub open spec fn document_number_read(raw: Seq<u8>, c: u8, v: Seq<u8>) -> bool {
    if check_ok(raw, c) {
        v == raw
    } else {
        let k = trim_fillers(raw).len() as int;
        &&& digit_value(c) is Some
        &&& repair_of(raw, digit_value(c)->0, MAX_FIELD_PERMUTATIONS as int, MAX_FIELD_PERMUTATIONS as int)
            == Some(v.subrange(0, k))
        &&& v.len() == raw.len()
        &&& is_repair(raw, digit_value(c)->0, MAX_FIELD_PERMUTATIONS as int, v.subrange(0, k))
        &&& v.subrange(k, v.len() as int) == raw.subrange(k, raw.len() as int)
    }
}

/// The document number field `raw` with check byte `c` fails its check digit
/// and could not be repaired within the fixed search bound.
pub open spec fn document_number_unreadable(raw: Seq<u8>, c: u8) -> bool {
    &&& !check_ok(raw, c)
    &&& digit_value(c) matches Some(d) ==> repair_exhausted(
        raw,
        d,
        MAX_FIELD_PERMUTATIONS as int,
        MAX_FIELD_PERMUTATIONS as int,
    ) && repair_of(raw, d, MAX_FIELD_PERMUTATIONS as int, MAX_FIELD_PERMUTATIONS as int) is None
}

/// The one value a document number field can decode to, if any.
pub open spec fn document_number_value(raw: Seq<u8>, c: u8) -> Seq<u8> {
    if check_ok(raw, c) {
        raw
    } else {
        let k = trim_fillers(raw).len() as int;
        repair_of(raw, digit_value(c)->0, MAX_FIELD_PERMUTATIONS as int, MAX_FIELD_PERMUTATIONS as int)->0
            + raw.subrange(k, raw.len() as int)
    }
}

proof fn lemma_document_number_unique(raw: Seq<u8>, c: u8, v: Seq<u8>)
    requires
        document_number_read(raw, c, v),
    ensures
        v == document_number_value(raw, c),
        !document_number_unreadable(raw, c),
{
    if !check_ok(raw, c) {
        let k = trim_fillers(raw).len() as int;
        lemma_trim_fillers_prefix(raw);
        assert(v =~= v.subrange(0, k) + v.subrange(k, v.len() as int));
    }
}

/// The checks that follow the document number, in order: birth date, expiry
/// date, then the composite check digit `fc` over `composite` (skipped when
/// `fc` is the filler). The result is the composite validity to record, or
/// the first field that failed.
pub open spec fn later_checks(
    birth: Seq<u8>,
    bc: u8,
    expiry: Seq<u8>,
    ec: u8,
    fc: u8,
    composite: Seq<u8>,
) -> Result<Option<bool>, MRZChecksumError> {
    if !check_ok(birth, bc) {
        Err(MRZChecksumError::BirthDate)
    } else if !check_ok(expiry, ec) {
        Err(MRZChecksumError::ExpiryDate)
    } else if fc == FILLER {
        Ok(None)
    } else if check_ok(composite, fc) {
        Ok(Some(true))
    } else {
        Err(MRZChecksumError::Final)
    }
}

/// The TD3 composite span for document number `doc`: document number and its
/// check digit, birth date and its check digit, expiry date and its check
/// digit, optional data with its check digit (lower line, 28 to 43).
pub open spec fn td3_composite(l2: Seq<u8>, doc: Seq<u8>) -> Seq<u8> {
    doc.push(l2[9]) + l2.subrange(13, 20) + l2.subrange(21, 28) + l2.subrange(28, 43)
}

/// The TD3 checks after the document number `doc`.
pub open spec fn td3_checks(l2: Seq<u8>, doc: Seq<u8>) -> Result<Option<bool>, MRZChecksumError> {
    later_checks(
        l2.subrange(13, 19),
        l2[19],
        l2.subrange(21, 27),
        l2[27],
        l2[43],
        td3_composite(l2, doc),
    )
}

/// The fields of `m` are read from the TD3 lines at their fixed offsets.
/// Nationality is read at lower-line positions 10 to 13, where ICAO 9303
/// places it (positions 15 to 18 belong to the birth date).
pub open spec fn td3_fields(l1: Seq<u8>, l2: Seq<u8>, m: MrzIcaoTd3) -> bool {
    &&& m.document_code@ == l1.subrange(0, 2)
    &&& m.issuing_state@ == l1.subrange(2, 5)
    &&& m.name@ == l1.subrange(5, 44)
    &&& m.optional_data2@ == l1.subrange(28, 43)
    &&& m.nationality@ == l2.subrange(10, 13)
    &&& m.birth_date@ == l2.subrange(13, 19)
    &&& m.sex == l2[20]
    &&& m.expiry_date@ == l2.subrange(21, 27)
    &&& m.optional_data1@ == l2.subrange(28, 43)
    &&& m.document_number_check_valid
    &&& m.birth_date_check_valid
    &&& m.expiry_date_check_valid
    &&& m.wf()
}

/// `r` is the outcome of decoding the TD3 lines `l1`, `l2`.
pub open spec fn td3_decoded(l1: Seq<u8>, l2: Seq<u8>, r: Result<ParsedMRZ, MRZParseError>) -> bool {
    let raw = l2.subrange(0, 9);
    let c = l2[9];
    match r {
        Ok(ParsedMRZ::MrzIcaoTd3(m)) => {
            &&& document_number_read(raw, c, m.document_number@)
            &&& td3_checks(l2, m.document_number@) == Ok::<Option<bool>, MRZChecksumError>(
                m.final_check_valid,
            )
            &&& td3_fields(l1, l2, m)
        },
        Err(MRZParseError::InvalidChecksumField(MRZChecksumError::DocumentNumber)) => {
            document_number_unreadable(raw, c)
        },
        Err(MRZParseError::InvalidChecksumField(k)) => exists|v: Seq<u8>|
            #[trigger] document_number_read(raw, c, v) && td3_checks(l2, v) == Err::<
                Option<bool>,
                MRZChecksumError,
            >(k),
        _ => false,
    }
}

/// The TD1 composite span for document number `doc`: document number, its
/// check digit and optional data 1 (upper line, 5 to 30), birth date and its
/// check digit, expiry date and its check digit, optional data 2.
pub open spec fn td1_composite(l1: Seq<u8>, l2: Seq<u8>, doc: Seq<u8>) -> Seq<u8> {
    doc.push(l1[14]) + l1.subrange(15, 30) + l2.subrange(0, 7) + l2.subrange(8, 15)
        + l2.subrange(18, 29)
}

/// The TD1 checks after the document number `doc`.
pub open spec fn td1_checks(l1: Seq<u8>, l2: Seq<u8>, doc: Seq<u8>) -> Result<
    Option<bool>,
    MRZChecksumError,
> {
    later_checks(
        l2.subrange(0, 6),
        l2[6],
        l2.subrange(8, 14),
        l2[14],
        l2[29],
        td1_composite(l1, l2, doc),
    )
}

/// The fields of `m` are read from the TD1 lines at their fixed offsets.
pub open spec fn td1_fields(l1: Seq<u8>, l2: Seq<u8>, l3: Seq<u8>, m: MrzIcaoTd1) -> bool {
    &&& m.document_code@ == l1.subrange(0, 2)
    &&& m.issuing_state@ == l1.subrange(2, 5)
    &&& m.optional_data1@ == l1.subrange(15, 30)
    &&& m.birth_date@ == l2.subrange(0, 6)
    &&& m.sex == l2[7]
    &&& m.expiry_date@ == l2.subrange(8, 14)
    &&& m.nationality@ == l2.subrange(15, 18)
    &&& m.optional_data2@ == l2.subrange(18, 29)
    &&& m.name@ == l3.subrange(0, 30)
    &&& m.document_number_check_valid
    &&& m.birth_date_check_valid
    &&& m.expiry_date_check_valid
    &&& m.wf()
}

/// `r` is the outcome of decoding the TD1 lines `l1`, `l2`, `l3`.
pub open spec fn td1_decoded(
    l1: Seq<u8>,
    l2: Seq<u8>,
    l3: Seq<u8>,
    r: Result<ParsedMRZ, MRZParseError>,
) -> bool {
    let raw = l1.subrange(5, 14);
    let c = l1[14];
    match r {
        Ok(ParsedMRZ::MrzIcaoTd1(m)) => {
            &&& document_number_read(raw, c, m.document_number@)
            &&& td1_checks(l1, l2, m.document_number@) == Ok::<Option<bool>, MRZChecksumError>(
                m.final_check_valid,
            )
            &&& td1_fields(l1, l2, l3, m)
        },
        Err(MRZParseError::InvalidChecksumField(MRZChecksumError::DocumentNumber)) => {
            document_number_unreadable(raw, c)
        },
        Err(MRZParseError::InvalidChecksumField(k)) => exists|v: Seq<u8>|
            #[trigger] document_number_read(raw, c, v) && td1_checks(l1, l2, v) == Err::<
                Option<bool>,
                MRZChecksumError,
            >(k),
        _ => false,
    }
}

/// The views of the lines.
pub open spec fn lines_view(lines: Seq<&[u8]>) -> Seq<Seq<u8>> {
    lines.map_values(|l: &[u8]| l@)
}

/// The layout of `lines`, judged by line count, line widths and prefix.
pub open spec fn format_of(lines: Seq<Seq<u8>>) -> MRZFormat {
    if lines.len() == 2 && lines[0].len() >= 40 && lines[1].len() >= 40 && lines[0][0] == LETTER_P {
        MRZFormat::MrzIcaoTd3
    } else if lines.len() == 3 && lines[0].len() == 30 && lines[1].len() == 30 && lines[2].len()
        == 30 {
        MRZFormat::MrzIcaoTd1
    } else if lines.len() == 1 && lines[0].len() >= 2 && lines[0][0] == LETTER_M && lines[0][1]
        == DIGIT_ONE {
        MRZFormat::BCBP
    } else {
        MRZFormat::Unknown
    }
}

/// `r` is the outcome of decoding `lines`.
pub open spec fn parsed_from(lines: Seq<Seq<u8>>, r: Result<ParsedMRZ, MRZParseError>) -> bool {
    match format_of(lines) {
        MRZFormat::MrzIcaoTd3 => if lines[0].len() < 44 || lines[1].len() < 44 {
            r == Err::<ParsedMRZ, MRZParseError>(MRZParseError::InvalidLength)
        } else {
            td3_decoded(lines[0], lines[1], r)
        },
        MRZFormat::MrzIcaoTd1 => td1_decoded(lines[0], lines[1], lines[2], r),
        MRZFormat::BCBP => r == Err::<ParsedMRZ, MRZParseError>(MRZParseError::UnsupportedFormat),
        MRZFormat::Unknown => r == Err::<ParsedMRZ, MRZParseError>(MRZParseError::UnknownFormat),
    }
}

/// Whether `check_digit` is a digit equal to the check digit of `data`.
fn verify_checksum(data: &[u8], check_digit: u8) -> (r: bool)
    ensures
        r == check_ok(data@, check_digit),
{
    match compute_checksum(data) {
        Some(csum) => DIGIT_ZERO <= check_digit && check_digit <= DIGIT_NINE && csum
            == check_digit - DIGIT_ZERO,
        None => false,
    }
}

/// Decodes the document number at `line[start..end]` with its check digit at
/// `line[check]`; on a check-digit failure, tries OCR repair before failing
/// with `DocumentNumber`.
fn parse_document_number(line: &[u8], start: usize, end: usize, check: usize) -> (r: Result<
    CheckedField<Vec<u8>>,
    MRZParseError,
>)
    requires
        start <= end <= line@.len(),
        check < line@.len(),
        end - start <= MAX_FIELD_PERMUTATIONS + 1,
    ensures
        match r {
            Ok(f) => {
                &&& document_number_read(
                    line@.subrange(start as int, end as int),
                    line@[check as int],
                    f.spec_value()@,
                )
                &&& f.spec_error() is None
                &&& f.spec_check_digit() == Some(line@[check as int])
            },
            Err(e) => {
                &&& e == MRZParseError::InvalidChecksumField(MRZChecksumError::DocumentNumber)
                &&& document_number_unreadable(
                    line@.subrange(start as int, end as int),
                    line@[check as int],
                )
            },
        },
{
    let raw = &line[start..end];
    let check_char = line[check];
    if verify_checksum(raw, check_char) {
        let value = copy_bytes(raw);
        return Ok(CheckedField::new(value, None, check_char));
    }
    proof {
        lemma_trim_fillers_prefix(raw@);
    }
    let corrected = correct_checked_field::<9, MAX_FIELD_PERMUTATIONS>(
        raw,
        check_char,
        MAX_FIELD_PERMUTATIONS,
        MRZChecksumError::DocumentNumber,
    );
    match corrected {
        Ok(field) => {
            // Restore the trailing fillers that the repair search left out.
            let k = trimmed_len(raw);
            proof {
                lemma_trim_fillers_prefix(raw@);
            }
            let mut value = field.into_inner();
            let ghost repaired = value@;
            let mut i: usize = k;
            while i < raw.len()
                invariant
                    k <= i <= raw@.len(),
                    repaired.len() == k,
                    value@ == repaired + raw@.subrange(k as int, i as int),
                decreases raw@.len() - i,
            {
                value.push(raw[i]);
                i = i + 1;
                assert(value@ =~= repaired + raw@.subrange(k as int, i as int));
            }
            assert(value@.subrange(0, k as int) =~= repaired);
            assert(value@.subrange(k as int, value@.len() as int) =~= raw@.subrange(
                k as int,
                raw@.len() as int,
            ));
            Ok(CheckedField::new(value, None, check_char))
        },
        Err(e) => Err(e),
    }
}

/// `slice` as an array of `N` bytes, or `N` spaces if its length differs.
fn fixed_slice<const N: usize>(slice: &[u8]) -> (r: [u8; N])
    ensures
        slice@.len() == N ==> r@ == slice@,
        slice@.len() != N ==> r@ == Seq::new(N as nat, |i: int| SPACE),
{
    let mut out = [SPACE; N];
    if slice.len() == N {
        let mut i: usize = 0;
        while i < N
            invariant
                slice@.len() == N,
                i <= N,
                forall|j: int| 0 <= j < i ==> out@[j] == slice@[j],
            decreases N - i,
        {
            out[i] = slice[i];
            i = i + 1;
        }
        assert(out@ =~= slice@);
    } else {
        assert(out@ =~= Seq::new(N as nat, |i: int| SPACE));
    }
    out
}

/// `field` as an array of `N` bytes (or `N` zeros if its length differs),
/// with whether `check_digit` is its check digit.
fn checked_field<const N: usize>(field: &[u8], check_digit: u8) -> (r: ([u8; N], bool))
    ensures
        field@.len() == N ==> r.0@ == field@,
        field@.len() != N ==> r.0@ == Seq::new(N as nat, |i: int| DIGIT_ZERO),
        r.1 == check_ok(r.0@, check_digit),
{
    let mut array = [DIGIT_ZERO; N];
    if field.len() == N {
        let mut i: usize = 0;
        while i < N
            invariant
                field@.len() == N,
                i <= N,
                forall|j: int| 0 <= j < i ==> array@[j] == field@[j],
            decreases N - i,
        {
            array[i] = field[i];
            i = i + 1;
        }
        assert(array@ =~= field@);
    } else {
        assert(array@ =~= Seq::new(N as nat, |i: int| DIGIT_ZERO));
    }
    let valid = verify_checksum(array.as_slice(), check_digit);
    (array, valid)
}

/// Decodes a field of `N` bytes with check digit `check`; a check-digit
/// failure is the error `kind`.
fn parse_checked_field<const N: usize>(field: &[u8], check: u8, kind: MRZChecksumError) -> (r:
    Result<CheckedField<[u8; N]>, MRZParseError>)
    requires
        field@.len() == N,
    ensures
        match r {
            Ok(f) => check_ok(field@, check) && f.spec_value()@ == field@ && f.spec_error() is None
                && f.spec_check_digit() == Some(check),
            Err(e) => !check_ok(field@, check) && e == MRZParseError::InvalidChecksumField(kind),
        },
{
    let (data, valid) = checked_field::<N>(field, check);
    if !valid {
        Err(MRZParseError::InvalidChecksumField(kind))
    } else {
        Ok(CheckedField::new(data, None, check))
    }
}

/// Decodes the date at `line[start..end]` with its check digit at
/// `line[check]`. Dates get no OCR repair: a check-digit failure is the
/// error `kind`.
fn parse_date(line: &[u8], start: usize, end: usize, check: usize, kind: MRZChecksumError) -> (r:
    Result<CheckedField<[u8; ICAO_COMMON_DATE_LEN]>, MRZParseError>)
    requires
        start <= end <= line@.len(),
        end - start == ICAO_COMMON_DATE_LEN,
        check < line@.len(),
    ensures
        match r {
            Ok(f) => check_ok(line@.subrange(start as int, end as int), line@[check as int])
                && f.spec_value()@ == line@.subrange(start as int, end as int),
            Err(e) => !check_ok(line@.subrange(start as int, end as int), line@[check as int])
                && e == MRZParseError::InvalidChecksumField(kind),
        },
{
    parse_checked_field::<ICAO_COMMON_DATE_LEN>(&line[start..end], line[check], kind)
}

/// The concatenation of `segments`.
pub open spec fn concat(segments: Seq<Seq<u8>>) -> Seq<u8>
    decreases segments.len(),
{
    if segments.len() == 0 {
        Seq::empty()
    } else {
        concat(segments.drop_last()) + segments.last()
    }
}

proof fn lemma_concat_push(segs: Seq<Seq<u8>>, s: Seq<u8>)
    ensures
        concat(segs.push(s)) == concat(segs) + s,
{
    assert(segs.push(s).drop_last() =~= segs);
}

proof fn lemma_concat_four(a: Seq<u8>, b: Seq<u8>, c: Seq<u8>, d: Seq<u8>)
    ensures
        concat(seq![a, b, c, d]) == a + b + c + d,
{
    lemma_concat_push(Seq::empty(), a);
    assert(seq![a] =~= Seq::<Seq<u8>>::empty().push(a));
    assert(concat(Seq::<Seq<u8>>::empty()) == Seq::<u8>::empty());
    assert(Seq::<u8>::empty() + a =~= a);
    lemma_concat_push(seq![a], b);
    assert(seq![a, b] =~= seq![a].push(b));
    lemma_concat_push(seq![a, b], c);
    assert(seq![a, b, c] =~= seq![a, b].push(c));
    lemma_concat_push(seq![a, b, c], d);
    assert(seq![a, b, c, d] =~= seq![a, b, c].push(d));
}

proof fn lemma_concat_five(a: Seq<u8>, b: Seq<u8>, c: Seq<u8>, d: Seq<u8>, e: Seq<u8>)
    ensures
        concat(seq![a, b, c, d, e]) == a + b + c + d + e,
{
    lemma_concat_four(a, b, c, d);
    lemma_concat_push(seq![a, b, c, d], e);
    assert(seq![a, b, c, d, e] =~= seq![a, b, c, d].push(e));
}

/// Whether `check_digit` is the check digit of the concatenated `segments`:
/// `None` when it is not a digit or the span holds a byte outside `[0-9A-Z<]`.
fn compute_composite_checksum(segments: &[&[u8]], check_digit: u8) -> (r: Option<bool>)
    ensures
        r == (match (digit_value(check_digit), checksum_of(concat(lines_view(segments@)))) {
            (Some(d), Some(x)) => Some(x == d),
            _ => None::<bool>,
        }),
{
    if !(DIGIT_ZERO <= check_digit && check_digit <= DIGIT_NINE) {
        return None;
    }
    let ghost segs = lines_view(segments@);
    let mut data: Vec<u8> = Vec::new();
    let mut i: usize = 0;
    while i < segments.len()
        invariant
            i <= segments@.len(),
            segs == lines_view(segments@),
            data@ == concat(segs.subrange(0, i as int)),
        decreases segments@.len() - i,
    {
        let segment: &[u8] = segments[i];
        let mut j: usize = 0;
        let ghost before = data@;
        while j < segment.len()
            invariant
                j <= segment@.len(),
                data@ == before + segment@.subrange(0, j as int),
            decreases segment@.len() - j,
        {
            data.push(segment[j]);
            j = j + 1;
            assert(data@ =~= before + segment@.subrange(0, j as int));
        }
        assert(segs.subrange(0, i as int + 1).drop_last() =~= segs.subrange(0, i as int));
        assert(segment@.subrange(0, segment@.len() as int) =~= segment@);
        i = i + 1;
    }
    assert(segs.subrange(0, segs.len() as int) =~= segs);
    match compute_checksum(data.as_slice()) {
        Some(csum) => Some(csum == check_digit - DIGIT_ZERO),
        None => None,
    }
}

/// The composite check: `None` when `check_char` is the filler (absent),
/// `Some(true)` when it is the check digit of the concatenated `segments`,
/// otherwise the error `kind`.
fn validate_final_check(segments: &[&[u8]], check_char: u8, kind: MRZChecksumError) -> (r: Result<
    Option<bool>,
    MRZParseError,
>)
    ensures
        r == (if check_char == FILLER {
            Ok(None)
        } else if check_ok(concat(lines_view(segments@)), check_char) {
            Ok(Some(true))
        } else {
            Err::<Option<bool>, MRZParseError>(MRZParseError::InvalidChecksumField(kind))
        }),
{
    if check_char == FILLER {
        Ok(None)
    } else {
        match compute_composite_checksum(segments, check_char) {
            Some(true) => Ok(Some(true)),
            _ => Err(MRZParseError::InvalidChecksumField(kind)),
        }
    }
}

/// Classifies `lines`: two lines of at least 40 bytes, the first starting with
/// `P`, are TD3; three lines of exactly 30 bytes are TD1; one line starting
/// with `M1` is a boarding pass; anything else is unknown.
pub fn detect_format(lines: &[&[u8]]) -> (r: MRZFormat)
    ensures
        r == format_of(lines_view(lines@)),
{
    if lines.len() == 2 && lines[0].len() >= 40 && lines[1].len() >= 40 && lines[0][0] == LETTER_P {
        MRZFormat::MrzIcaoTd3
    } else if lines.len() == 3 && lines[0].len() == 30 && lines[1].len() == 30 && lines[2].len()
        == 30 {
        MRZFormat::MrzIcaoTd1
    } else if lines.len() == 1 && lines[0].len() >= 2 && lines[0][0] == LETTER_M && lines[0][1]
        == DIGIT_ONE {
        MRZFormat::BCBP
    } else {
        MRZFormat::Unknown
    }
}

/// Decodes TD3 lines: document number (with OCR repair), birth date, expiry
/// date, then the composite check digit at position 43 of the lower line.
fn parse_td3(line1: &[u8], line2: &[u8]) -> (r: Result<ParsedMRZ, MRZParseError>)
    requires
        line1@.len() >= 44,
        line2@.len() >= 44,
    ensures
        td3_decoded(line1@, line2@, r),
{
    let ghost l1 = line1@;
    let ghost l2 = line2@;
    let ghost raw = l2.subrange(0, 9);
    let document_number = match parse_document_number(line2, 0, 9, 9) {
        Ok(f) => f,
        Err(e) => return Err(e),
    };
    let ghost doc = document_number.spec_value()@;
    assert(document_number_read(raw, l2[9], doc));
    assert(l2.subrange(13, 19) == line2@.subrange(13, 19));
    let birth_date = match parse_date(line2, 13, 19, 19, MRZChecksumError::BirthDate) {
        Ok(f) => f,
        Err(e) => {
            assert(td3_checks(l2, doc) == Err::<Option<bool>, MRZChecksumError>(
                MRZChecksumError::BirthDate,
            ));
            return Err(e);
        },
    };
    let expiry_date = match parse_date(line2, 21, 27, 27, MRZChecksumError::ExpiryDate) {
        Ok(f) => f,
        Err(e) => {
            assert(td3_checks(l2, doc) == Err::<Option<bool>, MRZChecksumError>(
                MRZChecksumError::ExpiryDate,
            ));
            return Err(e);
        },
    };
    let final_check_char = line2[43];
    let docnum_with_check = document_number.as_slice_with_check();
    let segments: [&[u8]; 4] = [
        docnum_with_check.as_slice(),
        &line2[13..20],
        &line2[21..28],
        &line2[28..43],
    ];
    proof {
        let segs = lines_view(segments@);
        assert(segs[0] == doc.push(l2[9]));
        assert(segs =~= seq![doc.push(l2[9]), l2.subrange(13, 20), l2.subrange(21, 28), l2.subrange(28, 43)]);
        lemma_concat_four(doc.push(l2[9]), l2.subrange(13, 20), l2.subrange(21, 28), l2.subrange(28, 43));
        assert(concat(segs) == td3_composite(l2, doc));
    }
    let final_check = match validate_final_check(
        segments.as_slice(),
        final_check_char,
        MRZChecksumError::Final,
    ) {
        Ok(v) => v,
        Err(e) => {
            assert(td3_checks(l2, doc) == Err::<Option<bool>, MRZChecksumError>(
                MRZChecksumError::Final,
            ));
            return Err(e);
        },
    };
    let record = MrzIcaoTd3 {
        document_code: fixed_slice::<ICAO_COMMON_DOC_CODE_LEN>(&line1[0..2]),
        issuing_state: fixed_slice::<ICAO_COMMON_COUNTRY_CODE_LEN>(&line1[2..5]),
        name: copy_bytes(&line1[5..44]),
        nationality: fixed_slice::<ICAO_COMMON_COUNTRY_CODE_LEN>(&line2[10..13]),
        sex: line2[20],
        document_number: document_number.into_inner(),
        document_number_check_valid: true,
        birth_date: birth_date.into_inner(),
        birth_date_check_valid: true,
        expiry_date: expiry_date.into_inner(),
        expiry_date_check_valid: true,
        final_check_valid: final_check,
        optional_data1: copy_bytes(&line2[28..43]),
        optional_data2: copy_bytes(&line1[28..43]),
    };
    Ok(ParsedMRZ::MrzIcaoTd3(record))
}

/// Decodes TD1 lines: document number (with OCR repair), birth date, expiry
/// date, then the composite check digit at position 29 of the middle line.
fn parse_td1(line1: &[u8], line2: &[u8], line3: &[u8]) -> (r: Result<ParsedMRZ, MRZParseError>)
    requires
        line1@.len() == 30,
        line2@.len() == 30,
        line3@.len() == 30,
    ensures
        td1_decoded(line1@, line2@, line3@, r),
{
    let ghost l1 = line1@;
    let ghost l2 = line2@;
    let ghost raw = l1.subrange(5, 14);
    let document_code = fixed_slice::<ICAO_COMMON_DOC_CODE_LEN>(&line1[0..2]);
    let issuing_state = fixed_slice::<ICAO_COMMON_COUNTRY_CODE_LEN>(&line1[2..5]);
    let document_number = match parse_document_number(line1, 5, 14, 14) {
        Ok(f) => f,
        Err(e) => return Err(e),
    };
    let ghost doc = document_number.spec_value()@;
    assert(document_number_read(raw, l1[14], doc));
    let optional_data1 = copy_bytes(&line1[15..30]);
    let nationality = fixed_slice::<ICAO_COMMON_COUNTRY_CODE_LEN>(&line2[15..18]);
    let birth_date = match parse_date(line2, 0, 6, 6, MRZChecksumError::BirthDate) {
        Ok(f) => f,
        Err(e) => {
            assert(td1_checks(l1, l2, doc) == Err::<Option<bool>, MRZChecksumError>(
                MRZChecksumError::BirthDate,
            ));
            return Err(e);
        },
    };
    let sex = line2[7];
    let expiry_date = match parse_date(line2, 8, 14, 14, MRZChecksumError::ExpiryDate) {
        Ok(f) => f,
        Err(e) => {
            assert(td1_checks(l1, l2, doc) == Err::<Option<bool>, MRZChecksumError>(
                MRZChecksumError::ExpiryDate,
            ));
            return Err(e);
        },
    };
    let optional_data2 = copy_bytes(&line2[18..29]);
    let final_check_char = line2[29];
    let docnum_with_check = document_number.as_slice_with_check();
    let segments: [&[u8]; 5] = [
        docnum_with_check.as_slice(),
        &line1[15..30],
        &line2[0..7],
        &line2[8..15],
        &line2[18..29],
    ];
    proof {
        let segs = lines_view(segments@);
        assert(segs =~= seq![
            doc.push(l1[14]),
            l1.subrange(15, 30),
            l2.subrange(0, 7),
            l2.subrange(8, 15),
            l2.subrange(18, 29),
        ]);
        lemma_concat_five(
            doc.push(l1[14]),
            l1.subrange(15, 30),
            l2.subrange(0, 7),
            l2.subrange(8, 15),
            l2.subrange(18, 29),
        );
        assert(concat(segs) == td1_composite(l1, l2, doc));
    }
    let final_check = match validate_final_check(
        segments.as_slice(),
        final_check_char,
        MRZChecksumError::Final,
    ) {
        Ok(v) => v,
        Err(e) => {
            assert(td1_checks(l1, l2, doc) == Err::<Option<bool>, MRZChecksumError>(
                MRZChecksumError::Final,
            ));
            return Err(e);
        },
    };
    let record = MrzIcaoTd1 {
        document_code,
        issuing_state,
        name: copy_bytes(&line3[0..30]),
        nationality,
        sex,
        document_number: document_number.into_inner(),
        document_number_check_valid: true,
        birth_date: birth_date.into_inner(),
        birth_date_check_valid: true,
        expiry_date: expiry_date.into_inner(),
        expiry_date_check_valid: true,
        final_check_valid: final_check,
        optional_data1,
        optional_data2,
    };
    Ok(ParsedMRZ::MrzIcaoTd1(record))
}

/// Decodes MRZ lines: detects the layout, checks that the lines are wide
/// enough for it (TD3 needs 44 bytes per line), and runs its decoder. A
/// boarding pass is recognised but never decoded (`UnsupportedFormat`); an
/// unrecognised input is `UnknownFormat`.
pub fn parse_any(lines: &[&[u8]]) -> (r: Result<ParsedMRZ, MRZParseError>)
    ensures
        parsed_from(lines_view(lines@), r),
{
    match detect_format(lines) {
        MRZFormat::MrzIcaoTd3 => {
            if lines.len() != 2 || lines[0].len() < 44 || lines[1].len() < 44 {
                return Err(MRZParseError::InvalidLength);
            }
            parse_td3(lines[0], lines[1])
        },
        MRZFormat::MrzIcaoTd1 => {
            if lines.len() != 3 || lines[0].len() != 30 || lines[1].len() != 30 || lines[2].len()
                != 30 {
                return Err(MRZParseError::InvalidLength);
            }
            parse_td1(lines[0], lines[1], lines[2])
        },
        MRZFormat::BCBP => Err(MRZParseError::UnsupportedFormat),
        MRZFormat::Unknown => Err(MRZParseError::UnknownFormat),
    }
}

/// Two records hold the same bytes in every field.
pub open spec fn same_record<const A: usize, const B: usize, const C: usize>(
    a: crate::document::MrzIcao<A, B, C>,
    b: crate::document::MrzIcao<A, B, C>,
) -> bool {
    &&& a.document_code@ == b.document_code@
    &&& a.issuing_state@ == b.issuing_state@
    &&& a.name@ == b.name@
    &&& a.nationality@ == b.nationality@
    &&& a.sex == b.sex
    &&& a.document_number@ == b.document_number@
    &&& a.document_number_check_valid == b.document_number_check_valid
    &&& a.birth_date@ == b.birth_date@
    &&& a.birth_date_check_valid == b.birth_date_check_valid
    &&& a.expiry_date@ == b.expiry_date@
    &&& a.expiry_date_check_valid == b.expiry_date_check_valid
    &&& a.final_check_valid == b.final_check_valid
    &&& a.optional_data1@ == b.optional_data1@
    &&& a.optional_data2@ == b.optional_data2@
}

/// Two decoding outcomes are the same error, or records with the same bytes.
pub open spec fn same_outcome(
    r1: Result<ParsedMRZ, MRZParseError>,
    r2: Result<ParsedMRZ, MRZParseError>,
) -> bool {
    match (r1, r2) {
        (Ok(ParsedMRZ::MrzIcaoTd3(a)), Ok(ParsedMRZ::MrzIcaoTd3(b))) => same_record(a, b),
        (Ok(ParsedMRZ::MrzIcaoTd1(a)), Ok(ParsedMRZ::MrzIcaoTd1(b))) => same_record(a, b),
        (Ok(ParsedMRZ::Unknown), Ok(ParsedMRZ::Unknown)) => true,
        (Err(e1), Err(e2)) => e1 == e2,
        _ => false,
    }
}

/// Decoding depends on the lines alone: any two outcomes that `parse_any`
/// may return for the same lines agree field for field.
pub proof fn decoding_is_deterministic(
    lines: Seq<Seq<u8>>,
    r1: Result<ParsedMRZ, MRZParseError>,
    r2: Result<ParsedMRZ, MRZParseError>,
)
    requires
        parsed_from(lines, r1),
        parsed_from(lines, r2),
    ensures
        same_outcome(r1, r2),
{
    match format_of(lines) {
        MRZFormat::MrzIcaoTd3 => {
            if lines[0].len() >= 44 && lines[1].len() >= 44 {
                let l2 = lines[1];
                let raw = l2.subrange(0, 9);
                let value = document_number_value(raw, l2[9]);
                let expected = td3_checks(l2, value);
                assert forall|r: Result<ParsedMRZ, MRZParseError>|
                    td3_decoded(lines[0], l2, r) implies match r {
                    Ok(ParsedMRZ::MrzIcaoTd3(m)) => m.document_number@ == value && expected == Ok::<
                        Option<bool>,
                        MRZChecksumError,
                    >(m.final_check_valid),
                    Err(MRZParseError::InvalidChecksumField(MRZChecksumError::DocumentNumber)) => {
                        document_number_unreadable(raw, l2[9])
                    },
                    Err(MRZParseError::InvalidChecksumField(k)) => expected == Err::<
                        Option<bool>,
                        MRZChecksumError,
                    >(k) && !document_number_unreadable(raw, l2[9]),
                    _ => false,
                } by {
                    match r {
                        Ok(ParsedMRZ::MrzIcaoTd3(m)) => {
                            lemma_document_number_unique(raw, l2[9], m.document_number@);
                        },
                        Err(MRZParseError::InvalidChecksumField(k)) => {
                            if k != MRZChecksumError::DocumentNumber {
                                let v = choose|v: Seq<u8>|
                                    #[trigger] document_number_read(raw, l2[9], v) && td3_checks(
                                        l2,
                                        v,
                                    ) == Err::<Option<bool>, MRZChecksumError>(k);
                                lemma_document_number_unique(raw, l2[9], v);
                            }
                        },
                        _ => {},
                    }
                }
            }
        },
        MRZFormat::MrzIcaoTd1 => {
            let l1 = lines[0];
            let l2 = lines[1];
            let raw = l1.subrange(5, 14);
            let value = document_number_value(raw, l1[14]);
            let expected = td1_checks(l1, l2, value);
            assert forall|r: Result<ParsedMRZ, MRZParseError>|
                td1_decoded(l1, l2, lines[2], r) implies match r {
                Ok(ParsedMRZ::MrzIcaoTd1(m)) => m.document_number@ == value && expected == Ok::<
                    Option<bool>,
                    MRZChecksumError,
                >(m.final_check_valid),
                Err(MRZParseError::InvalidChecksumField(MRZChecksumError::DocumentNumber)) => {
                    document_number_unreadable(raw, l1[14])
                },
                Err(MRZParseError::InvalidChecksumField(k)) => expected == Err::<
                    Option<bool>,
                    MRZChecksumError,
                >(k) && !document_number_unreadable(raw, l1[14]),
                _ => false,
            } by {
                match r {
                    Ok(ParsedMRZ::MrzIcaoTd1(m)) => {
                        lemma_document_number_unique(raw, l1[14], m.document_number@);
                    },
                    Err(MRZParseError::InvalidChecksumField(k)) => {
                        if k != MRZChecksumError::DocumentNumber {
                            let v = choose|v: Seq<u8>|
                                #[trigger] document_number_read(raw, l1[14], v) && td1_checks(
                                    l1,
                                    l2,
                                    v,
                                ) == Err::<Option<bool>, MRZChecksumError>(k);
                            lemma_document_number_unique(raw, l1[14], v);
                        }
                    },
                    _ => {},
                }
            }
        },
        _ => {},
    }
}

/// One line starting with `M1` is a boarding pass, recognised and never
/// decoded: the outcome is always `UnsupportedFormat`.
pub proof fn boarding_pass_is_never_decoded(line: Seq<u8>, r: Result<ParsedMRZ, MRZParseError>)
    requires
        line.len() >= 2,
        line[0] == LETTER_M,
        line[1] == DIGIT_ONE,
        parsed_from(seq![line], r),
    ensures
        r == Err::<ParsedMRZ, MRZParseError>(MRZParseError::UnsupportedFormat),
{
}

proof fn lemma_trailing_fillers_keep_checksum(s: Seq<u8>, k: int)
    requires
        0 <= k <= s.len(),
        forall|i: int| k <= i < s.len() ==> s[i] == FILLER,
    ensures
        checksum_of(s) == checksum_of(s.subrange(0, k)),
    decreases s.len() - k,
{
    if k < s.len() {
        let t = s.drop_last();
        assert(t.subrange(0, k) =~= s.subrange(0, k));
        lemma_trailing_fillers_keep_checksum(t, k);
        assert(crate::checksum::weighted_sum(s) == crate::checksum::weighted_sum(t));
        assert(crate::checksum::all_mrz_chars(s) == crate::checksum::all_mrz_chars(t)) by {
            if crate::checksum::all_mrz_chars(t) {
                assert forall|i: int| 0 <= i < s.len() implies crate::checksum::is_mrz_char(
                    #[trigger] s[i],
                ) by {
                    if i < t.len() {
                        assert(s[i] == t[i]);
                    }
                }
            }
        }
    } else {
        assert(s.subrange(0, k) =~= s);
    }
}

/// A TD1 document number that fails its check digit as printed but has an
/// OCR repair is returned repaired: when the repaired number passes the
/// later checks, decoding succeeds with it, and it differs from the number
/// as printed.
pub proof fn repaired_document_number_is_returned(
    l1: Seq<u8>,
    l2: Seq<u8>,
    l3: Seq<u8>,
    r: Result<ParsedMRZ, MRZParseError>,
)
    requires
        l1.len() == 30,
        l2.len() == 30,
        l3.len() == 30,
        parsed_from(seq![l1, l2, l3], r),
        !check_ok(l1.subrange(5, 14), l1[14]),
        digit_value(l1[14]) matches Some(d) && repair_of(
            l1.subrange(5, 14),
            d,
            MAX_FIELD_PERMUTATIONS as int,
            MAX_FIELD_PERMUTATIONS as int,
        ) is Some,
        td1_checks(l1, l2, document_number_value(l1.subrange(5, 14), l1[14])) is Ok,
    ensures
        r matches Ok(ParsedMRZ::MrzIcaoTd1(m)) && m.document_number@ == document_number_value(
            l1.subrange(5, 14),
            l1[14],
        ) && m.document_number@ != l1.subrange(5, 14),
{
    let lines = seq![l1, l2, l3];
    let raw = l1.subrange(5, 14);
    let c = l1[14];
    let value = document_number_value(raw, c);
    assert(format_of(lines) == MRZFormat::MrzIcaoTd1);
    match r {
        Ok(ParsedMRZ::MrzIcaoTd1(m)) => {
            lemma_document_number_unique(raw, c, m.document_number@);
        },
        Err(MRZParseError::InvalidChecksumField(k)) => {
            if k != MRZChecksumError::DocumentNumber {
                let v = choose|v: Seq<u8>|
                    #[trigger] document_number_read(raw, c, v) && td1_checks(l1, l2, v) == Err::<
                        Option<bool>,
                        MRZChecksumError,
                    >(k);
                lemma_document_number_unique(raw, c, v);
            }
        },
        _ => {},
    }
    // The repair has the check digit that the printed number lacks, and the
    // trailing fillers change no check digit.
    let d = digit_value(c)->0;
    let k = trim_fillers(raw).len() as int;
    lemma_trim_fillers_prefix(raw);
    let repaired = repair_of(raw, d, MAX_FIELD_PERMUTATIONS as int, MAX_FIELD_PERMUTATIONS as int)->0;
    assert(is_repair(raw, d, MAX_FIELD_PERMUTATIONS as int, repaired)) by {
        let m = r->Ok_0->MrzIcaoTd1_0;
        assert(document_number_read(raw, c, m.document_number@));
        assert(m.document_number@.subrange(0, k) == repaired);
    }
    if value == raw {
        assert(value.subrange(0, k) =~= repaired);
        lemma_trailing_fillers_keep_checksum(raw, k);
        assert(raw.subrange(0, k) == repaired);
    }
}

} // verus!
