use mrz::host::{
    normalize_lines, parse_field, parse_lines, parse_mrz_date_with_reference, parse_str_field,
    validate_common_fields, CalendarDate, MrzIcaoUnified, MRZ,
};
use mrz::bridge::MrzParseError as FlatError;
use mrz::{MRZChecksumError, MRZParseError};

fn date(year: i32, month: u8, day: u8) -> Option<CalendarDate> {
    Some(CalendarDate { year, month, day })
}

#[test]
fn birth_date_read_against_expiry() {
    assert_eq!(
        parse_mrz_date_with_reference(b"740812", Some(b"120415")),
        date(1974, 8, 12)
    );
    assert_eq!(
        parse_mrz_date_with_reference(b"990101", Some(b"600101")),
        date(2099, 1, 1)
    );
    assert_eq!(
        parse_mrz_date_with_reference(b"150101", Some(b"300101")),
        date(1915, 1, 1)
    );
}

#[test]
fn expiry_date_by_fifty_year_window() {
    assert_eq!(parse_mrz_date_with_reference(b"120415", None), date(2012, 4, 15));
    assert_eq!(parse_mrz_date_with_reference(b"500101", None), date(1950, 1, 1));
    assert_eq!(parse_mrz_date_with_reference(b"491231", None), date(2049, 12, 31));
}

#[test]
fn impossible_dates_are_none() {
    assert_eq!(parse_mrz_date_with_reference(b"000229", None), date(2000, 2, 29));
    assert_eq!(parse_mrz_date_with_reference(b"010229", None), None);
    assert_eq!(parse_mrz_date_with_reference(b"991301", None), None);
    assert_eq!(parse_mrz_date_with_reference(b"990100", None), None);
    assert_eq!(parse_mrz_date_with_reference(b"990431", None), None);
    assert_eq!(parse_mrz_date_with_reference(b"74O812", None), None);
    assert_eq!(parse_mrz_date_with_reference(b"740812", Some(b"<<0101")), None);
    assert_eq!(parse_mrz_date_with_reference(b"+50101", None), date(2005, 1, 1));
}

#[test]
fn field_text_without_fillers() {
    assert_eq!(parse_field(b"UTO<<"), "UTO");
    assert_eq!(parse_field(b"<<<"), "");
    assert_eq!(parse_field(&[0xff, 0x41]), "");
    assert_eq!(parse_str_field("AB<C<<"), "AB<C");
    assert_eq!(parse_str_field(""), "");
}

#[test]
fn lines_are_padded_by_count() {
    let padded = normalize_lines(&["P<UTO", "L898"]);
    assert_eq!(padded[0].len(), 44);
    assert_eq!(&padded[0][..7], b"P<UTO<<");
    let padded = normalize_lines(&["A", "B", "C"]);
    assert!(padded.iter().all(|l| l.len() == 30));
    let padded = normalize_lines(&["M1"]);
    assert_eq!(padded[0].len(), 60);
    let padded = normalize_lines(&["A", "B", "C", "D"]);
    assert!(padded.iter().all(|l| l.len() == 1));
}

#[test]
fn passport_presented_for_display() {
    let td3 = [
        "P<UTOERIKSSON<<ANNA<MARIA<<<<<<<<<<<<<<<<<<<",
        "L898902C36UTO7408122F1204159ZE184226B<<<<<<<",
    ];
    let u = match parse_lines(&td3) {
        Ok(MRZ::Icao(u)) => u,
        other => panic!("unexpected {:?}", other),
    };
    assert_eq!(u.document_number(), "L898902C3");
    assert_eq!(u.surname(), "ERIKSSON");
    assert_eq!(u.given_names(), "ANNA MARIA");
    assert_eq!(u.full_name(), "ERIKSSON ANNA MARIA");
    assert_eq!(u.birth_date(), date(1974, 8, 12));
    assert_eq!(u.expiry_date(), date(2012, 4, 15));
    assert_eq!(u.sex(), 'F');
    assert_eq!(u.format(), "TD3");
    assert_eq!(u.document_code(), "P");
    assert_eq!(u.issuing_state(), "UTO");
    assert_eq!(u.nationality(), "UTO");
    assert_eq!(u.optional_data1(), "ZE184226B");
    assert_eq!(u.optional_data2(), "");
    assert_eq!(u.final_check(), None);
}

#[test]
fn identity_card_with_short_lines_is_padded() {
    let td1 = [
        "I<UTOD231458907",
        "7408122F1204159UTO<<<<<<<<<<<6",
        "ERIKSSON<<ANNA<MARIA",
    ];
    let u = match parse_lines(&td1) {
        Ok(MRZ::Icao(u)) => u,
        other => panic!("unexpected {:?}", other),
    };
    assert_eq!(u.format(), "TD1");
    assert_eq!(u.document_number(), "D23145890");
    assert_eq!(u.document_code(), "I");
    assert_eq!(u.final_check(), Some(true));
    assert_eq!(u.given_names(), "ANNA MARIA");
}

#[test]
fn host_errors_come_from_decoding() {
    assert_eq!(
        parse_lines(&["M1SMITH/JOHN"]).unwrap_err(),
        MRZParseError::UnsupportedFormat
    );
    assert_eq!(
        parse_lines(&["A", "B", "C", "D"]).unwrap_err(),
        MRZParseError::UnknownFormat
    );
    let td3 = [
        "P<UTOERIKSSON<<ANNA<MARIA",
        "L898902C36UTO7408121F1204159ZE184226B",
    ];
    assert_eq!(
        parse_lines(&td3).unwrap_err(),
        MRZParseError::InvalidChecksumField(MRZChecksumError::BirthDate)
    );
}

#[test]
fn unified_record_parts() {
    let u = MrzIcaoUnified::new(
        "X1".to_string(),
        "DOE".to_string(),
        "JANE".to_string(),
        date(1980, 1, 2),
        None,
        '<',
        "".to_string(),
        "".to_string(),
        Some(true),
        "UTO".to_string(),
        "UTO".to_string(),
        "ID".to_string(),
        "TD1".to_string(),
    );
    assert_eq!(u.full_name(), "DOE JANE");
    assert_eq!(u.birth_date(), date(1980, 1, 2));
    assert_eq!(u.expiry_date(), None);
    assert_eq!(u.sex(), '<');
}

#[test]
fn validation_of_record_flags() {
    let lines: [&[u8]; 2] = [
        b"P<UTOERIKSSON<<ANNA<MARIA<<<<<<<<<<<<<<<<<<<",
        b"L898902C36UTO7408122F1204159ZE184226B<<<<<<<",
    ];
    let mut record = match mrz::parser::parse_any(&lines) {
        Ok(mrz::ParsedMRZ::MrzIcaoTd3(m)) => m,
        other => panic!("unexpected {:?}", other),
    };
    assert_eq!(validate_common_fields(&record), Ok(()));
    record.final_check_valid = Some(false);
    assert_eq!(
        validate_common_fields(&record),
        Err(MRZParseError::InvalidChecksumField(MRZChecksumError::Final))
    );
    record.expiry_date_check_valid = false;
    assert_eq!(
        validate_common_fields(&record),
        Err(MRZParseError::InvalidChecksumField(MRZChecksumError::ExpiryDate))
    );
}

#[test]
fn flat_errors_name_the_field() {
    match FlatError::from_decode_error(MRZParseError::InvalidChecksumField(
        MRZChecksumError::ExpiryDate,
    )) {
        FlatError::InvalidChecksumField(s) => assert_eq!(s, "ExpiryDate"),
        other => panic!("unexpected {:?}", other),
    }
    assert!(matches!(
        FlatError::from_decode_error(MRZParseError::UnknownFormat),
        FlatError::UnknownFormat
    ));
}

#[test]
fn country_codes_are_decoded_lossily() {
    let lines: [&[u8]; 2] = [
        b"P<UTOERIKSSON<<ANNA<MARIA<<<<<<<<<<<<<<<<<<<",
        b"L898902C36UTO7408122F1204159ZE184226B<<<<<<<",
    ];
    let mut record = match mrz::parser::parse_any(&lines) {
        Ok(mrz::ParsedMRZ::MrzIcaoTd3(m)) => m,
        other => panic!("unexpected {:?}", other),
    };
    record.nationality = [0xff, b'U', b'<'];
    let u = MrzIcaoUnified::from_common_fields(&record, "TD3", "ERIKSSON", "ANNA", None, None, 'F');
    assert_eq!(u.nationality(), "\u{FFFD}U");
    assert_eq!(u.issuing_state(), "UTO");
    assert_eq!(u.document_code(), "P");
}
