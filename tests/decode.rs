use mrz::document::{split_given_names, split_surname, MrzIcaoTd1};
use mrz::parser::{detect_format, parse_any};
use mrz::{MRZChecksumError, MRZFormat, MRZParseError, MrzIcaoCommonFields, ParsedMRZ};

fn assert_checksum_matches(mrz: &MrzIcaoTd1) {
    assert_eq!(
        mrz.is_document_number_valid(),
        true,
        "Document number checksum failed"
    );
    assert_eq!(mrz.is_birth_date_valid(), true, "Birth date checksum failed");
    assert_eq!(mrz.is_expiry_date_valid(), true, "Expiry date checksum failed");

    if let Some(valid) = mrz.is_final_check_valid() {
        assert!(valid, "Final checksum failed");
    }
}

#[test]
fn test_valid_icao() {
    let line1 = b"P<UTOERIKSSON<<ANNA<MARIA<<<<<<<<<<<<<<<<<<<";
    let line2 = b"L898902C36UTO7408122F1204159ZE184226B<<<<<<<";

    let result = parse_any(&[line1, line2]);
    assert!(matches!(result, Ok(ParsedMRZ::MrzIcaoTd3(_))));
}

#[test]
fn test_invalid_format() {
    let line = b"THISISNOTVALIDMRZDATA";
    let result = parse_any(&[line]);
    assert!(matches!(result, Err(MRZParseError::UnknownFormat)));
}

#[test]
fn test_valid_td1_without_final_check() {
    let lines = [
        b"I<UTOD231458907<<<<<<<<<<<<<<<",
        b"7408122F1204159UTO<<<<<<<<<<<<",
        b"ERIKSSON<<ANNA<MARIA<<<<<<<<<<",
    ];
    let lines_ref: [&[u8]; 3] = [&lines[0][..], &lines[1][..], &lines[2][..]];
    let result = parse_any(&lines_ref);
    assert!(
        matches!(result, Ok(ParsedMRZ::MrzIcaoTd1(_))),
        "Expected ParsedMRZ::MrzIcaoTd1, got {:?}",
        result
    );
    if let Ok(ParsedMRZ::MrzIcaoTd1(mrz)) = result {
        assert!(mrz.is_birth_date_valid(), "Birth date check failed");
        assert!(mrz.is_expiry_date_valid(), "Expiry date check failed");
        assert_eq!(
            mrz.is_final_check_valid(),
            None,
            "Expected final check to be skipped"
        );
        assert!(
            mrz.is_document_number_valid(),
            "Document number check failed"
        );
        assert_eq!(mrz.given_names(), b"ANNA MARIA", "Given names did not match");
        assert_eq!(mrz.surname(), b"ERIKSSON", "Surnames did not match");
        assert_checksum_matches(&mrz);
    }
}

#[test]
fn test_invalid_td1_sample() {
    let lines = [
        b"I<UTOD231458907<<<<<<<<<<<<<<<",
        b"7408121F1204153UTO<<<<<<<<<<<<",
        b"ERIKSSON<<ANNA<MARIA<<<<<<<<<<",
    ];
    let lines_ref: [&[u8]; 3] = [&lines[0][..], &lines[1][..], &lines[2][..]];
    let result = parse_any(&lines_ref);
    assert!(
        matches!(result, Err(MRZParseError::InvalidChecksumField(_))),
        "Expected Err(MRZParseError::InvalidChecksumField(_)), got {:?}",
        result
    );
}

#[test]
fn test_valid_td1_with_final_check_1() {
    let lines = [
        b"I<UTOD231458907<<<<<<<<<<<<<<<",
        b"7408122F1204159UTO<<<<<<<<<<<6",
        b"ERIKSSON<<ANNA<MARIA<<<<<<<<<<",
    ];
    let lines_ref: [&[u8]; 3] = [&lines[0][..], &lines[1][..], &lines[2][..]];
    let result = parse_any(&lines_ref);
    assert!(
        matches!(result, Ok(ParsedMRZ::MrzIcaoTd1(_))),
        "Expected ParsedMRZ::MrzIcaoTd1, got {:?}",
        result
    );
    if let Ok(ParsedMRZ::MrzIcaoTd1(mrz)) = result {
        assert!(
            mrz.is_document_number_valid(),
            "Document number check failed"
        );
        assert!(mrz.is_birth_date_valid(), "Birth date check failed");
        assert!(mrz.is_expiry_date_valid(), "Expiry date check failed");
        assert_eq!(
            mrz.is_final_check_valid(),
            Some(true),
            "Final check missing or incorrect"
        );
        assert_eq!(mrz.given_names(), b"ANNA MARIA", "Given names did not match");
        assert_eq!(mrz.surname(), b"ERIKSSON", "Surnames did not match");
        assert_checksum_matches(&mrz);
    }
}

#[test]
fn test_valid_td1_with_final_check_2() {
    let lines = [
        b"I<YTOD231458907<<<<<<<<<<<<<<<",
        b"3407127M9507122YTO<<<<<<<<<<<2",
        b"ERIKSSON<<ANNA<MARIA<<<<<<<<<<",
    ];
    let lines_ref: [&[u8]; 3] = [&lines[0][..], &lines[1][..], &lines[2][..]];
    let result = parse_any(&lines_ref);
    assert!(
        matches!(result, Ok(ParsedMRZ::MrzIcaoTd1(_))),
        "Expected ParsedMRZ::MrzIcaoTd1, got {:?}",
        result
    );
    if let Ok(ParsedMRZ::MrzIcaoTd1(mrz)) = result {
        assert!(
            mrz.is_document_number_valid(),
            "Document number check failed"
        );
        assert!(mrz.is_birth_date_valid(), "Birth date check failed");
        assert!(mrz.is_expiry_date_valid(), "Expiry date check failed");
        assert!(
            mrz.is_birth_date_valid(),
            "Final check missing or incorrect"
        );
        assert_eq!(mrz.given_names(), b"ANNA MARIA", "Given names did not match");
        assert_eq!(mrz.surname(), b"ERIKSSON", "Surnames did not match");
        assert_checksum_matches(&mrz);
    }
}

#[test]
fn test_td1_document_number_with_ocr_substitution_o_instead_of_0() {
    let lines = [
        b"I<YTOD2314589O7<<<<<<<<<<<<<<<",
        b"3407127M9507122YTO<<<<<<<<<<<2",
        b"ERIKSSON<<ANNA<MARIA<<<<<<<<<<",
    ];
    let lines_ref: [&[u8]; 3] = [&lines[0][..], &lines[1][..], &lines[2][..]];
    let result = parse_any(&lines_ref);
    assert!(
        result.is_ok(),
        "Expected successful parse with corrected OCR error, got {:?}",
        result
    );
}

#[test]
fn test_td1_document_number_with_ocr_substitution_5_instead_of_s() {
    let lines = [
        b"I<YTOD2314S8907<<<<<<<<<<<<<<<",
        b"3407127M9507122YTO<<<<<<<<<<<2",
        b"ERIKSSON<<ANNA<MARIA<<<<<<<<<<",
    ];
    let lines_ref: [&[u8]; 3] = [&lines[0][..], &lines[1][..], &lines[2][..]];
    let result = parse_any(&lines_ref);
    assert!(
        result.is_ok(),
        "Expected successful parse with corrected OCR error, got {:?}",
        result
    );
}

#[test]
fn test_td1_with_missing_final_check_digit() {
    let lines = [
        b"I<UTOD231458907<<<<<<<<<<<<<<<",
        b"7408122F1204159UTO<<<<<<<<<<<<",
        b"ERIKSSON<<ANNA<MARIA<<<<<<<<<<",
    ];
    let lines_ref = [&lines[0][..], &lines[1][..], &lines[2][..]];
    let result = parse_any(&lines_ref);
    assert!(
        matches!(result, Ok(ParsedMRZ::MrzIcaoTd1(_))),
        "Expected successful parse with missing final check digit, got {:?}",
        result
    );
    if let Ok(ParsedMRZ::MrzIcaoTd1(mrz)) = result {
        assert_eq!(
            mrz.is_final_check_valid(),
            None,
            "Expected final check to be skipped"
        );
        assert!(mrz.is_document_number_valid());
        assert!(mrz.is_birth_date_valid());
        assert!(mrz.is_expiry_date_valid());
        assert_checksum_matches(&mrz);
    }
}

#[test]
fn test_valid_td3_wo_final_checksum() {
    let line1 = b"P<UTOERIKSSON<<ANNA<MARIA<<<<<<<<<<<<<<<<<<<";
    let line2 = b"L898902C36UTO7408122F1204159ZE184226B<<<<<<<";

    let result = parse_any(&[line1, line2]);
    assert!(matches!(result, Ok(ParsedMRZ::MrzIcaoTd3(_))));
}

#[test]
fn test_valid_td3_with_final_checksum() {
    let line1 = b"PPUTOERIKSSON<<ANNA<MARIA<<<<<<<<<<<<<<<<<<<";
    let line2 = b"L898902C36UTO7408122F1204159ZE184226B<<<<<10";

    let result = parse_any(&[line1, line2]);
    assert!(
        matches!(result, Ok(ParsedMRZ::MrzIcaoTd3(_))),
        "Expected ParsedMRZ::MrzIcaoTd3, got {:?}",
        result
    );
    if let Ok(ParsedMRZ::MrzIcaoTd3(mrz)) = result {
        assert!(
            mrz.is_document_number_valid(),
            "Document number check should have passed"
        );
        assert!(
            mrz.is_birth_date_valid(),
            "Birth date check should have passed"
        );
        assert!(
            mrz.is_expiry_date_valid(),
            "Expiry date check should have passed"
        );
        assert_eq!(
            mrz.is_final_check_valid(),
            Some(true),
            "Final check digit should be present and correct"
        );
    }
}

#[test]
fn test_invalid_td3_final_checksum() {
    let line1 = b"PPUTOERIKSSON<<ANNA<MARIA<<<<<<<<<<<<<<<<<<<";
    let line2 = b"L898902C36UTO7408122F1204159ZE184226B<<<<<11";

    let result = parse_any(&[line1, line2]);
    if let Ok(ParsedMRZ::MrzIcaoTd3(mrz)) = result {
        assert_eq!(
            mrz.is_final_check_valid(),
            Some(false),
            "Final check digit should be present and incorrect"
        );
        assert_eq!(mrz.document_number(), b"L898902C3");
        assert_eq!(mrz.surname(), b"ERIKSSON");
        assert_eq!(mrz.given_names(), b"ANNA MARIA");
        assert_eq!(core::str::from_utf8(mrz.nationality()).unwrap(), "UTO");
        assert_eq!(core::str::from_utf8(mrz.birth_date()).unwrap(), "740812");
        assert_eq!(core::str::from_utf8(mrz.expiry_date()).unwrap(), "120415");
        assert_eq!(mrz.sex(), b'F');
    }
}

#[test]
fn test_invalid_td3_checksums() {
    let line1 = b"PPUTOERIKSSON<<ANNA<MARIA<<<<<<<<<<<<<<<<<<<";
    let line2 = b"L898902C37UTO7408121F1204158ZE184226B<<<<<10";

    let result = parse_any(&[line1, line2]);
    if let Ok(ParsedMRZ::MrzIcaoTd3(mrz)) = result {
        assert!(
            !mrz.is_document_number_valid(),
            "Document number check should have failed"
        );
        assert!(
            !mrz.is_birth_date_valid(),
            "Birth date check should have failed"
        );
        assert!(
            !mrz.is_expiry_date_valid(),
            "Expiry date check should have failed"
        );
        assert_eq!(
            mrz.is_final_check_valid(),
            Some(false),
            "Final check digit should be present and incorrect"
        );
    }
}

#[test]
fn test_td3_with_missing_final_check_digit() {
    let line1 = b"PPUTOERIKSSON<<ANNA<MARIA<<<<<<<<<<<<<<<<<<<";
    let line2 = b"L898902C36UTO7408122F1204159ZE184226B<<<<<1<";

    let result = parse_any(&[line1, line2]);
    assert!(
        matches!(result, Ok(ParsedMRZ::MrzIcaoTd3(_))),
        "Expected ParsedMRZ::MrzIcaoTd3 with missing final check, got {:?}",
        result
    );
    if let Ok(ParsedMRZ::MrzIcaoTd3(mrz)) = result {
        assert_eq!(
            mrz.is_final_check_valid(),
            None,
            "Final check digit should be treated as absent"
        );
    }
}

#[test]
fn test_td3_with_ocr_error_in_expiry_date() {
    let line1 = b"PPUTOERIKSSON<<ANNA<MARIA<<<<<<<<<<<<<<<<<<<";
    let line2 = b"L898902C36UTO7408122F12O4159ZE184226B<<<<<10";

    let result = parse_any(&[line1, line2]);
    assert!(
        matches!(
            result,
            Err(MRZParseError::InvalidChecksumField(
                MRZChecksumError::ExpiryDate
            ))
        ),
        "Expected InvalidChecksumField(ExpiryDate), got {:?}",
        result
    );
}

#[test]
fn td3_passport_fields_and_names() {
    let line1 = b"P<UTOERIKSSON<<ANNA<MARIA<<<<<<<<<<<<<<<<<<<";
    let line2 = b"L898902C36UTO7408122F1204159ZE184226B<<<<<<<";
    let result = parse_any(&[line1, line2]);
    let mrz = match result {
        Ok(ParsedMRZ::MrzIcaoTd3(mrz)) => mrz,
        other => panic!("unexpected {:?}", other),
    };
    assert_eq!(mrz.document_number(), b"L898902C3");
    assert_eq!(mrz.surname(), b"ERIKSSON");
    assert_eq!(mrz.given_names(), b"ANNA MARIA");
    assert_eq!(mrz.sex(), b'F');
    assert_eq!(mrz.is_final_check_valid(), None);
    assert!(!mrz.has_final_check());
    assert_eq!(mrz.document_code(), b"P<");
    assert_eq!(mrz.issuing_state(), b"UTO");
    assert_eq!(mrz.nationality(), b"UTO");
    assert_eq!(mrz.birth_date(), b"740812");
    assert_eq!(mrz.expiry_date(), b"120415");
    assert_eq!(mrz.raw_name(), &line1[5..44]);
    assert_eq!(mrz.optional_data1(), b"ZE184226B<<<<<<");
    assert_eq!(mrz.optional_data2(), &line1[28..43]);
}

#[test]
fn td3_final_check_present_and_correct() {
    let line1 = b"P<UTOERIKSSON<<ANNA<MARIA<<<<<<<<<<<<<<<<<<<";
    let line2 = b"L898902C36UTO7408122F1204159ZE184226B<<<<<10";
    match parse_any(&[line1, line2]) {
        Ok(ParsedMRZ::MrzIcaoTd3(mrz)) => {
            assert_eq!(mrz.is_final_check_valid(), Some(true));
            assert!(mrz.is_document_number_valid());
            assert!(mrz.is_birth_date_valid());
            assert!(mrz.is_expiry_date_valid());
        }
        other => panic!("unexpected {:?}", other),
    }
}

#[test]
fn td3_wrong_final_check_is_an_error() {
    let line1 = b"P<UTOERIKSSON<<ANNA<MARIA<<<<<<<<<<<<<<<<<<<";
    let line2 = b"L898902C36UTO7408122F1204159ZE184226B<<<<<11";
    assert_eq!(
        parse_any(&[line1, line2]),
        Err(MRZParseError::InvalidChecksumField(MRZChecksumError::Final))
    );
}

#[test]
fn td3_birth_date_check_failure() {
    let line1 = b"P<UTOERIKSSON<<ANNA<MARIA<<<<<<<<<<<<<<<<<<<";
    let line2 = b"L898902C36UTO7408121F1204159ZE184226B<<<<<<<";
    assert_eq!(
        parse_any(&[line1, line2]),
        Err(MRZParseError::InvalidChecksumField(MRZChecksumError::BirthDate))
    );
}

#[test]
fn td3_document_number_beyond_repair() {
    let line1 = b"P<UTOERIKSSON<<ANNA<MARIA<<<<<<<<<<<<<<<<<<<";
    let line2 = b"L898902C38UTO7408122F1204159ZE184226B<<<<<<<";
    assert_eq!(
        parse_any(&[line1, line2]),
        Err(MRZParseError::InvalidChecksumField(MRZChecksumError::DocumentNumber))
    );
}

#[test]
fn td3_document_number_repaired() {
    let line1 = b"P<UTOERIKSSON<<ANNA<MARIA<<<<<<<<<<<<<<<<<<<";
    let line2 = b"L8989O2C36UTO7408122F1204159ZE184226B<<<<<10";
    match parse_any(&[line1, line2]) {
        Ok(ParsedMRZ::MrzIcaoTd3(mrz)) => {
            assert_eq!(mrz.document_number(), b"L898902C3");
            assert_eq!(mrz.is_final_check_valid(), Some(true));
        }
        other => panic!("unexpected {:?}", other),
    }
}

#[test]
fn td1_document_number_repaired_value() {
    let lines: [&[u8]; 3] = [
        b"I<YTOD2314589O7<<<<<<<<<<<<<<<",
        b"3407127M9507122YTO<<<<<<<<<<<2",
        b"ERIKSSON<<ANNA<MARIA<<<<<<<<<<",
    ];
    match parse_any(&lines) {
        Ok(ParsedMRZ::MrzIcaoTd1(mrz)) => {
            assert_eq!(mrz.document_number(), b"D23145890");
            assert!(mrz.is_document_number_valid());
            assert_eq!(mrz.is_final_check_valid(), Some(true));
            assert_eq!(mrz.document_code(), b"I<");
            assert_eq!(mrz.issuing_state(), b"YTO");
            assert_eq!(mrz.nationality(), b"YTO");
            assert_eq!(mrz.sex(), b'M');
            assert_eq!(mrz.birth_date(), b"340712");
            assert_eq!(mrz.expiry_date(), b"950712");
            assert_eq!(mrz.optional_data1(), b"<<<<<<<<<<<<<<<");
            assert_eq!(mrz.optional_data2(), b"<<<<<<<<<<<");
        }
        other => panic!("unexpected {:?}", other),
    }
}

#[test]
fn td1_dates_are_not_repaired() {
    let lines: [&[u8]; 3] = [
        b"I<YTOD231458907<<<<<<<<<<<<<<<",
        b"34O7127M9507122YTO<<<<<<<<<<<2",
        b"ERIKSSON<<ANNA<MARIA<<<<<<<<<<",
    ];
    assert_eq!(
        parse_any(&lines),
        Err(MRZParseError::InvalidChecksumField(MRZChecksumError::BirthDate))
    );
    let lines: [&[u8]; 3] = [
        b"I<UTOD231458907<<<<<<<<<<<<<<<",
        b"7408122F12O4159UTO<<<<<<<<<<<6",
        b"ERIKSSON<<ANNA<MARIA<<<<<<<<<<",
    ];
    assert_eq!(
        parse_any(&lines),
        Err(MRZParseError::InvalidChecksumField(MRZChecksumError::ExpiryDate))
    );
}

#[test]
fn td1_wrong_final_check_is_an_error() {
    let lines: [&[u8]; 3] = [
        b"I<UTOD231458907<<<<<<<<<<<<<<<",
        b"7408122F1204159UTO<<<<<<<<<<<5",
        b"ERIKSSON<<ANNA<MARIA<<<<<<<<<<",
    ];
    assert_eq!(
        parse_any(&lines),
        Err(MRZParseError::InvalidChecksumField(MRZChecksumError::Final))
    );
}

#[test]
fn boarding_pass_is_unsupported() {
    let line = b"M1SMITH/JOHN           AA1234 JFKLAX12C3";
    assert_eq!(detect_format(&[line]), MRZFormat::BCBP);
    assert_eq!(parse_any(&[line]), Err(MRZParseError::UnsupportedFormat));
    let short = b"M1X";
    assert_eq!(parse_any(&[short]), Err(MRZParseError::UnsupportedFormat));
}

#[test]
fn detection_by_count_width_and_prefix() {
    let l40 = [b'<'; 40];
    let p40: Vec<u8> = [b"P".as_slice(), &[b'<'; 39]].concat();
    assert_eq!(detect_format(&[p40.as_slice(), &l40]), MRZFormat::MrzIcaoTd3);
    assert_eq!(detect_format(&[&l40, &l40]), MRZFormat::Unknown);
    let l30 = [b'<'; 30];
    assert_eq!(detect_format(&[&l30, &l30, &l30]), MRZFormat::MrzIcaoTd1);
    assert_eq!(detect_format(&[&l30, &l30, &l40]), MRZFormat::Unknown);
    assert_eq!(detect_format(&[]), MRZFormat::Unknown);
    assert_eq!(parse_any(&[]), Err(MRZParseError::UnknownFormat));
}

#[test]
fn td3_lines_too_short_for_decoding() {
    let line1 = b"P<UTOERIKSSON<<ANNA<MARIA<<<<<<<<<<<<<<<<<<";
    let line2 = b"L898902C36UTO7408122F1204159ZE184226B<<<<<10";
    assert_eq!(line1.len(), 43);
    assert_eq!(detect_format(&[line1, line2]), MRZFormat::MrzIcaoTd3);
    assert_eq!(parse_any(&[line1, line2]), Err(MRZParseError::InvalidLength));
}

#[test]
fn decoding_twice_gives_identical_records() {
    let line1 = b"P<UTOERIKSSON<<ANNA<MARIA<<<<<<<<<<<<<<<<<<<";
    let line2 = b"L898902C36UTO7408122F1204159ZE184226B<<<<<10";
    let first = parse_any(&[line1, line2]);
    let second = parse_any(&[line1, line2]);
    assert!(first.is_ok());
    assert_eq!(first, second);
    let lines: [&[u8]; 3] = [
        b"I<YTOD2314589O7<<<<<<<<<<<<<<<",
        b"3407127M9507122YTO<<<<<<<<<<<2",
        b"ERIKSSON<<ANNA<MARIA<<<<<<<<<<",
    ];
    assert_eq!(parse_any(&lines), parse_any(&lines));
}

#[test]
fn name_split_without_delimiter() {
    assert_eq!(split_surname(b"ERIKSSON"), b"ERIKSSON");
    assert!(split_given_names(b"ERIKSSON").is_empty());
    assert_eq!(split_surname(b"VON<BRAUN<<JO<<"), b"VON<BRAUN");
    assert_eq!(split_given_names(b"VON<BRAUN<<JO<ANN<<<"), b"JO ANN");
    assert!(split_given_names(b"<<<<").is_empty());
}

#[test]
fn test_td3_with_ocr_s_instead_of_5_in_document_number() {
    // XSZ987654 fails its check digit 6; the one-substitution repair
    // X5Z987654 passes it, and the composite digit then holds.
    let line1 = b"PPUTOERIKSSON<<ANNA<MARIA<<<<<<<<<<<<<<<<<<<";
    let line2 = b"XSZ9876546UTO7408122F1204159ZE184226B<<<<<10";

    let result = parse_any(&[line1, line2]);
    match result {
        Ok(ParsedMRZ::MrzIcaoTd3(mrz)) => {
            assert_eq!(mrz.document_number(), b"X5Z987654");
            assert!(mrz.is_document_number_valid());
            assert_eq!(mrz.is_final_check_valid(), Some(true));
        }
        other => panic!("Expected the repaired document number, got {:?}", other),
    }
}

#[test]
fn test_td3_with_ocr_i_instead_of_1_in_document_number() {
    // XIZ987654 fails its check digit 4; the first repair in breadth-first
    // order is X1Z987654, over which the composite digit 0 does not hold.
    let line1 = b"PPUTOERIKSSON<<ANNA<MARIA<<<<<<<<<<<<<<<<<<<";
    let line2 = b"XIZ9876544UTO7408122F1204159ZE184226B<<<<<10";

    let result = parse_any(&[line1, line2]);
    assert!(
        matches!(
            result,
            Err(MRZParseError::InvalidChecksumField(MRZChecksumError::Final))
        ),
        "Expected InvalidChecksumField(Final) after the I->1 repair, got {:?}",
        result
    );
}

fn common_summary<T: MrzIcaoCommonFields>(mrz: &T) -> (Vec<u8>, Vec<u8>, bool, Option<bool>) {
    (
        MrzIcaoCommonFields::surname(mrz),
        MrzIcaoCommonFields::document_number(mrz).to_vec(),
        MrzIcaoCommonFields::is_birth_date_valid(mrz),
        MrzIcaoCommonFields::is_final_check_valid(mrz),
    )
}

#[test]
fn common_fields_across_layouts() {
    let td3: [&[u8]; 2] = [
        b"P<UTOERIKSSON<<ANNA<MARIA<<<<<<<<<<<<<<<<<<<",
        b"L898902C36UTO7408122F1204159ZE184226B<<<<<10",
    ];
    let td1: [&[u8]; 3] = [
        b"I<UTOD231458907<<<<<<<<<<<<<<<",
        b"7408122F1204159UTO<<<<<<<<<<<<",
        b"ERIKSSON<<ANNA<MARIA<<<<<<<<<<",
    ];
    match parse_any(&td3) {
        Ok(ParsedMRZ::MrzIcaoTd3(m)) => assert_eq!(
            common_summary(&m),
            (b"ERIKSSON".to_vec(), b"L898902C3".to_vec(), true, Some(true))
        ),
        other => panic!("unexpected {:?}", other),
    }
    match parse_any(&td1) {
        Ok(ParsedMRZ::MrzIcaoTd1(m)) => {
            assert_eq!(
                common_summary(&m),
                (b"ERIKSSON".to_vec(), b"D23145890".to_vec(), true, None)
            );
            assert!(!MrzIcaoCommonFields::has_final_check(&m));
            assert_eq!(MrzIcaoCommonFields::given_names(&m), b"ANNA MARIA");
        }
        other => panic!("unexpected {:?}", other),
    }
}
