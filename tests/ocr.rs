use mrz::field_correction::correct_checked_field;
use mrz::ocr::{ocr_permutations, ocr_substitutions};
use mrz::{MRZChecksumError, MRZParseError};

#[test]
fn test_ocr_substitutions() {
    assert_eq!(ocr_substitutions('O'), ['0']);
    assert_eq!(ocr_substitutions('0'), ['O']);
    assert_eq!(ocr_substitutions('S'), ['5']);
    assert_eq!(ocr_substitutions('5'), ['S']);
    assert_eq!(ocr_substitutions('I'), ['1']);
    assert_eq!(ocr_substitutions('1'), ['I']);
    assert_eq!(ocr_substitutions('A'), [] as [char; 0]);
}

#[test]
fn test_ocr_permutations_single_error() {
    let expected: &[u8] = b"X5Z987650";
    let corrected = ocr_permutations::<9, 16>(b"X5Z98765O", 2);
    assert!(corrected.iter().any(|s| s == expected));
}

#[test]
fn test_ocr_permutations_multiple_candidates() {
    let corrected = ocr_permutations::<4, 16>(b"S5O1", 2);
    assert!(corrected.iter().any(|s| s == b"5501"));
    assert!(corrected.iter().any(|s| s == b"S501"));
    assert!(corrected.iter().any(|s| s == b"S5O1"));
}

#[test]
fn test_ocr_permutations_no_substitution() {
    let corrected = ocr_permutations::<8, 16>(b"12345678", 2);
    assert!(corrected.iter().any(|s| s == b"12345678"));
}

#[test]
fn test_ocr_permutations_with_deep_substitution() {
    let corrected = ocr_permutations::<5, 64>(b"S5O1I", 3);
    assert!(corrected.iter().any(|s| s == b"55011"));
    assert!(corrected.iter().any(|s| s == b"S5011"));
    assert!(corrected.iter().any(|s| s == b"S5O1I"));
}

#[test]
fn test_ocr_permutations_exhaustive_limit() {
    let corrected = ocr_permutations::<4, 2>(b"S5O1", 1);
    assert!(
        corrected.len() <= 2,
        "Should not exceed the M=2 permutation limit"
    );
}

#[test]
fn test_ocr_permutations_all_substitutable() {
    let corrected = ocr_permutations::<6, 64>(b"O0S5I1", 3);
    assert!(corrected.iter().any(|s| s == b"005511"));
    assert!(corrected.iter().any(|s| s == b"O0S5I1"));
}

#[test]
fn test_ocr_permutations_repeated_substitutable() {
    let corrected = ocr_permutations::<6, 1024>(b"OOSSOO", 6);
    assert!(
        corrected.iter().any(|s| s == b"00SS00"),
        "Expected '00SS00' to be in permutations, got: {:?}",
        corrected
    );
}

#[test]
fn test_ocr_permutations_edges() {
    let corrected = ocr_permutations::<5, 16>(b"O123I", 2);
    assert!(corrected.iter().any(|s| s == b"01231"));
}

#[test]
fn test_ocr_permutations_max_depth_limit() {
    let corrected = ocr_permutations::<4, 64>(b"O5I1", 1);
    assert!(!corrected.iter().any(|s| s == b"0511"));
}

#[test]
fn test_ocr_permutations_no_candidates() {
    let corrected = ocr_permutations::<4, 16>(b"EFGH", 2);
    assert!(
        corrected.iter().all(|s| s == b"EFGH"),
        "Expected only original string 'EFGH', got: {:?}",
        corrected
    );
}

#[test]
fn test_ocr_substitutions_debug_abcd() {
    println!("Substitutions for A: {:?}", ocr_substitutions('A'));
    println!("Substitutions for B: {:?}", ocr_substitutions('B'));
    println!("Substitutions for C: {:?}", ocr_substitutions('C'));
    println!("Substitutions for D: {:?}", ocr_substitutions('D'));
    assert!(ocr_substitutions('A').is_empty());
    assert_eq!(ocr_substitutions('B'), ['8']);
    assert!(ocr_substitutions('C').is_empty());
    assert!(ocr_substitutions('D').is_empty());
}

#[test]
fn test_ocr_permutations_debug_00ss00() {
    let corrected = ocr_permutations::<6, 1024>(b"OOSSOO", 6);
    println!(
        "Generated permutations for OOSSOO (len={}): {:?}",
        corrected.len(),
        corrected
    );
    assert!(corrected.iter().any(|s| s == b"00SS00"));
}

#[test]
fn test_ocr_permutations_nested_errors() {
    let corrected = ocr_permutations::<4, 64>(b"O5I1", 3);
    assert!(corrected.iter().any(|s| s == b"0511"));
    assert!(corrected.iter().any(|s| s == b"O511"));
    assert!(corrected.iter().any(|s| s == b"O5I1"));
}

#[test]
fn test_ocr_permutations_exceeding_max_depth() {
    let corrected = ocr_permutations::<4, 64>(b"O5I1", 0);
    assert_eq!(corrected.len(), 1);
    assert_eq!(corrected[0], b"O5I1");
}

#[test]
fn test_ocr_permutations_minimal_input() {
    let corrected = ocr_permutations::<1, 4>(b"O", 1);
    assert!(corrected.iter().any(|s| s == b"0"));
    assert!(corrected.iter().any(|s| s == b"O"));
}

#[test]
fn test_ocr_permutations_large_input_with_few_substitutions() {
    let corrected = ocr_permutations::<16, 128>(b"ABCD1234EFGH5678", 2);
    assert!(corrected.iter().any(|s| s == b"ABCD1234EFGH5678"));
}

#[test]
fn test_ocr_permutations_all_identical_substitutable() {
    let corrected = ocr_permutations::<4, 128>(b"OOOO", 4);
    println!(
        "Generated permutations for 'OOOO' (count: {}): {:?}",
        corrected.len(),
        corrected
    );
    assert!(
        corrected.iter().any(|s| s == b"0000"),
        "Expected '0000' in permutations, got: {:?}",
        corrected
    );
    assert!(
        corrected.iter().any(|s| s == b"OOOO"),
        "Expected original 'OOOO' in permutations"
    );
}

#[test]
fn test_document_number_ocr_s_as_5() {
    const MAX_FIELD_PERMUTATIONS: usize = 8;

    let field: &[u8] = b"D2314589O";
    let check_char: u8 = b'7';

    let corrected = correct_checked_field::<9, MAX_FIELD_PERMUTATIONS>(
        field,
        check_char,
        MAX_FIELD_PERMUTATIONS,
        MRZChecksumError::DocumentNumber,
    );

    assert!(corrected.is_ok(), "Correction failed: {corrected:?}");
    assert_eq!(
        corrected.unwrap().value().as_slice(),
        b"D23145890",
        "Corrected string mismatch"
    );
}

#[test]
fn substitution_table_is_symmetric() {
    for c in ['O', '0', 'I', '1', 'S', '5', 'B', '8'] {
        let subs = ocr_substitutions(c);
        assert_eq!(subs.len(), 1);
        assert_eq!(ocr_substitutions(subs[0]), [c]);
    }
    for c in ['A', 'C', 'Z', '2', '9', '<', 'o'] {
        assert!(ocr_substitutions(c).is_empty());
    }
}

#[test]
fn permutations_at_depth_zero_are_the_input_alone() {
    let corrected = ocr_permutations::<6, 64>(b"OOSSOO", 0);
    assert_eq!(corrected, vec![b"OOSSOO".to_vec()]);
}

#[test]
fn permutations_come_in_breadth_first_order() {
    let corrected = ocr_permutations::<2, 16>(b"O1", 2);
    assert_eq!(corrected.len(), 4);
    assert_eq!(corrected[0], b"O1");
    assert!(corrected[1..3].contains(&b"01".to_vec()));
    assert!(corrected[1..3].contains(&b"OI".to_vec()));
    assert_eq!(corrected[3], b"0I");
}

#[test]
fn permutations_stop_at_the_cap_after_fewer_substitutions() {
    let corrected = ocr_permutations::<4, 3>(b"OOOO", 4);
    assert_eq!(corrected.len(), 3);
    assert_eq!(corrected[0], b"OOOO");
    for s in &corrected[1..] {
        assert_eq!(s.iter().filter(|&&b| b == b'0').count(), 1);
    }
}

#[test]
fn permutations_are_distinct() {
    let corrected = ocr_permutations::<6, 1024>(b"OOSSOO", 6);
    assert_eq!(corrected.len(), 64);
    for i in 0..corrected.len() {
        for j in i + 1..corrected.len() {
            assert_ne!(corrected[i], corrected[j]);
        }
    }
}

#[test]
fn correction_picks_fewest_substitutions() {
    // "55" has check digit 0, "S5" 1, "5S" 9 and "SS" 0.
    let refused = correct_checked_field::<2, 8>(b"55", b'7', 8, MRZChecksumError::DocumentNumber);
    assert_eq!(
        refused.unwrap_err(),
        MRZParseError::InvalidChecksumField(MRZChecksumError::DocumentNumber)
    );
    let repaired = correct_checked_field::<2, 8>(b"55", b'1', 8, MRZChecksumError::DocumentNumber)
        .unwrap();
    assert_eq!(repaired.value().as_slice(), b"S5");
    assert!(repaired.is_valid());
    assert_eq!(repaired.check_digit(), Some(b'1'));
}

#[test]
fn correction_trims_fillers_and_rejects_non_digit_check() {
    // "AB1O" has check digit 2, "AB10" 4.
    let repaired =
        correct_checked_field::<9, 8>(b"AB1O<<<<<", b'4', 8, MRZChecksumError::DocumentNumber);
    assert_eq!(repaired.unwrap().value().as_slice(), b"AB10");
    let refused =
        correct_checked_field::<9, 8>(b"AB10<<<<<", b'<', 8, MRZChecksumError::ExpiryDate);
    assert_eq!(
        refused.unwrap_err(),
        MRZParseError::InvalidChecksumField(MRZChecksumError::ExpiryDate)
    );
}

#[test]
fn correction_accepts_fillers_beyond_the_width() {
    // Nine bytes, four of them before the trailing fillers.
    let repaired =
        correct_checked_field::<4, 8>(b"AB1O<<<<<", b'4', 8, MRZChecksumError::DocumentNumber);
    assert_eq!(repaired.unwrap().value().as_slice(), b"AB10");
}
