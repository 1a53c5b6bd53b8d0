use swiss_uid::scan::scan_digits;
use swiss_uid::uid::{calculate_checkdigit, SwissUid, UidError, UidPrefix};

#[test]
fn round_trip_of_parsed_values() {
    for text in [
        "CHE-109.322.551",
        "ADM-109.322.551",
        "CHE-100.002.005",
        "che 109 322 551",
        "ADM109322551",
    ] {
        let uid = SwissUid::new(text).unwrap();
        let again = SwissUid::new(&uid.to_string()).unwrap();
        assert_eq!(again, uid);
        assert_eq!(again.to_string(), uid.to_string());
    }
}

#[test]
fn lowercase_prefix_is_normalised() {
    let uid = SwissUid::new("che-109.322.551").unwrap();
    assert_eq!(uid.prefix(), UidPrefix::CHE);
    assert_eq!(uid.to_string(), "CHE-109.322.551");
    let adm = SwissUid::new("aDm 109 322 551").unwrap();
    assert_eq!(adm.prefix(), UidPrefix::ADM);
    assert_eq!(adm.to_string_debug(), "ADM-109.322.55[1]");
}

#[test]
fn checksum_is_deterministic() {
    let digits = [1u8, 0, 9, 3, 2, 2, 5, 5];
    let first = calculate_checkdigit(&digits);
    let second = calculate_checkdigit(&digits);
    assert_eq!(first, second);
    assert_eq!(first, Ok(1));
}

#[test]
fn checksum_exact_values() {
    // 5*1 + 4*0 + 3*0 + 2*0 + 7*0 + 6*2 = 17, 17 mod 11 = 6, 11 - 6 = 5
    assert_eq!(calculate_checkdigit(&[1, 0, 0, 0, 0, 2, 0, 0]), Ok(5));
    // 5*1 = 5, 11 - 5 = 6
    assert_eq!(calculate_checkdigit(&[1, 0, 0, 0, 0, 0, 0, 0]), Ok(6));
    // 0 mod 11 = 0, 11 - 0 = 11, which wraps to 0
    assert_eq!(calculate_checkdigit(&[0, 0, 0, 0, 0, 0, 0, 0]), Ok(0));
}

#[test]
fn checksum_wrong_length() {
    assert_eq!(
        calculate_checkdigit(&[1, 0, 9]),
        Err(UidError::InvalidFormat("UID must have 8 digits".to_owned()))
    );
    assert_eq!(
        calculate_checkdigit(&[1, 0, 9, 3, 2, 2, 5, 5, 1]),
        Err(UidError::InvalidFormat("UID must have 8 digits".to_owned()))
    );
}

#[test]
fn degenerate_payload_has_no_check_digit() {
    assert_eq!(
        calculate_checkdigit(&[0, 0, 0, 0, 0, 2, 0, 0]),
        Err(UidError::InvalidCheckDigit("10".to_owned()))
    );
}

#[test]
fn degenerate_payload_is_rejected_whatever_the_ninth_digit() {
    for d in 0..10 {
        let text = format!("CHE-000.002.00{}", d);
        match SwissUid::new(&text) {
            Err(UidError::InvalidCheckDigit(m)) => {
                assert_eq!(m, format!("'CHE-000.002.00[{}]' is prohibited from use", d))
            }
            other => panic!("unexpected result for {}: {:?}", text, other),
        }
    }
}

#[test]
fn unknown_prefixes_are_rejected() {
    for text in ["XYZ-109.322.551", "CHF-109.322.551", "adn 109 322 551", "ABC-12"] {
        match SwissUid::new(text) {
            Err(UidError::InvalidFormat(_)) => {}
            other => panic!("unexpected result for {}: {:?}", text, other),
        }
    }
    assert_eq!(
        SwissUid::new("XYZ-109.322.551").unwrap_err().to_string(),
        "Invalid format: 'XYZ' prefix must be 'CHE' or 'ADM'"
    );
}

#[test]
fn digits_without_prefix_name_an_empty_token() {
    assert_eq!(
        SwissUid::new("109.322.551").unwrap_err().to_string(),
        "Invalid format: '' prefix must be 'CHE' or 'ADM'"
    );
}

#[test]
fn malformed_texts() {
    for text in [
        "",
        "CH",
        "CHE",
        "CHE-109.322.55",
        "CHE--109.322.551",
        "CHE-109..322.551",
        "CHE-10.9322.551",
        "ÄBC-109.322.551",
        "CHE-１０９.322.551",
    ] {
        assert_eq!(
            SwissUid::new(text).unwrap_err(),
            UidError::InvalidFormat(format!("'{}'", text))
        );
    }
}

#[test]
fn accepted_separators_and_suffix() {
    let plain = SwissUid::new("CHE-109.322.551").unwrap();
    for text in [
        "CHE109322551",
        "CHE 109 322 551",
        "CHE-109 322.551",
        "CHE-109.322.551 MWST",
        "CHE-109.322.551 HR",
        "CHE-109.322.5519999",
    ] {
        assert_eq!(SwissUid::new(text).unwrap(), plain);
    }
}

#[test]
fn mismatch_carries_both_digits() {
    assert_eq!(
        SwissUid::new("ADM-109.322.559").unwrap_err(),
        UidError::MismatchedCheckDigit(
            "'ADM-109.322.55[9]' should have the check digit [1]".to_owned()
        )
    );
    assert_eq!(
        SwissUid::new("CHE-100.002.000").unwrap_err().to_string(),
        "Mismatched check digit: 'CHE-100.002.00[0]' should have the check digit [5]"
    );
}

#[test]
fn checksum_errors_come_before_the_leading_zero() {
    // valid checksum, leading zero
    assert_eq!(
        SwissUid::new("CHE-010.322.557").unwrap_err().to_string(),
        "Leading zero is not allowed"
    );
    // wrong check digit and leading zero
    match SwissUid::new("CHE-010.322.558") {
        Err(UidError::MismatchedCheckDigit(_)) => {}
        other => panic!("unexpected result: {:?}", other),
    }
}

#[test]
fn error_texts() {
    assert_eq!(
        UidError::InvalidFormat("x".to_owned()).to_string(),
        "Invalid format: x"
    );
    assert_eq!(
        UidError::LeadingZeroNotAllowed.to_string(),
        "Leading zero is not allowed"
    );
    assert_eq!(
        UidError::InvalidCheckDigit("y".to_owned()).to_string(),
        "Invalid check digit: y"
    );
    assert_eq!(
        UidError::MismatchedCheckDigit("z".to_owned()).to_string(),
        "Mismatched check digit: z"
    );
}

#[test]
fn different_values_are_unequal() {
    let a = SwissUid::new("CHE-109.322.551").unwrap();
    let b = SwissUid::new("ADM-109.322.551").unwrap();
    let c = SwissUid::new("CHE-100.002.005").unwrap();
    assert_ne!(a, b);
    assert_ne!(a, c);
}

#[test]
fn synthesized_values_reparse() {
    for _ in 0..200 {
        let uid = SwissUid::rand().unwrap();
        assert_eq!(uid.prefix(), UidPrefix::CHE);
        let text = uid.to_string();
        assert_eq!(text.len(), 15);
        assert_eq!(SwissUid::new(&text).unwrap(), uid);
    }
}

#[test]
fn synthesized_values_vary() {
    let first = SwissUid::rand().unwrap();
    let mut differs = false;
    for _ in 0..50 {
        if SwissUid::rand().unwrap() != first {
            differs = true;
        }
    }
    assert!(differs);
}

#[test]
fn drawn_digits_with_a_check_digit_are_kept() {
    let uid = SwissUid::from_drawn_digits([1, 0, 9, 3, 2, 2, 5, 5]);
    assert_eq!(uid.to_string(), "CHE-109.322.551");
}

#[test]
fn drawn_digits_without_check_digit_are_moved() {
    // 5*1 + 6*3 = 23, 23 mod 11 = 1: no check digit, so 1 becomes 2
    let up = SwissUid::from_drawn_digits([1, 0, 0, 0, 0, 3, 0, 0]);
    assert_eq!(up.to_string(), "CHE-200.003.005");
    // 5*3 + 6*5 = 45, 45 mod 11 = 1: no check digit, so 3 becomes 2
    let down = SwissUid::from_drawn_digits([3, 0, 0, 0, 0, 5, 0, 0]);
    assert_eq!(down.to_string(), "CHE-200.005.004");
}

#[test]
fn scanned_digits() {
    assert_eq!(
        scan_digits("CHE-109.322.551 MWST"),
        Some(vec![1, 0, 9, 3, 2, 2, 5, 5, 1])
    );
    assert_eq!(scan_digits("109322551"), Some(vec![1, 0, 9, 3, 2, 2, 5, 5, 1]));
    assert_eq!(scan_digits("CHE-109.322"), None);
}

#[test]
fn prefix_tokens() {
    assert_eq!(UidPrefix::from_token("cHe"), Some(UidPrefix::CHE));
    assert_eq!(UidPrefix::from_token("ADM"), Some(UidPrefix::ADM));
    assert_eq!(UidPrefix::from_token("ADMX"), None);
    assert_eq!(UidPrefix::from_token("CH"), None);
    assert_eq!(UidPrefix::from_token("CHF"), None);
}
