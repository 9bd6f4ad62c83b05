use kovi_plugin_acl::auth::credentials_for_password;
use kovi_plugin_acl::crypto::{constant_time_eq, generate_password, generate_random_bytes};
use kovi_plugin_acl::hex::{bytes_to_hex, hex_to_bytes, HexError};

#[test]
fn bytes_to_hex_is_lower_case_two_digits_per_byte() {
    assert_eq!(bytes_to_hex(&[0x00, 0x0f, 0xa0, 0xff, 0x7b]), "000fa0ff7b");
    assert_eq!(bytes_to_hex(&[]), "");
}

#[test]
fn hex_round_trip_of_32_bytes() {
    let mut bytes = [0u8; 32];
    for (i, b) in bytes.iter_mut().enumerate() {
        *b = (i as u8).wrapping_mul(37).wrapping_add(5);
    }
    let text = bytes_to_hex(&bytes);
    assert_eq!(text.len(), 64);
    assert_eq!(hex_to_bytes(&text), Ok(bytes));
}

#[test]
fn hex_to_bytes_reports_wrong_length_in_bytes() {
    assert_eq!(hex_to_bytes("abcd"), Err(HexError::WrongLength { got: 4 }));
    assert_eq!(hex_to_bytes(""), Err(HexError::WrongLength { got: 0 }));
}

#[test]
fn hex_to_bytes_accepts_upper_case() {
    let mut text = "AB".repeat(31);
    text.push_str("0f");
    let mut expected = [0xabu8; 32];
    expected[31] = 0x0f;
    assert_eq!(hex_to_bytes(&text), Ok(expected));
}

#[test]
fn hex_to_bytes_refuses_signs() {
    assert_eq!(hex_to_bytes(&"+0".repeat(32)), Err(HexError::InvalidDigit { at: 0 }));
    let mut text = "00".repeat(32);
    text.replace_range(62..64, "+f");
    assert_eq!(hex_to_bytes(&text), Err(HexError::InvalidDigit { at: 31 }));
}

#[test]
fn hex_to_bytes_reports_first_invalid_window() {
    let mut text = "00".repeat(32);
    text.replace_range(10..12, "zz");
    text.replace_range(20..22, "-1");
    assert_eq!(hex_to_bytes(&text), Err(HexError::InvalidDigit { at: 5 }));
}

#[test]
fn hex_to_bytes_refuses_non_ascii_text() {
    // "é" takes two bytes and sits exactly on byte 3's pair.
    let text = format!("{}é{}", "00".repeat(3), "00".repeat(28));
    assert_eq!(text.len(), 64);
    assert_eq!(hex_to_bytes(&text), Err(HexError::InvalidDigit { at: 3 }));
    // "é" starts at an odd offset, inside byte 0's pair.
    let text = format!("0é{}", "0".repeat(61));
    assert_eq!(text.len(), 64);
    assert_eq!(hex_to_bytes(&text), Err(HexError::InvalidDigit { at: 0 }));
}

#[test]
fn sha256_of_known_inputs() {
    assert_eq!(
        credentials_for_password("abc").config.password_hash,
        "ba7816bf8f01cfea414140de5dae2223b00361a396177a9cb410ff61f20015ad"
    );
    assert_eq!(
        credentials_for_password("").config.password_hash,
        "e3b0c44298fc1c149afbf4c8996fb92427ae41e4649b934ca495991b7852b855"
    );
}

#[test]
fn constant_time_eq_compares_all_bytes() {
    let a = [7u8; 32];
    let mut b = [7u8; 32];
    assert!(constant_time_eq(&a, &b));
    b[31] = 8;
    assert!(!constant_time_eq(&a, &b));
    b[31] = 7;
    b[0] = 0;
    assert!(!constant_time_eq(&a, &b));
}

#[test]
fn generated_passwords_have_the_asked_length_and_hex_digits() {
    for len in [0usize, 6, 32, 33, 70] {
        let p = generate_password(len);
        assert_eq!(p.chars().count(), len);
        assert!(p.chars().all(|c| c.is_ascii_digit() || ('a'..='f').contains(&c)));
    }
    assert_ne!(generate_password(32), generate_password(32));
}

#[test]
fn random_bytes_have_the_asked_length() {
    for len in [0usize, 1, 16, 17, 32, 40] {
        assert_eq!(generate_random_bytes(len).len(), len);
    }
}
