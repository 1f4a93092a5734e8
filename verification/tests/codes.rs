use lobby_core::Reject;
use lobby_core::code::{normalize_code, validate_code};

#[test]
fn normalize_uppercases_ascii() {
    assert_eq!(normalize_code("gAmE1"), "GAME1".to_string());
    assert_eq!(normalize_code("abcd"), "ABCD".to_string());
    assert_eq!(normalize_code("AB12"), "AB12".to_string());
    assert_eq!(normalize_code(""), "".to_string());
}

#[test]
fn validate_accepts_valid_codes() {
    assert_eq!(validate_code("GAME1"), Ok(()));
    assert_eq!(validate_code("ABCD"), Ok(()));
    assert_eq!(validate_code("ABCDEFGHIJKL"), Ok(()));
    assert_eq!(validate_code("1234"), Ok(()));
}

#[test]
fn validate_rejects_bad_length() {
    assert_eq!(validate_code("AB"), Err(Reject::InvalidCode));
    assert_eq!(validate_code(""), Err(Reject::InvalidCode));
    assert_eq!(validate_code("ABC"), Err(Reject::InvalidCode));
    assert_eq!(validate_code("ABCDEFGHIJKLM"), Err(Reject::InvalidCode));
}

#[test]
fn validate_rejects_bad_characters() {
    assert_eq!(validate_code("AB!D"), Err(Reject::InvalidCode));
    assert_eq!(validate_code("AB D"), Err(Reject::InvalidCode));
    assert_eq!(validate_code("AB-CD"), Err(Reject::InvalidCode));
}
