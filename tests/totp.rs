use ova::totp::code_at;
use ova::{get_2fa_code, OvaError};

#[test]
fn test_get_2fa_code_with_empty_key() {
    let key = "";
    let code = get_2fa_code(key);
    assert!(code.is_err());
}

#[test]
fn blank_secret_is_invalid() {
    assert_eq!(get_2fa_code("   \t"), Err(OvaError::InvalidSecret));
}

#[test]
fn non_base32_secret_is_invalid() {
    assert_eq!(get_2fa_code("1111111111111111"), Err(OvaError::InvalidSecret));
}

#[test]
fn sixteen_character_secret_gives_code() {
    // sixteen base32 characters decode to ten bytes
    let code = get_2fa_code("ABCDEFGHIJKLMNOP").unwrap();
    assert_eq!(code.len(), 6);
    assert!(code.chars().all(|c| c.is_ascii_digit()));
}

#[test]
fn lower_case_secret_is_invalid() {
    assert_eq!(get_2fa_code("abcdefghijklmnop"), Err(OvaError::InvalidSecret));
}

#[test]
fn padded_secret_is_invalid() {
    assert_eq!(get_2fa_code("ABCDEFGHIJKLMNO="), Err(OvaError::InvalidSecret));
}

#[test]
fn valid_secret_gives_six_digits() {
    let code = get_2fa_code("JBSWY3DPEHPK3PXPJBSWY3DPEHPK3PXP").unwrap();
    assert_eq!(code.len(), 6);
    assert!(code.chars().all(|c| c.is_ascii_digit()));
}

#[test]
fn code_is_stable_within_a_step() {
    let a = get_2fa_code("JBSWY3DPEHPK3PXPJBSWY3DPEHPK3PXP").unwrap();
    let b = get_2fa_code("JBSWY3DPEHPK3PXPJBSWY3DPEHPK3PXP").unwrap();
    let c = get_2fa_code("JBSWY3DPEHPK3PXPJBSWY3DPEHPK3PXP").unwrap();
    assert!(a == b || b == c);
}

const RFC_SECRET: &str = "GEZDGNBVGY3TQOJQGEZDGNBVGY3TQOJQ";

#[test]
fn code_at_matches_reference_values() {
    assert_eq!(code_at(RFC_SECRET, 59), Ok("287082".to_string()));
    assert_eq!(code_at(RFC_SECRET, 1111111109), Ok("081804".to_string()));
    assert_eq!(code_at(RFC_SECRET, 1234567890), Ok("005924".to_string()));
}

#[test]
fn code_at_is_stable_within_a_step() {
    assert_eq!(code_at(RFC_SECRET, 60), code_at(RFC_SECRET, 89));
    assert_ne!(code_at(RFC_SECRET, 59), code_at(RFC_SECRET, 60));
}

#[test]
fn code_at_rejects_unusable_secret() {
    assert_eq!(code_at("  ", 59), Err(OvaError::InvalidSecret));
    assert_eq!(code_at("not base32!", 59), Err(OvaError::InvalidSecret));
}
