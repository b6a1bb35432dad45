use prompt_player::guest::{
    auth_reply, hex_encode, new_secret, secrets_match, stored_secret, wait_before,
};

#[test]
fn secret_comparison_requires_exact_match() {
    assert!(secrets_match("abc123", "abc123"));
    assert!(!secrets_match("abc124", "abc123"));
    assert!(!secrets_match("abc123", "abc12300"));
}

#[test]
fn a_fresh_secret_is_64_lowercase_hex_chars() {
    let s = new_secret().expect("entropy available");
    assert_eq!(s.len(), 64);
    assert!(s.chars().all(|c| c.is_ascii_hexdigit() && !c.is_ascii_uppercase()));
    assert_eq!(hex_encode(&[0x00, 0xff, 0x0a]), "00ff0a");
}

#[test]
fn a_blank_secret_file_counts_as_none() {
    assert_eq!(stored_secret(Some("  abc \n")), Some("abc".to_string()));
    assert_eq!(stored_secret(Some(" \n")), None);
    assert_eq!(stored_secret(None), None);
}

#[test]
fn a_wrong_secret_is_answered_with_auth() {
    let r = auth_reply("nope", "right").expect("refused");
    assert!(!r.ok);
    assert_eq!(r.error.as_deref(), Some("auth"));
    assert!(auth_reply("right", "right").is_none());
    assert_eq!(wait_before(100, 40), Some(60));
    assert_eq!(wait_before(40, 100), None);
}
