use marble_client::token::{base64url_decode, extract_user_id_from_token};

#[test]
fn base64url_decodes_full_groups() {
    assert_eq!(base64url_decode("aGVsbG8h"), Some(b"hello!".to_vec()));
}

#[test]
fn base64url_decodes_partial_last_group() {
    // 7 characters: one full group (3 bytes) and a 3-character group (2 bytes).
    assert_eq!(base64url_decode("aGVsbG8"), Some(b"hello".to_vec()));
    // a 2-character group gives one byte
    assert_eq!(base64url_decode("QQ"), Some(vec![0x41]));
    // a lone character gives its 6 bits shifted into one byte
    assert_eq!(base64url_decode("B"), Some(vec![0x04]));
}

#[test]
fn base64url_uses_url_safe_alphabet() {
    assert_eq!(base64url_decode("-_-_"), Some(vec![0xfb, 0xff, 0xbf]));
    assert_eq!(base64url_decode("+/+/"), None);
}

#[test]
fn base64url_rejects_padding_and_other_bytes() {
    assert_eq!(base64url_decode("QQ=="), None);
    assert_eq!(base64url_decode("aGV sbG8"), None);
    assert_eq!(base64url_decode("aGVsbG8."), None);
}

#[test]
fn base64url_empty_input() {
    assert_eq!(base64url_decode(""), Some(Vec::new()));
}

#[test]
fn token_user_id_is_sub_claim() {
    let token = "eyJzdWIiOiJ1c2VyLTEyMyIsImV4cCI6NX0.c2lnbmF0dXJl";
    assert_eq!(extract_user_id_from_token(token), Some("user-123".to_string()));
}

#[test]
fn token_without_signature_still_reads_payload() {
    assert_eq!(
        extract_user_id_from_token("eyJzdWIiOiJ1c2VyLTEyMyIsImV4cCI6NX0"),
        Some("user-123".to_string())
    );
}

#[test]
fn token_with_non_string_sub_gives_none() {
    assert_eq!(extract_user_id_from_token("eyJzdWIiOjQyfQ.sig"), None);
}

#[test]
fn token_with_non_json_payload_gives_none() {
    assert_eq!(extract_user_id_from_token("bm90IGpzb24.sig"), None);
}

#[test]
fn token_with_bad_base64_gives_none() {
    assert_eq!(extract_user_id_from_token("%%%.sig"), None);
    assert_eq!(extract_user_id_from_token(""), None);
}
