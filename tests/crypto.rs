use picturium::cache::get_path_from_url_parameters;
use picturium::crypto::{json_hash, string_hash, verify_hmac, verify_token};
use picturium::formats::OutputFormat;
use picturium::parameters::{RawUrlParameters, UrlParameters};

#[test]
fn hashes_are_stable_decimal() {
    let a = string_hash("/img/a.jpg");
    assert_eq!(a, string_hash("/img/a.jpg"));
    assert_ne!(a, "/img/a.jpg");
    assert!(a.chars().all(|c| c.is_ascii_digit()));
    assert_ne!(string_hash("/img/a.jpg"), string_hash("/img/b.jpg"));
    assert_eq!(json_hash("{\"w\":1}"), json_hash("{\"w\":1}"));
    assert_ne!(json_hash("{\"w\":1}"), json_hash("{\"w\":2}"));
    assert_eq!(string_hash(""), "3244421341483603138");
}

#[test]
fn derivative_path_uses_both_hashes() {
    let raw = RawUrlParameters {
        w: Some(100),
        h: Some(100),
        q: None,
        dpr: None,
        crop: None,
        thumb: None,
        original: None,
        rot: None,
        bg: None,
        f: None,
        token: None,
    };
    let req = UrlParameters::new("/img/a.jpg", raw);
    let p = get_path_from_url_parameters("/cache", "{}", &req, &OutputFormat::Jpg);
    let h = json_hash("{}");
    let expected = format!("/cache/{}/{}/{}/{}.jpg", &h[0..2], &h[2..4], &h[4..6], string_hash("/img/a.jpg"));
    assert_eq!(p, expected);
}

#[test]
fn hmac_known_vector() {
    let tag = "5bdcc146bf60754e6a042426089575c75a003f089d2739839dec58b964ec3843";
    assert!(verify_hmac("what do ya want for nothing?", "Jefe", tag));
    assert!(!verify_hmac("what do ya want for nothing!", "Jefe", tag));
    assert!(!verify_hmac("what do ya want for nothing?", "Jefe", &tag.to_uppercase()));
    assert!(!verify_hmac("what do ya want for nothing?", "Jefe", "zz"));
}

fn query(items: &[(&str, &str)]) -> Vec<(String, String)> {
    items.iter().map(|(k, v)| (k.to_string(), v.to_string())).collect()
}

#[test]
fn signed_text_sorts_and_skips_token() {
    let q = query(&[("w", "10"), ("token", "abc"), ("h", "20")]);
    assert_eq!(picturium::crypto::signed_text("/img/a.jpg", &q), "/img/a.jpg?h=20&w=10");
    assert_eq!(picturium::crypto::signed_text("/x", &query(&[])), "/x?");
    let q = query(&[("b", "2"), ("a", "1"), ("ab", "3")]);
    assert_eq!(picturium::crypto::signed_text("/x", &q), "/x?a=1&ab=3&b=2");
}

#[test]
fn token_verification() {
    let good = "24e9ee1e0e1e698c45049b52257f94bc77a1facd026ac05fbc3de2ce378aad58";
    let q = query(&[("w", "10"), ("token", good), ("h", "20")]);
    assert_eq!(verify_token(None, None, "/img/a.jpg", &q), Ok(()));
    assert_eq!(verify_token(Some("secret"), Some(good), "/img/a.jpg", &q), Ok(()));
    assert_eq!(verify_token(Some("secret"), None, "/img/a.jpg", &q), Err("Token is required"));
    assert_eq!(verify_token(Some("secret"), Some("bad"), "/img/a.jpg", &q), Err("Invalid token"));
    assert_eq!(verify_token(Some("other"), Some(good), "/img/a.jpg", &q), Err("Invalid token"));
    let raw = RawUrlParameters {
        w: Some(10),
        h: Some(20),
        q: None,
        dpr: None,
        crop: None,
        thumb: None,
        original: None,
        rot: None,
        bg: None,
        f: None,
        token: Some(good.to_string()),
    };
    assert_eq!(raw.verify_token(Some("secret"), "/img/a.jpg", &q), Ok(()));
}
