//! The identity resolver against real signed tokens.

use market_core::identity::{Identity, Resolve, UserKind};

#[test]
fn guest_token_round_trips() {
    let auth = Resolve::new(b"test-secret".to_vec());
    let token = auth.get_guest_user_token(&"aaaaaaaaaaaaaaaaaaaaaaaa".to_string());
    match auth.resolve(Some(&token)) {
        Identity::Known { subject, kind } => {
            assert_eq!(subject, "aaaaaaaaaaaaaaaaaaaaaaaa");
            assert_eq!(kind, UserKind::Guest);
        }
        Identity::Anonymous => panic!("a freshly signed guest token must resolve"),
    }
}

#[test]
fn registered_token_round_trips() {
    let auth = Resolve::new(b"test-secret".to_vec());
    let token = auth.get_registered_user_token(&"bbbbbbbbbbbbbbbbbbbbbbbb".to_string());
    match auth.resolve(Some(&token)) {
        Identity::Known { subject, kind } => {
            assert_eq!(subject, "bbbbbbbbbbbbbbbbbbbbbbbb");
            assert_eq!(kind, UserKind::Registered);
        }
        Identity::Anonymous => panic!("a freshly signed registered token must resolve"),
    }
}

#[test]
fn token_is_not_its_own_subject() {
    // The token is a real signature, not the subject handed back: it has the
    // three-segment JWT shape and differs from the subject.
    let auth = Resolve::new(b"test-secret".to_vec());
    let subject = "aaaaaaaaaaaaaaaaaaaaaaaa".to_string();
    let token = auth.get_guest_user_token(&subject);
    assert_ne!(token, subject);
    assert_eq!(token.matches('.').count(), 2);
}

#[test]
fn missing_token_is_anonymous() {
    let auth = Resolve::new(b"test-secret".to_vec());
    assert!(matches!(auth.resolve(None), Identity::Anonymous));
}

#[test]
fn malformed_token_is_anonymous() {
    let auth = Resolve::new(b"test-secret".to_vec());
    let flat = "no-dots-here".to_string();
    assert!(matches!(auth.resolve(Some(&flat)), Identity::Anonymous));
    let garbage = "a.b.c".to_string();
    assert!(matches!(auth.resolve(Some(&garbage)), Identity::Anonymous));
}

#[test]
fn token_signed_with_other_secret_is_anonymous() {
    let signer = Resolve::new(b"secret-one".to_vec());
    let verifier = Resolve::new(b"secret-two".to_vec());
    let token = signer.get_guest_user_token(&"aaaaaaaaaaaaaaaaaaaaaaaa".to_string());
    assert!(matches!(verifier.resolve(Some(&token)), Identity::Anonymous));
}

#[test]
fn token_with_unknown_kind_is_anonymous() {
    let secret = b"test-secret".to_vec();
    let auth = Resolve::new(secret.clone());
    let mut claims = serde_json::Map::new();
    claims.insert("sub".to_string(), serde_json::Value::String("x".to_string()));
    claims.insert("user_type".to_string(), serde_json::Value::String("admin".to_string()));
    let token = jsonwebtoken::encode(
        &jsonwebtoken::Header::default(),
        &serde_json::Value::Object(claims),
        &jsonwebtoken::EncodingKey::from_secret(&secret),
    )
    .expect("signing succeeds");
    assert!(matches!(auth.resolve(Some(&token)), Identity::Anonymous));
}

#[test]
fn token_without_subject_claim_is_anonymous() {
    let secret = b"test-secret".to_vec();
    let auth = Resolve::new(secret.clone());
    let mut claims = serde_json::Map::new();
    claims.insert("user_type".to_string(), serde_json::Value::String("guest".to_string()));
    let token = jsonwebtoken::encode(
        &jsonwebtoken::Header::default(),
        &serde_json::Value::Object(claims),
        &jsonwebtoken::EncodingKey::from_secret(&secret),
    )
    .expect("signing succeeds");
    assert!(matches!(auth.resolve(Some(&token)), Identity::Anonymous));
}
