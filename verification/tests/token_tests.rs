use wolauth::token::TokenSigner;
use wolauth::token::create_jwt;

fn signer() -> TokenSigner {
    TokenSigner::new(Some("test-secret-for-tokens".to_string())).0
}

#[test]
fn issue_then_validate_returns_claims() {
    let s = signer();
    let token = create_jwt(&s, 7, "alice", "user", 1_000_000, 900).unwrap();
    let claims = s.validate_token(&token, 1_000_000).unwrap();
    assert_eq!(claims.sub, "alice");
    assert_eq!(claims.uid, 7);
    assert_eq!(claims.role, "user");
    assert_eq!(claims.exp, 1_000_900);
}

#[test]
fn token_valid_until_exactly_ttl_elapses() {
    let s = signer();
    let token = create_jwt(&s, 7, "alice", "user", 1_000_000, 900).unwrap();
    assert!(s.validate_token(&token, 1_000_899).is_some());
    assert!(s.validate_token(&token, 1_000_900).is_none());
    assert!(s.validate_token(&token, 2_000_000).is_none());
}

#[test]
fn tampered_token_is_invalid() {
    let s = signer();
    let token = create_jwt(&s, 7, "alice", "user", 1_000_000, 900).unwrap();
    let mut tampered = token.clone();
    let last = tampered.pop().unwrap();
    tampered.push(if last == 'A' { 'B' } else { 'A' });
    assert!(s.validate_token(&tampered, 1_000_000).is_none());
    assert!(s.validate_token("definitely.not.a-token", 1_000_000).is_none());
    assert!(s.validate_token("", 1_000_000).is_none());
}

#[test]
fn wrong_secret_is_invalid() {
    let s = signer();
    let other = TokenSigner::new(Some("another-secret".to_string())).0;
    let token = create_jwt(&s, 7, "alice", "user", 1_000_000, 900).unwrap();
    assert!(other.validate_token(&token, 1_000_000).is_none());
}

#[test]
fn admin_role_claim_survives_the_round_trip() {
    let s = signer();
    let token = create_jwt(&s, 1, "root", "admin", 50, 900).unwrap();
    let claims = s.validate_token(&token, 100).unwrap();
    assert_eq!(claims.role, "admin");
    assert_eq!(claims.sub, "root");
}

#[test]
fn configured_signer_is_not_ephemeral() {
    let (_s, ephemeral) = TokenSigner::new(Some("configured".to_string()));
    assert!(!ephemeral);
}

#[test]
fn missing_secret_generates_ephemeral_secret() {
    let (s, ephemeral) = TokenSigner::new(None);
    assert!(ephemeral);
    let token = create_jwt(&s, 2, "bob", "user", 10, 900).unwrap();
    assert!(s.validate_token(&token, 20).is_some());
    let (other, _) = TokenSigner::new(None);
    assert!(other.validate_token(&token, 20).is_none());
}
