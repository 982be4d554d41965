use wolauth::password::hash_password;
use wolauth::password::verify_password;

#[test]
fn hash_then_verify_succeeds() {
    let digest = hash_password("correct horse battery staple").unwrap();
    assert!(verify_password("correct horse battery staple", &digest));
}

#[test]
fn wrong_password_fails() {
    let digest = hash_password("correct horse battery staple").unwrap();
    assert!(!verify_password("correct horse battery stable", &digest));
    assert!(!verify_password("", &digest));
}

#[test]
fn malformed_digest_fails_quietly() {
    assert!(!verify_password("anything", "not a digest"));
    assert!(!verify_password("anything", ""));
    assert!(!verify_password("anything", "$argon2id$garbage"));
}

#[test]
fn same_password_gets_distinct_digests() {
    let a = hash_password("pw").unwrap();
    let b = hash_password("pw").unwrap();
    assert_ne!(a, b);
    assert!(verify_password("pw", &a));
    assert!(verify_password("pw", &b));
}

#[test]
fn digest_is_not_the_plaintext() {
    let digest = hash_password("pw").unwrap();
    assert_ne!(digest, "pw");
    assert!(digest.starts_with("$argon2"));
}

#[test]
fn empty_password_round_trips() {
    let digest = hash_password("").unwrap();
    assert!(verify_password("", &digest));
    assert!(!verify_password("x", &digest));
}

#[test]
fn fresh_digest_verifies_holds_at_runtime() {
    assert!(wolauth::password::fresh_digest_verifies("any password at all").unwrap());
    assert!(wolauth::password::fresh_digest_verifies("").unwrap());
}
