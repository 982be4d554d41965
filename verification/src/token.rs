//! Access token issuer: short-lived, self-contained signed tokens carrying
//! identity and role claims.
//!
//! A token is a compact HS256-signed string produced with a server-held
//! symmetric secret.  Cryptographic validity is a pure function of the token
//! and the secret, abstracted by [`jwt_claims`]; expiry is checked separately,
//! in verified code, against a caller-supplied clock reading.  Any structural
//! or cryptographic failure and an expired lifetime all collapse into the one
//! opaque "invalid" outcome.

use vstd::prelude::*;
use vstd::string::*;

use crate::random::sample_alphanumeric;

verus! {

/// Identity and role carried by a signed access token.
#[derive(Debug, PartialEq)]
pub struct Claims {
    /// Username of the subject.
    pub sub: String,
    /// Stable user id of the subject.
    pub uid: i64,
    /// Role claim, `"admin"` or `"user"`.
    pub role: String,
    /// Absolute expiry, seconds since the epoch.
    pub exp: u64,
}

/// The mathematical content of a `Claims` value.
pub open spec fn claims_view(c: Claims) -> (Seq<char>, i64, Seq<char>, u64) {
    (c.sub@, c.uid, c.role@, c.exp)
}

/// What decoding a compact token with a given secret yields: `Some` of the
/// claims exactly when the signature verifies under the secret and the
/// payload carries well-formed subject, user id, role and expiry claims,
/// `None` otherwise.  Decoding is a pure computation over the two strings.
pub uninterp spec fn jwt_claims(token: Seq<char>, secret: Seq<char>) -> Option<
    (Seq<char>, i64, Seq<char>, u64),
>;

/// Sign `claims` into a compact token string.
///
/// Relies on `jsonwebtoken::encode` with the default HS256 header and
/// `jsonwebtoken::EncodingKey::from_secret`: decoding the produced token
/// with the same secret verifies its signature and yields back exactly the
/// claims that were signed.  On this path encoding cannot fail: the key
/// family always matches the HS256 header, a JSON object of strings and
/// integers always serializes, and the HMAC signature itself is infallible.
#[verifier::external_body]
fn encode_claims(claims: &Claims, secret: &str) -> (r: Result<String, String>)
    ensures
        r is Ok,
        r matches Ok(t) ==> jwt_claims(t@, secret@) == Some(claims_view(*claims)),
{
    let mut payload = serde_json::Map::new();
    payload.insert("sub".to_string(), serde_json::Value::from(claims.sub.clone()));
    payload.insert("uid".to_string(), serde_json::Value::from(claims.uid));
    payload.insert("role".to_string(), serde_json::Value::from(claims.role.clone()));
    payload.insert("exp".to_string(), serde_json::Value::from(claims.exp));
    jsonwebtoken::encode(
        &jsonwebtoken::Header::default(),
        &serde_json::Value::Object(payload),
        &jsonwebtoken::EncodingKey::from_secret(secret.as_bytes()),
    ).map_err(|e| e.to_string())
}

/// Check a token's signature and recover its claims, ignoring expiry.
///
/// Relies on `jsonwebtoken::decode` with `validate_exp` switched off and no
/// required claims: it verifies the HS256 signature with the secret and
/// deserializes the payload, a computation that depends on the token and the
/// secret alone.  Expiry is the caller's to check.
#[verifier::external_body]
fn decode_claims(token: &str, secret: &str) -> (r: Option<Claims>)
    ensures
        r matches Some(c) ==> jwt_claims(token@, secret@) == Some(claims_view(c)),
        r is None ==> jwt_claims(token@, secret@) is None,
{
    let mut validation = jsonwebtoken::Validation::new(jsonwebtoken::Algorithm::HS256);
    validation.validate_exp = false;
    validation.required_spec_claims = std::collections::HashSet::new();
    let key = jsonwebtoken::DecodingKey::from_secret(secret.as_bytes());
    let data = jsonwebtoken::decode::<serde_json::Value>(token, &key, &validation).ok()?;
    let sub = data.claims.get("sub")?.as_str()?.to_string();
    let uid = data.claims.get("uid")?.as_i64()?;
    let role = data.claims.get("role")?.as_str()?.to_string();
    let exp = data.claims.get("exp")?.as_u64()?;
    Some(Claims { sub, uid, role, exp })
}

/// Holder of the process-wide signing secret.
pub struct TokenSigner {
    secret: String,
}

impl TokenSigner {
    /// The secret this signer signs and checks with.
    pub closed spec fn secret(&self) -> Seq<char> {
        self.secret@
    }

    /// Build a signer from an operator-supplied secret, or, when none is
    /// configured, from a fresh random 32-character secret.  The second
    /// component reports the ephemeral branch, so the caller can log that
    /// tokens will not survive a process restart.
    pub fn new(configured: Option<String>) -> (r: (TokenSigner, bool))
        ensures
            configured matches Some(s) ==> r.0.secret() == s@ && r.1 == false,
            configured is None ==> r.0.secret().len() == 32 && r.1 == true,
    {
        match configured {
            Some(s) => (TokenSigner { secret: s }, false),
            None => (TokenSigner { secret: sample_alphanumeric(32) }, true),
        }
    }

    /// Validate a token: signature first, then expiry against `now`.
    /// Returns the claims exactly when the token decodes under this signer's
    /// secret and its expiry lies strictly in the future; every other token
    /// yields the same opaque `None`.
    pub fn validate_token(&self, token: &str, now: u64) -> (r: Option<Claims>)
        ensures
            match r {
                Some(c) => token_validation(token@, self.secret(), now as int) == Some(
                    claims_view(c),
                ),
                None => token_validation(token@, self.secret(), now as int) is None,
            },
    {
        match decode_claims(token, self.secret.as_str()) {
            Some(c) => {
                if now < c.exp {
                    Some(c)
                } else {
                    None
                }
            },
            None => None,
        }
    }
}

/// What validation at time `now` yields: the decoded claims when the
/// signature verifies and the expiry lies strictly after `now`, and the one
/// opaque failure otherwise.
pub open spec fn token_validation(token: Seq<char>, secret: Seq<char>, now: int) -> Option<
    (Seq<char>, i64, Seq<char>, u64),
> {
    match jwt_claims(token, secret) {
        Some(c) => {
            if now < c.3 {
                Some(c)
            } else {
                None
            }
        },
        None => None,
    }
}

/// Sign an access token for `uid` with the given subject and role, expiring
/// exactly `ttl_secs` after `now`.  Signing always succeeds.
pub fn create_jwt(
    signer: &TokenSigner,
    uid: i64,
    username: &str,
    role: &str,
    now: u64,
    ttl_secs: u64,
) -> (r: Result<String, String>)
    requires
        now + ttl_secs <= u64::MAX,
    ensures
        r is Ok,
        r matches Ok(t) ==> jwt_claims(t@, signer.secret()) == Some(
            (username@, uid, role@, (now + ttl_secs) as u64),
        ),
{
    let claims = Claims {
        sub: String::from_str(username),
        uid,
        role: String::from_str(role),
        exp: now + ttl_secs,
    };
    encode_claims(&claims, signer.secret.as_str())
}

/// A token issued for an expiry of `issued_at + ttl` validates successfully
/// at every instant strictly before that expiry and at none from it on: once
/// `ttl` has elapsed the outcome is the same opaque failure that a tampered
/// token produces.
pub proof fn lemma_token_lifetime(
    token: Seq<char>,
    secret: Seq<char>,
    sub: Seq<char>,
    uid: i64,
    role: Seq<char>,
    issued_at: u64,
    ttl: u64,
    now: int,
)
    requires
        issued_at + ttl <= u64::MAX,
        jwt_claims(token, secret) == Some((sub, uid, role, (issued_at + ttl) as u64)),
    ensures
        now < issued_at + ttl ==> token_validation(token, secret, now) == Some(
            (sub, uid, role, (issued_at + ttl) as u64),
        ),
        now >= issued_at + ttl ==> token_validation(token, secret, now) is None,
{
}

/// A token that does not decode under the secret never validates, at any
/// time: structural and cryptographic failure are indistinguishable from
/// expiry at the validation boundary.
pub proof fn lemma_invalid_token_never_validates(token: Seq<char>, secret: Seq<char>, now: int)
    requires
        jwt_claims(token, secret) is None,
    ensures
        token_validation(token, secret, now) is None,
{
}

} // verus!
