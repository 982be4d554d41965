//! Authorization gate: every protected request passes through here.
//!
//! The base extractor demands a well-formed `Bearer` header, a token whose
//! signature verifies and whose expiry lies in the future, and a live lookup
//! of the account confirming it is not disabled — a token alone is never
//! sufficient proof of current standing.  A second extractor additionally
//! demands the administrator role.  Each failure maps to one fixed taxonomy
//! entry with a fixed status and safe message.

use vstd::prelude::*;
use vstd::string::*;

use crate::store::Role;
use crate::store::UserStore;
use crate::store::has_user_id;
use crate::store::spec_parse_role;
use crate::store::parse_role;
use crate::store::user_idx;
use crate::token::TokenSigner;
use crate::token::token_validation;

verus! {

/// A caller that passed the base gate: a live, enabled account.
pub struct AuthUser {
    /// Stable user id, from the token's claims.
    pub id: i64,
    /// Username, from the token's claims.
    pub username: String,
    /// Role, from the token's claims.
    pub role: Role,
}

/// A caller that passed the base gate and holds the administrator role.
pub struct AdminUser(pub AuthUser);

/// The ways a request can fail authentication.
#[derive(Clone, Copy, Debug, PartialEq, Eq, Structural)]
pub enum AuthError {
    /// No or malformed `Bearer` header.
    MissingCredentials,
    /// Bad signature, expired token, unknown role claim, or a token whose
    /// subject no longer exists — indistinguishable by design.
    InvalidToken,
    /// A valid identity without the required role.
    Forbidden,
    /// A valid token whose account has been disabled since issuance.
    AccountDisabled,
    /// The live account lookup itself failed.
    DatabaseError,
}

impl AuthError {
    /// The HTTP status class this failure answers with.
    pub fn status_code(&self) -> (code: u16)
        ensures
            code == match *self {
                AuthError::MissingCredentials => 401u16,
                AuthError::InvalidToken => 401u16,
                AuthError::Forbidden => 403u16,
                AuthError::AccountDisabled => 403u16,
                AuthError::DatabaseError => 500u16,
            },
    {
        match *self {
            AuthError::MissingCredentials => 401,
            AuthError::InvalidToken => 401,
            AuthError::Forbidden => 403,
            AuthError::AccountDisabled => 403,
            AuthError::DatabaseError => 500,
        }
    }

    /// The safe, non-leaking message this failure answers with.
    pub fn message(&self) -> (msg: String)
        ensures
            msg@ == match *self {
                AuthError::MissingCredentials => "Missing credentials"@,
                AuthError::InvalidToken => "Invalid token"@,
                AuthError::Forbidden => "Access denied"@,
                AuthError::AccountDisabled => "Account disabled"@,
                AuthError::DatabaseError => "Database error"@,
            },
    {
        match *self {
            AuthError::MissingCredentials => String::from_str("Missing credentials"),
            AuthError::InvalidToken => String::from_str("Invalid token"),
            AuthError::Forbidden => String::from_str("Access denied"),
            AuthError::AccountDisabled => String::from_str("Account disabled"),
            AuthError::DatabaseError => String::from_str("Database error"),
        }
    }
}

/// The token carried by a well-formed `Bearer` header value, if any.
pub open spec fn spec_bearer(h: Seq<char>) -> Option<Seq<char>> {
    if h.len() >= 7 && h.subrange(0, 7) == "Bearer "@ {
        Some(h.subrange(7, h.len() as int))
    } else {
        None
    }
}

/// Extract the token from an `Authorization` header value: the scheme word
/// `Bearer`, one space, then the token.
pub fn parse_bearer(header: &str) -> (r: Option<String>)
    ensures
        match r {
            Some(t) => spec_bearer(header@) == Some(t@),
            None => spec_bearer(header@) is None,
        },
{
    let n = header.unicode_len();
    if n < 7 {
        return None;
    }
    let prefix = header.substring_char(0, 7);
    if String::from_str(prefix) == String::from_str("Bearer ") {
        Some(String::from_str(header.substring_char(7, n)))
    } else {
        None
    }
}

/// What authentication decides for a request, as a function of the
/// account table, the signing secret, the `Authorization` header, and the
/// clock:
/// either the identity (id, username, role) to act as, or the error to
/// answer with.  Cryptographic validity is judged first, then the live
/// account state.
pub open spec fn gate_outcome(
    store: Seq<crate::store::User>,
    secret: Seq<char>,
    authorization: Option<Seq<char>>,
    now: int,
) -> Result<(i64, Seq<char>, Role), AuthError> {
    match authorization {
        None => Err(AuthError::MissingCredentials),
        Some(h) => match spec_bearer(h) {
            None => Err(AuthError::MissingCredentials),
            Some(tok) => match token_validation(tok, secret, now) {
                None => Err(AuthError::InvalidToken),
                Some(c) => match spec_parse_role(c.2) {
                    None => Err(AuthError::InvalidToken),
                    Some(role) => {
                        if !has_user_id(store, c.1) {
                            Err(AuthError::InvalidToken)
                        } else if store[user_idx(store, c.1)].is_disabled {
                            Err(AuthError::AccountDisabled)
                        } else {
                            Ok((c.1, c.0, role))
                        }
                    },
                },
            },
        },
    }
}

/// The base gate: bearer token, signature, expiry, then the live check that
/// the account still exists and is not disabled.
pub fn authenticate(
    store: &UserStore,
    signer: &TokenSigner,
    authorization: Option<&String>,
    now: u64,
) -> (r: Result<AuthUser, AuthError>)
    requires
        store.wf(),
    ensures
        match r {
            Ok(a) => gate_outcome(
                store@,
                signer.secret(),
                match authorization {
                    Some(h) => Some(h@),
                    None => None,
                },
                now as int,
            ) == Ok::<(i64, Seq<char>, Role), AuthError>((a.id, a.username@, a.role)),
            Err(e) => gate_outcome(
                store@,
                signer.secret(),
                match authorization {
                    Some(h) => Some(h@),
                    None => None,
                },
                now as int,
            ) == Err::<(i64, Seq<char>, Role), AuthError>(e),
        },
{
    let header = match authorization {
        Some(h) => h,
        None => {
            return Err(AuthError::MissingCredentials);
        },
    };
    let token = match parse_bearer(header.as_str()) {
        Some(t) => t,
        None => {
            return Err(AuthError::MissingCredentials);
        },
    };
    let claims = match signer.validate_token(token.as_str(), now) {
        Some(c) => c,
        None => {
            return Err(AuthError::InvalidToken);
        },
    };
    let role = match parse_role(claims.role.as_str()) {
        Some(role) => role,
        None => {
            return Err(AuthError::InvalidToken);
        },
    };
    match store.find_by_id(claims.uid) {
        Some(i) => {
            proof {
                crate::store::lemma_user_idx_is(store@, claims.uid, i as int);
            }
            if store.get(i).is_disabled {
                Err(AuthError::AccountDisabled)
            } else {
                Ok(AuthUser { id: claims.uid, username: claims.sub, role })
            }
        },
        None => Err(AuthError::InvalidToken),
    }
}

/// What the admin gate decides: the base decision, further demanding the
/// administrator role; an authenticated non-administrator is forbidden.
pub open spec fn admin_gate_outcome(
    store: Seq<crate::store::User>,
    secret: Seq<char>,
    authorization: Option<Seq<char>>,
    now: int,
) -> Result<(i64, Seq<char>, Role), AuthError> {
    match gate_outcome(store, secret, authorization, now) {
        Ok(u) => {
            if u.2 == Role::Admin {
                Ok(u)
            } else {
                Err(AuthError::Forbidden)
            }
        },
        Err(e) => Err(e),
    }
}

/// The admin gate: the base gate, then the role check.
pub fn authenticate_admin(
    store: &UserStore,
    signer: &TokenSigner,
    authorization: Option<&String>,
    now: u64,
) -> (r: Result<AdminUser, AuthError>)
    requires
        store.wf(),
    ensures
        match r {
            Ok(a) => admin_gate_outcome(
                store@,
                signer.secret(),
                match authorization {
                    Some(h) => Some(h@),
                    None => None,
                },
                now as int,
            ) == Ok::<(i64, Seq<char>, Role), AuthError>((a.0.id, a.0.username@, a.0.role))
                && a.0.role == Role::Admin,
            Err(e) => admin_gate_outcome(
                store@,
                signer.secret(),
                match authorization {
                    Some(h) => Some(h@),
                    None => None,
                },
                now as int,
            ) == Err::<(i64, Seq<char>, Role), AuthError>(e),
        },
{
    match authenticate(store, signer, authorization, now) {
        Ok(user) => {
            if matches!(user.role, Role::Admin) {
                Ok(AdminUser(user))
            } else {
                Err(AuthError::Forbidden)
            }
        },
        Err(e) => Err(e),
    }
}

/// An account disabled after a token was issued loses access on its very
/// next request: whenever the bearer token itself is cryptographically valid
/// and unexpired and names that account, authentication reports the account
/// disabled rather than granting access.
pub proof fn lemma_disabled_account_is_locked_out(
    store: Seq<crate::store::User>,
    secret: Seq<char>,
    h: Seq<char>,
    now: int,
    sub: Seq<char>,
    uid: i64,
    role: Seq<char>,
    exp: u64,
)
    requires
        spec_bearer(h) is Some,
        token_validation(spec_bearer(h).unwrap(), secret, now) == Some((sub, uid, role, exp)),
        has_user_id(store, uid),
        store[user_idx(store, uid)].is_disabled,
    ensures
        gate_outcome(store, secret, Some(h), now) == Err::<(i64, Seq<char>, Role), AuthError>(
            AuthError::AccountDisabled,
        ) || gate_outcome(store, secret, Some(h), now) == Err::<
            (i64, Seq<char>, Role),
            AuthError,
        >(AuthError::InvalidToken),
        spec_parse_role(role) is Some ==> gate_outcome(store, secret, Some(h), now) == Err::<
            (i64, Seq<char>, Role),
            AuthError,
        >(AuthError::AccountDisabled),
{
}

} // verus!
