//! The user-facing handlers: login, token refresh, logout, and account
//! administration, composed from the store, the ledger, the credential
//! store and the token issuer.
//!
//! Every function takes the clock reading as an argument and states exactly
//! which outcome each input produces and how the store and the ledger change.

use vstd::prelude::*;
use vstd::string::*;

use crate::ledger::RefreshEntry;
use crate::ledger::RefreshLedger;
use crate::ledger::generate_refresh_token;
use crate::ledger::has_token;
use crate::ledger::owned_by_other;
use crate::ledger::remove_token;
use crate::password::digest_matches;
use crate::password::hash_password;
use crate::password::verify_password;
use crate::random::is_ascii_alphanumeric;
use crate::random::sample_alphanumeric;
use crate::requests::AdminResetPasswordRequest;
use crate::requests::AdminResetPasswordResponse;
use crate::requests::ChangePasswordRequest;
use crate::requests::CreateUserRequest;
use crate::requests::CreateUserResponse;
use crate::requests::LoginRequest;
use crate::requests::LoginResponse;
use crate::requests::RefreshTokenRequest;
use crate::requests::RefreshTokenResponse;
use crate::requests::ServiceError;
use crate::requests::UpdateStatusRequest;
use crate::requests::UserResponse;
use crate::store::Role;
use crate::store::User;
use crate::store::UserStore;
use crate::store::has_user_id;
use crate::store::has_username;
use crate::store::inc_attempts;
use crate::store::lemma_user_idx_is;
use crate::store::lemma_username_idx_is;
use crate::store::lower_of;
use crate::store::lowercase;
use crate::store::role_chars;
use crate::store::role_to_string;
use crate::store::user_idx;
use crate::store::username_idx;
use crate::token::TokenSigner;
use crate::token::create_jwt;
use crate::token::jwt_claims;

verus! {

/// Lifetime of an access token: 15 minutes.
pub const ACCESS_TOKEN_TTL_SECS: u64 = 900;

/// Lifetime of a refresh token issued at login without "remember me": 1 day.
pub const REFRESH_TTL_SECS: u64 = 86400;

/// Lifetime of a refresh token issued at login with "remember me": 30 days.
pub const REFRESH_TTL_REMEMBER_SECS: u64 = 2592000;

/// Sliding window granted on every rotation, regardless of how the original
/// session was opened: 30 days.
pub const REFRESH_TTL_ROTATED_SECS: u64 = 2592000;

/// Length of the temporary password generated at account creation.
pub const GENERATED_PASSWORD_LEN: usize = 8;

/// Length of the temporary password generated at an admin reset.
pub const RESET_PASSWORD_LEN: usize = 12;

/// Whether `resp` is the client-facing projection of the record `u`.
pub open spec fn projects(resp: UserResponse, u: User) -> bool {
    &&& resp.id == u.id
    &&& resp.username@ == u.username@
    &&& resp.role@ == role_chars(u.role)
    &&& resp.last_login_at == u.last_login_at
    &&& resp.force_password_change == u.force_password_change
    &&& resp.is_disabled == u.is_disabled
}

/// Build the client-facing projection of a record.
fn project_user(u: &User) -> (resp: UserResponse)
    ensures
        projects(resp, *u),
{
    UserResponse {
        id: u.id,
        username: u.username.clone(),
        role: role_to_string(u.role),
        last_login_at: u.last_login_at,
        force_password_change: u.force_password_change,
        is_disabled: u.is_disabled,
    }
}

/// Create an account with a generated 8-character temporary password and the
/// forced-change flag set; only the response ever carries the plaintext.
pub fn create_user(store: &mut UserStore, req: &CreateUserRequest) -> (r: Result<
    CreateUserResponse,
    ServiceError,
>)
    requires
        old(store).wf(),
        old(store).next_id() < i64::MAX,
    ensures
        final(store).wf(),
        has_username(old(store)@, lower_of(req.username@)) ==> r == Err::<
            CreateUserResponse,
            ServiceError,
        >(ServiceError::UsernameTaken) && final(store)@ == old(store)@,
        !has_username(old(store)@, lower_of(req.username@)) ==> match r {
            Ok(resp) => {
                &&& final(store)@.len() == old(store)@.len() + 1
                &&& final(store)@ == old(store)@.push(final(store)@.last())
                &&& final(store)@.last().id == old(store).next_id()
                &&& final(store)@.last().username@ == lower_of(req.username@)
                &&& final(store)@.last().role == Role::User
                &&& final(store)@.last().failed_login_attempts == 0
                &&& final(store)@.last().last_login_at is None
                &&& final(store)@.last().force_password_change == true
                &&& final(store)@.last().is_disabled == false
                &&& digest_matches(resp.password@, final(store)@.last().password_hash@)
                &&& resp.password@.len() == GENERATED_PASSWORD_LEN
                &&& forall|k: int|
                    0 <= k < resp.password@.len() ==> is_ascii_alphanumeric(
                        #[trigger] resp.password@[k],
                    )
                &&& projects(resp.user, final(store)@.last())
                &&& resp.message@ == "User created successfully"@
            },
            Err(e) => e == ServiceError::HashFailure && final(store)@ == old(store)@,
        },
{
    let password = sample_alphanumeric(GENERATED_PASSWORD_LEN);
    let username = lowercase(req.username.as_str());
    if let Some(_i) = store.find_by_name(&username) {
        return Err(ServiceError::UsernameTaken);
    }
    let password_hash = match hash_password(password.as_str()) {
        Ok(h) => h,
        Err(_) => {
            return Err(ServiceError::HashFailure);
        },
    };
    store.add_user(username, password_hash, Role::User, true);
    let n = store.len();
    let user = project_user(store.get(n - 1));
    Ok(
        CreateUserResponse {
            message: String::from_str("User created successfully"),
            user,
            password,
        },
    )
}

/// Authenticate a username and password and open a session.
///
/// A disabled account is rejected before its password is checked; a pending
/// forced password change does not block login.  A failed password check
/// steps the failure counter by one; a successful login resets it to zero,
/// stamps the login time, and always returns a fresh access token together
/// with a persisted refresh token whose lifetime honours `remember_me`.
pub fn login(
    store: &mut UserStore,
    ledger: &mut RefreshLedger,
    signer: &TokenSigner,
    req: &LoginRequest,
    now: u64,
) -> (r: Result<LoginResponse, ServiceError>)
    requires
        old(store).wf(),
        old(ledger).wf(),
        now + REFRESH_TTL_REMEMBER_SECS <= u64::MAX,
    ensures
        final(store).wf(),
        final(ledger).wf(),
        !has_username(old(store)@, lower_of(req.username@)) ==> r == Err::<
            LoginResponse,
            ServiceError,
        >(ServiceError::InvalidCredentials) && final(store)@ == old(store)@ && final(ledger)@
            == old(ledger)@,
        has_username(old(store)@, lower_of(req.username@)) ==> ({
            let i = username_idx(old(store)@, lower_of(req.username@));
            let u = old(store)@[i];
            &&& u.is_disabled ==> r == Err::<LoginResponse, ServiceError>(
                ServiceError::AccountDisabled,
            ) && final(store)@ == old(store)@ && final(ledger)@ == old(ledger)@
            &&& (!u.is_disabled && !digest_matches(req.password@, u.password_hash@)) ==> r
                == Err::<LoginResponse, ServiceError>(ServiceError::InvalidCredentials) && final(store)@ == old(store)@.update(
                i,
                (User { failed_login_attempts: inc_attempts(u.failed_login_attempts), ..u }),
            ) && final(ledger)@ == old(ledger)@
            &&& (!u.is_disabled && digest_matches(req.password@, u.password_hash@)) ==> ({
                let nu = (User { failed_login_attempts: 0, last_login_at: Some(now), ..u });
                &&& final(store)@ == old(store)@.update(i, nu)
                &&& match r {
                    Ok(resp) => {
                        &&& resp.message@ == "Login successful"@
                        &&& projects(resp.user, nu)
                        &&& jwt_claims(resp.access_token@, signer.secret()) == Some(
                            (
                                u.username@,
                                u.id,
                                role_chars(u.role),
                                (now + ACCESS_TOKEN_TTL_SECS) as u64,
                            ),
                        )
                        &&& resp.refresh_token@.len() == 64
                        &&& final(ledger)@ == remove_token(
                            old(ledger)@,
                            resp.refresh_token@,
                        ).push(
                            (RefreshEntry {
                                token: resp.refresh_token,
                                user_id: u.id,
                                expires_at: if req.remember_me == Some(true) {
                                    (now + REFRESH_TTL_REMEMBER_SECS) as u64
                                } else {
                                    (now + REFRESH_TTL_SECS) as u64
                                },
                            }),
                        )
                    },
                    Err(e) => false,
                }
            })
        }),
{
    let username = lowercase(req.username.as_str());
    let i = match store.find_by_name(&username) {
        Some(i) => i,
        None => {
            return Err(ServiceError::InvalidCredentials);
        },
    };
    proof {
        lemma_username_idx_is(store@, username@, i as int);
    }
    if store.get(i).is_disabled {
        return Err(ServiceError::AccountDisabled);
    }
    let password_ok = verify_password(req.password.as_str(), store.get(i).password_hash.as_str());
    if !password_ok {
        store.record_login_failure(i);
        return Err(ServiceError::InvalidCredentials);
    }
    store.record_login_success(i, now);
    let u = store.get(i);
    let role_str = role_to_string(u.role);
    let access_token = create_jwt(
        signer,
        u.id,
        u.username.as_str(),
        role_str.as_str(),
        now,
        ACCESS_TOKEN_TTL_SECS,
    ).unwrap();
    let refresh_token = generate_refresh_token();
    let remember = match req.remember_me {
        Some(b) => b,
        None => false,
    };
    let expires_at = if remember {
        now + REFRESH_TTL_REMEMBER_SECS
    } else {
        now + REFRESH_TTL_SECS
    };
    ledger.insert(refresh_token.clone(), u.id, expires_at);
    let user = UserResponse {
        id: u.id,
        username: u.username.clone(),
        role: role_str,
        last_login_at: u.last_login_at,
        force_password_change: u.force_password_change,
        is_disabled: u.is_disabled,
    };
    Ok(
        LoginResponse {
            message: String::from_str("Login successful"),
            user,
            access_token,
            refresh_token,
        },
    )
}

/// Redeem a refresh token for a freshly rotated access/refresh pair.
///
/// An unknown token is invalid; a known but expired token is consumed and
/// reported expired; a live token is always consumed and replaced by a new
/// one with a flat 30-day window, alongside a new access token.
pub fn refresh_token(
    store: &UserStore,
    ledger: &mut RefreshLedger,
    signer: &TokenSigner,
    req: &RefreshTokenRequest,
    now: u64,
) -> (r: Result<RefreshTokenResponse, ServiceError>)
    requires
        store.wf(),
        old(ledger).wf(),
        now + REFRESH_TTL_ROTATED_SECS <= u64::MAX,
    ensures
        final(ledger).wf(),
        !has_token(old(ledger)@, req.refresh_token@) ==> r == Err::<
            RefreshTokenResponse,
            ServiceError,
        >(ServiceError::InvalidRefreshToken) && final(ledger)@ == old(ledger)@,
        has_token(old(ledger)@, req.refresh_token@) ==> ({
            let e = old(ledger)@[crate::ledger::token_idx(old(ledger)@, req.refresh_token@)];
            &&& e.expires_at < now ==> r == Err::<RefreshTokenResponse, ServiceError>(
                ServiceError::ExpiredRefreshToken,
            ) && final(ledger)@ == remove_token(old(ledger)@, req.refresh_token@)
            &&& (e.expires_at >= now && !has_user_id(store@, e.user_id)) ==> r == Err::<
                RefreshTokenResponse,
                ServiceError,
            >(ServiceError::UnknownUser) && final(ledger)@ == old(ledger)@
            &&& (e.expires_at >= now && has_user_id(store@, e.user_id)) ==> ({
                let u = store@[user_idx(store@, e.user_id)];
                match r {
                    Ok(resp) => {
                        &&& jwt_claims(resp.access_token@, signer.secret()) == Some(
                            (
                                u.username@,
                                u.id,
                                role_chars(u.role),
                                (now + ACCESS_TOKEN_TTL_SECS) as u64,
                            ),
                        )
                        &&& resp.refresh_token@.len() == 64
                        &&& final(ledger)@ == remove_token(
                            remove_token(old(ledger)@, req.refresh_token@),
                            resp.refresh_token@,
                        ).push(
                            (RefreshEntry {
                                token: resp.refresh_token,
                                user_id: e.user_id,
                                expires_at: (now + REFRESH_TTL_ROTATED_SECS) as u64,
                            }),
                        )
                    },
                    Err(err) => false,
                }
            })
        }),
{
    let i = match ledger.find(&req.refresh_token) {
        Some(i) => i,
        None => {
            return Err(ServiceError::InvalidRefreshToken);
        },
    };
    proof {
        crate::ledger::lemma_token_idx_is(ledger@, req.refresh_token@, i as int);
    }
    let user_id = ledger.get(i).user_id;
    let expires_at = ledger.get(i).expires_at;
    if expires_at < now {
        ledger.remove(&req.refresh_token);
        return Err(ServiceError::ExpiredRefreshToken);
    }
    let ui = match store.find_by_id(user_id) {
        Some(ui) => ui,
        None => {
            return Err(ServiceError::UnknownUser);
        },
    };
    proof {
        lemma_user_idx_is(store@, user_id, ui as int);
    }
    ledger.remove(&req.refresh_token);
    let u = store.get(ui);
    let role_str = role_to_string(u.role);
    let access_token = create_jwt(
        signer,
        u.id,
        u.username.as_str(),
        role_str.as_str(),
        now,
        ACCESS_TOKEN_TTL_SECS,
    ).unwrap();
    let new_refresh = generate_refresh_token();
    ledger.insert(new_refresh.clone(), user_id, now + REFRESH_TTL_ROTATED_SECS);
    Ok(RefreshTokenResponse { access_token, refresh_token: new_refresh })
}

/// Revoke a refresh token: unconditional, idempotent removal.
pub fn logout_user(ledger: &mut RefreshLedger, req: &RefreshTokenRequest)
    requires
        old(ledger).wf(),
    ensures
        final(ledger).wf(),
        final(ledger)@ == remove_token(old(ledger)@, req.refresh_token@),
        !has_token(final(ledger)@, req.refresh_token@),
{
    ledger.remove(&req.refresh_token);
}

/// The projection of the authenticated user's own record.
pub fn get_me(store: &UserStore, user_id: i64) -> (r: Option<UserResponse>)
    requires
        store.wf(),
    ensures
        match r {
            Some(resp) => has_user_id(store@, user_id) && projects(
                resp,
                store@[user_idx(store@, user_id)],
            ),
            None => !has_user_id(store@, user_id),
        },
{
    match store.find_by_id(user_id) {
        Some(i) => {
            proof {
                lemma_user_idx_is(store@, user_id, i as int);
            }
            Some(project_user(store.get(i)))
        },
        None => None,
    }
}

/// Projections of every account, in store order.
pub fn list_users(store: &UserStore) -> (r: Vec<UserResponse>)
    ensures
        r@.len() == store@.len(),
        forall|i: int| 0 <= i < store@.len() ==> projects(#[trigger] r@[i], store@[i]),
{
    let mut out: Vec<UserResponse> = Vec::new();
    let mut i: usize = 0;
    let n = store.len();
    while i < n
        invariant
            n == store@.len(),
            i <= n,
            out@.len() == i,
            forall|k: int| 0 <= k < i ==> projects(#[trigger] out@[k], store@[k]),
        decreases n - i,
    {
        out.push(project_user(store.get(i)));
        i = i + 1;
    }
    out
}

/// Admin role change; an administrator may not change their own role.
pub fn update_role(store: &mut UserStore, admin_id: i64, user_id: i64, role: Role) -> (r: Result<
    (),
    ServiceError,
>)
    requires
        old(store).wf(),
    ensures
        final(store).wf(),
        admin_id == user_id ==> r == Err::<(), ServiceError>(ServiceError::SelfAction) && final(store)@ == old(store)@,
        (admin_id != user_id && !has_user_id(old(store)@, user_id)) ==> r == Err::<
            (),
            ServiceError,
        >(ServiceError::NotFound) && final(store)@ == old(store)@,
        (admin_id != user_id && has_user_id(old(store)@, user_id)) ==> r == Ok::<(), ServiceError>(
            (),
        ) && final(store)@ == old(store)@.update(
            user_idx(old(store)@, user_id),
            (User { role, ..old(store)@[user_idx(old(store)@, user_id)] }),
        ),
{
    if admin_id == user_id {
        return Err(ServiceError::SelfAction);
    }
    match store.find_by_id(user_id) {
        Some(i) => {
            proof {
                lemma_user_idx_is(store@, user_id, i as int);
            }
            store.set_role(i, role);
            Ok(())
        },
        None => Err(ServiceError::NotFound),
    }
}

/// Admin disable or re-enable; an administrator may not disable their own
/// account (re-enabling oneself is moot but harmless and allowed).
pub fn update_status(
    store: &mut UserStore,
    admin_id: i64,
    user_id: i64,
    req: &UpdateStatusRequest,
) -> (r: Result<(), ServiceError>)
    requires
        old(store).wf(),
    ensures
        final(store).wf(),
        (admin_id == user_id && req.is_disabled) ==> r == Err::<(), ServiceError>(
            ServiceError::SelfAction,
        ) && final(store)@ == old(store)@,
        !(admin_id == user_id && req.is_disabled) ==> ({
            &&& !has_user_id(old(store)@, user_id) ==> r == Err::<(), ServiceError>(
                ServiceError::NotFound,
            ) && final(store)@ == old(store)@
            &&& has_user_id(old(store)@, user_id) ==> r == Ok::<(), ServiceError>(()) && final(store)@ == old(store)@.update(
                user_idx(old(store)@, user_id),
                (User {
                    is_disabled: req.is_disabled,
                    ..old(store)@[user_idx(old(store)@, user_id)]
                }),
            )
        }),
{
    if admin_id == user_id && req.is_disabled {
        return Err(ServiceError::SelfAction);
    }
    match store.find_by_id(user_id) {
        Some(i) => {
            proof {
                lemma_user_idx_is(store@, user_id, i as int);
            }
            store.set_disabled(i, req.is_disabled);
            Ok(())
        },
        None => Err(ServiceError::NotFound),
    }
}

/// Admin password reset: no proof of the old password is required.  The
/// digest is replaced, the failure counter and login history are cleared,
/// and the forced-change flag is imposed again.  When no replacement is
/// supplied, a 12-character password is generated and returned once.
pub fn admin_reset_password(
    store: &mut UserStore,
    user_id: i64,
    req: &AdminResetPasswordRequest,
) -> (r: Result<AdminResetPasswordResponse, ServiceError>)
    requires
        old(store).wf(),
    ensures
        final(store).wf(),
        match r {
            Ok(resp) => {
                &&& has_user_id(old(store)@, user_id)
                &&& final(store)@ == old(store)@.update(
                    user_idx(old(store)@, user_id),
                    (User {
                        password_hash: final(store)@[user_idx(old(store)@, user_id)].password_hash,
                        failed_login_attempts: 0,
                        last_login_at: None,
                        force_password_change: true,
                        ..old(store)@[user_idx(old(store)@, user_id)]
                    }),
                )
                &&& resp.message@ == "Password reset successfully. User must change it on next login."@
                &&& match req.new_password {
                    Some(p) => resp.password is None && digest_matches(
                        p@,
                        final(store)@[user_idx(old(store)@, user_id)].password_hash@,
                    ),
                    None => resp.password matches Some(g) && g@.len() == RESET_PASSWORD_LEN
                        && digest_matches(
                        g@,
                        final(store)@[user_idx(old(store)@, user_id)].password_hash@,
                    ) && (forall|k: int|
                        0 <= k < g@.len() ==> is_ascii_alphanumeric(#[trigger] g@[k])),
                }
            },
            Err(e) => final(store)@ == old(store)@ && (e == ServiceError::HashFailure || (e
                == ServiceError::NotFound && !has_user_id(old(store)@, user_id))),
        },
{
    let (password_hash, generated) = match &req.new_password {
        Some(p) => {
            match hash_password(p.as_str()) {
                Ok(h) => (h, Option::<String>::None),
                Err(_) => {
                    return Err(ServiceError::HashFailure);
                },
            }
        },
        None => {
            let g = sample_alphanumeric(RESET_PASSWORD_LEN);
            match hash_password(g.as_str()) {
                Ok(h) => (h, Some(g)),
                Err(_) => {
                    return Err(ServiceError::HashFailure);
                },
            }
        },
    };
    match store.find_by_id(user_id) {
        Some(i) => {
            proof {
                lemma_user_idx_is(store@, user_id, i as int);
            }
            store.reset_password(i, password_hash);
            Ok(
                AdminResetPasswordResponse {
                    message: String::from_str(
                        "Password reset successfully. User must change it on next login.",
                    ),
                    password: generated,
                },
            )
        },
        None => Err(ServiceError::NotFound),
    }
}

/// Self-service password change: the current password must re-verify; on
/// success the digest is replaced and the forced-change flag cleared.  The
/// failure counter and the disabled flag are untouched.
pub fn change_password(store: &mut UserStore, user_id: i64, req: &ChangePasswordRequest) -> (r:
    Result<(), ServiceError>)
    requires
        old(store).wf(),
    ensures
        final(store).wf(),
        !has_user_id(old(store)@, user_id) ==> r == Err::<(), ServiceError>(
            ServiceError::UnknownUser,
        ) && final(store)@ == old(store)@,
        has_user_id(old(store)@, user_id) ==> ({
            let i = user_idx(old(store)@, user_id);
            let u = old(store)@[i];
            &&& !digest_matches(req.old_password@, u.password_hash@) ==> r == Err::<
                (),
                ServiceError,
            >(ServiceError::InvalidCurrentPassword) && final(store)@ == old(store)@
            &&& digest_matches(req.old_password@, u.password_hash@) ==> match r {
                Ok(()) => final(store)@ == old(store)@.update(
                    i,
                    (User {
                        password_hash: final(store)@[i].password_hash,
                        force_password_change: false,
                        ..u
                    }),
                ) && digest_matches(req.new_password@, final(store)@[i].password_hash@),
                Err(e) => e == ServiceError::HashFailure && final(store)@ == old(store)@,
            }
        }),
{
    let i = match store.find_by_id(user_id) {
        Some(i) => i,
        None => {
            return Err(ServiceError::UnknownUser);
        },
    };
    proof {
        lemma_user_idx_is(store@, user_id, i as int);
    }
    if !verify_password(req.old_password.as_str(), store.get(i).password_hash.as_str()) {
        return Err(ServiceError::InvalidCurrentPassword);
    }
    let password_hash = match hash_password(req.new_password.as_str()) {
        Ok(h) => h,
        Err(_) => {
            return Err(ServiceError::HashFailure);
        },
    };
    store.change_password(i, password_hash);
    Ok(())
}

/// Delete an account and cascade-delete its refresh tokens; an administrator
/// may not delete their own account.
pub fn delete_user(
    store: &mut UserStore,
    ledger: &mut RefreshLedger,
    admin_id: i64,
    user_id: i64,
) -> (r: Result<(), ServiceError>)
    requires
        old(store).wf(),
        old(ledger).wf(),
    ensures
        final(store).wf(),
        final(ledger).wf(),
        admin_id == user_id ==> r == Err::<(), ServiceError>(ServiceError::SelfAction) && final(store)@ == old(store)@ && final(ledger)@ == old(ledger)@,
        (admin_id != user_id && !has_user_id(old(store)@, user_id)) ==> r == Err::<
            (),
            ServiceError,
        >(ServiceError::NotFound) && final(store)@ == old(store)@ && final(ledger)@ == old(ledger)@,
        (admin_id != user_id && has_user_id(old(store)@, user_id)) ==> r == Ok::<(), ServiceError>(
            (),
        ) && final(store)@ == old(store)@.remove(user_idx(old(store)@, user_id)) && final(ledger)@
            == old(ledger)@.filter(owned_by_other(user_id)),
{
    if admin_id == user_id {
        return Err(ServiceError::SelfAction);
    }
    match store.find_by_id(user_id) {
        Some(i) => {
            proof {
                lemma_user_idx_is(store@, user_id, i as int);
            }
            store.remove_at(i);
            ledger.remove_user(user_id);
            Ok(())
        },
        None => Err(ServiceError::NotFound),
    }
}

/// Startup bootstrap: upsert the single privileged `admin` account with the
/// supplied temporary password, administrator role, and the forced-change
/// flag set.  An existing `admin` account keeps its id, counter and history.
pub fn bootstrap_admin(store: &mut UserStore, password: &str) -> (r: Result<(), ServiceError>)
    requires
        old(store).wf(),
        old(store).next_id() < i64::MAX,
    ensures
        final(store).wf(),
        match r {
            Ok(()) => {
                &&& has_username(final(store)@, "admin"@)
                &&& ({
                    let i = username_idx(final(store)@, "admin"@);
                    &&& final(store)@[i].role == Role::Admin
                    &&& final(store)@[i].force_password_change == true
                    &&& digest_matches(password@, final(store)@[i].password_hash@)
                })
                &&& has_username(old(store)@, "admin"@) ==> final(store)@ == old(store)@.update(
                    username_idx(old(store)@, "admin"@),
                    (User {
                        password_hash: final(store)@[username_idx(old(store)@, "admin"@)].password_hash,
                        role: Role::Admin,
                        force_password_change: true,
                        ..old(store)@[username_idx(old(store)@, "admin"@)]
                    }),
                )
                &&& !has_username(old(store)@, "admin"@) ==> final(store)@ == old(store)@.push(
                    final(store)@.last(),
                ) && final(store)@.last().id == old(store).next_id()
            },
            Err(e) => e == ServiceError::HashFailure && final(store)@ == old(store)@,
        },
{
    let password_hash = match hash_password(password) {
        Ok(h) => h,
        Err(_) => {
            return Err(ServiceError::HashFailure);
        },
    };
    let name = String::from_str("admin");
    match store.find_by_name(&name) {
        Some(i) => {
            proof {
                lemma_username_idx_is(store@, name@, i as int);
            }
            store.overwrite_credentials(i, password_hash, Role::Admin, true);
            proof {
                lemma_username_idx_is(store@, name@, i as int);
            }
            Ok(())
        },
        None => {
            store.add_user(name, password_hash, Role::Admin, true);
            proof {
                lemma_username_idx_is(store@, "admin"@, store@.len() - 1);
            }
            Ok(())
        },
    }
}

} // verus!
