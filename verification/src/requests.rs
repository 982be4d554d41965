//! Request and response bodies of the user-facing endpoints, and the error
//! taxonomy their handlers answer with.
//!
//! These are plain data carriers: timestamps travel as seconds since the
//! epoch, roles as their wire spelling.  A user projection never includes the
//! password digest.

use vstd::prelude::*;
use vstd::string::*;

verus! {

/// Body of `POST /api/users`.
pub struct CreateUserRequest {
    /// Desired username; folded to lowercase before storage.
    pub username: String,
}

/// Body of `POST /api/login`.
pub struct LoginRequest {
    /// Username; folded to lowercase before lookup.
    pub username: String,
    /// Plaintext password to check.
    pub password: String,
    /// Whether the refresh token should live 30 days instead of one.
    pub remember_me: Option<bool>,
}

/// Body of `POST /api/refresh` and `POST /api/logout`.
pub struct RefreshTokenRequest {
    /// The opaque refresh token being redeemed or revoked.
    pub refresh_token: String,
}

/// Answer of `POST /api/refresh`: the freshly rotated pair.
#[derive(Debug)]
pub struct RefreshTokenResponse {
    /// New signed access token.
    pub access_token: String,
    /// New opaque refresh token replacing the redeemed one.
    pub refresh_token: String,
}

/// Body of `PUT /api/users/{id}/role`.
pub struct UpdateRoleRequest {
    /// The new role's wire spelling, `"admin"` or `"user"`.
    pub role: String,
}

/// Body of `PUT /api/users/{id}/status`.
pub struct UpdateStatusRequest {
    /// Whether the account is to be disabled.
    pub is_disabled: bool,
}

/// Body of `POST /api/users/{id}/reset-password`.
pub struct AdminResetPasswordRequest {
    /// Replacement password; when absent one is generated and returned.
    pub new_password: Option<String>,
}

/// Answer of `POST /api/users/{id}/reset-password`.
#[derive(Debug)]
pub struct AdminResetPasswordResponse {
    /// Human-readable confirmation.
    pub message: String,
    /// The generated temporary password, when none was supplied.
    pub password: Option<String>,
}

/// Body of `POST /api/change-password`.
pub struct ChangePasswordRequest {
    /// The current password, which must re-verify.
    pub old_password: String,
    /// The replacement password.
    pub new_password: String,
}

/// Client-facing projection of a user record; never carries the digest.
#[derive(Debug)]
pub struct UserResponse {
    /// Stable id.
    pub id: i64,
    /// Lowercase username.
    pub username: String,
    /// Role wire spelling.
    pub role: String,
    /// Seconds since the epoch of the last successful login, if any.
    pub last_login_at: Option<u64>,
    /// Whether a password change is required after the next login.
    pub force_password_change: bool,
    /// Whether the account is disabled.
    pub is_disabled: bool,
}

/// Answer of `POST /api/users`.
#[derive(Debug)]
pub struct CreateUserResponse {
    /// Human-readable confirmation.
    pub message: String,
    /// Projection of the created account.
    pub user: UserResponse,
    /// The generated temporary password, shown exactly once.
    pub password: String,
}

/// Answer of `POST /api/login`.
#[derive(Debug)]
pub struct LoginResponse {
    /// Human-readable confirmation.
    pub message: String,
    /// Projection of the authenticated account.
    pub user: UserResponse,
    /// Signed access token.
    pub access_token: String,
    /// Opaque refresh token.
    pub refresh_token: String,
}

/// Everything a user-facing handler can fail with; each variant maps to a
/// fixed status and a safe, non-leaking message.
#[derive(Clone, Copy, Debug, PartialEq, Eq, Structural)]
pub enum ServiceError {
    /// Creation with a username that is already present.
    UsernameTaken,
    /// The password hashing step reported an error.
    HashFailure,
    /// Unknown username or wrong password at login — the caller cannot
    /// tell which.
    InvalidCredentials,
    /// The current password offered at a self-service change is wrong.
    InvalidCurrentPassword,
    /// The account is disabled.
    AccountDisabled,
    /// An administrator tried the action on their own account.
    SelfAction,
    /// The addressed user id does not exist (admin endpoints).
    NotFound,
    /// The bearer of a token no longer maps to a live user.
    UnknownUser,
    /// The refresh token is not in the ledger.
    InvalidRefreshToken,
    /// The refresh token was found but had expired (and was consumed).
    ExpiredRefreshToken,
}

impl ServiceError {
    /// The HTTP status class this error answers with.
    pub fn status_code(&self) -> (code: u16)
        ensures
            code == match *self {
                ServiceError::UsernameTaken => 409u16,
                ServiceError::HashFailure => 500u16,
                ServiceError::InvalidCredentials => 401u16,
                ServiceError::InvalidCurrentPassword => 401u16,
                ServiceError::AccountDisabled => 403u16,
                ServiceError::SelfAction => 403u16,
                ServiceError::NotFound => 404u16,
                ServiceError::UnknownUser => 401u16,
                ServiceError::InvalidRefreshToken => 401u16,
                ServiceError::ExpiredRefreshToken => 401u16,
            },
    {
        match *self {
            ServiceError::UsernameTaken => 409,
            ServiceError::HashFailure => 500,
            ServiceError::InvalidCredentials => 401,
            ServiceError::InvalidCurrentPassword => 401,
            ServiceError::AccountDisabled => 403,
            ServiceError::SelfAction => 403,
            ServiceError::NotFound => 404,
            ServiceError::UnknownUser => 401,
            ServiceError::InvalidRefreshToken => 401,
            ServiceError::ExpiredRefreshToken => 401,
        }
    }

    /// The safe, non-leaking message this error answers with.
    pub fn message(&self) -> (msg: String)
        ensures
            msg@ == match *self {
                ServiceError::UsernameTaken => "Username already exists"@,
                ServiceError::HashFailure => "Failed to hash password"@,
                ServiceError::InvalidCredentials => "Invalid credentials"@,
                ServiceError::InvalidCurrentPassword => "Invalid current password"@,
                ServiceError::AccountDisabled => "Account disabled"@,
                ServiceError::SelfAction => "Cannot perform this action on your own account"@,
                ServiceError::NotFound => "User not found"@,
                ServiceError::UnknownUser => "User not found"@,
                ServiceError::InvalidRefreshToken => "Invalid refresh token"@,
                ServiceError::ExpiredRefreshToken => "Refresh token expired"@,
            },
    {
        match *self {
            ServiceError::UsernameTaken => String::from_str("Username already exists"),
            ServiceError::HashFailure => String::from_str("Failed to hash password"),
            ServiceError::InvalidCredentials => String::from_str("Invalid credentials"),
            ServiceError::InvalidCurrentPassword => String::from_str("Invalid current password"),
            ServiceError::AccountDisabled => String::from_str("Account disabled"),
            ServiceError::SelfAction => String::from_str(
                "Cannot perform this action on your own account",
            ),
            ServiceError::NotFound => String::from_str("User not found"),
            ServiceError::UnknownUser => String::from_str("User not found"),
            ServiceError::InvalidRefreshToken => String::from_str("Invalid refresh token"),
            ServiceError::ExpiredRefreshToken => String::from_str("Refresh token expired"),
        }
    }
}

} // verus!
