use wolauth::gate::AuthError;
use wolauth::gate::authenticate;
use wolauth::gate::authenticate_admin;
use wolauth::gate::parse_bearer;
use wolauth::ledger::RefreshLedger;
use wolauth::requests::CreateUserRequest;
use wolauth::requests::LoginRequest;
use wolauth::requests::UpdateStatusRequest;
use wolauth::service::bootstrap_admin;
use wolauth::service::create_user;
use wolauth::service::delete_user;
use wolauth::service::login;
use wolauth::service::update_status;
use wolauth::store::Role;
use wolauth::store::UserStore;
use wolauth::token::TokenSigner;

fn setup_logged_in(name: &str) -> (UserStore, TokenSigner, String, i64) {
    let mut store = UserStore::new();
    let mut ledger = RefreshLedger::new();
    let signer = TokenSigner::new(Some("gate-test-secret".to_string())).0;
    let created = create_user(&mut store, &CreateUserRequest { username: name.to_string() })
        .unwrap();
    let session = login(
        &mut store,
        &mut ledger,
        &signer,
        &LoginRequest {
            username: name.to_string(),
            password: created.password,
            remember_me: None,
        },
        100,
    )
    .unwrap();
    let header = format!("Bearer {}", session.access_token);
    (store, signer, header, created.user.id)
}

#[test]
fn bearer_header_parses_exactly() {
    assert_eq!(parse_bearer("Bearer abc.def.ghi"), Some("abc.def.ghi".to_string()));
    assert_eq!(parse_bearer("Bearer "), Some("".to_string()));
    assert_eq!(parse_bearer("bearer abc"), None);
    assert_eq!(parse_bearer("Token abc"), None);
    assert_eq!(parse_bearer("Bearer"), None);
    assert_eq!(parse_bearer(""), None);
}

#[test]
fn missing_or_malformed_credentials_are_rejected() {
    let (store, signer, _header, _) = setup_logged_in("alice");
    let none = authenticate(&store, &signer, None, 150);
    assert_eq!(none.err().unwrap(), AuthError::MissingCredentials);
    let malformed = "Basic dXNlcjpwdw==".to_string();
    let bad = authenticate(&store, &signer, Some(&malformed), 150);
    assert_eq!(bad.err().unwrap(), AuthError::MissingCredentials);
}

#[test]
fn valid_token_passes_the_gate() {
    let (store, signer, header, id) = setup_logged_in("alice");
    let user = authenticate(&store, &signer, Some(&header), 150).unwrap();
    assert_eq!(user.id, id);
    assert_eq!(user.username, "alice");
    assert_eq!(user.role, Role::User);
}

#[test]
fn expired_token_is_rejected_as_invalid() {
    let (store, signer, header, _) = setup_logged_in("alice");
    let late = authenticate(&store, &signer, Some(&header), 100 + 900);
    assert_eq!(late.err().unwrap(), AuthError::InvalidToken);
}

#[test]
fn garbage_token_is_rejected_as_invalid() {
    let (store, signer, _header, _) = setup_logged_in("alice");
    let garbage = "Bearer not.a.token".to_string();
    let r = authenticate(&store, &signer, Some(&garbage), 150);
    assert_eq!(r.err().unwrap(), AuthError::InvalidToken);
}

#[test]
fn disabling_an_account_cuts_off_its_live_token() {
    let (mut store, signer, header, alice_id) = setup_logged_in("alice");
    let before = authenticate(&store, &signer, Some(&header), 150);
    assert!(before.is_ok());
    update_status(&mut store, alice_id + 1, alice_id, &UpdateStatusRequest { is_disabled: true }).unwrap();
    let after = authenticate(&store, &signer, Some(&header), 151);
    let e = after.err().unwrap();
    assert_eq!(e, AuthError::AccountDisabled);
    assert_eq!(e.status_code(), 403);
    assert_eq!(e.message(), "Account disabled");
}

#[test]
fn deleting_an_account_invalidates_its_token() {
    let (mut store, signer, header, alice_id) = setup_logged_in("alice");
    let mut ledger = RefreshLedger::new();
    delete_user(&mut store, &mut ledger, alice_id + 1, alice_id).unwrap();
    let r = authenticate(&store, &signer, Some(&header), 150);
    assert_eq!(r.err().unwrap(), AuthError::InvalidToken);
}

#[test]
fn plain_user_is_forbidden_at_the_admin_gate() {
    let (store, signer, header, _) = setup_logged_in("alice");
    let r = authenticate_admin(&store, &signer, Some(&header), 150);
    let e = r.err().unwrap();
    assert_eq!(e, AuthError::Forbidden);
    assert_eq!(e.status_code(), 403);
    assert_eq!(e.message(), "Access denied");
}

#[test]
fn administrator_passes_the_admin_gate() {
    let mut store = UserStore::new();
    let mut ledger = RefreshLedger::new();
    let signer = TokenSigner::new(Some("gate-test-secret".to_string())).0;
    bootstrap_admin(&mut store, "temp-admin-pw").unwrap();
    let session = login(
        &mut store,
        &mut ledger,
        &signer,
        &LoginRequest {
            username: "admin".to_string(),
            password: "temp-admin-pw".to_string(),
            remember_me: None,
        },
        10,
    )
    .unwrap();
    let header = format!("Bearer {}", session.access_token);
    let admin = authenticate_admin(&store, &signer, Some(&header), 20).unwrap();
    assert_eq!(admin.0.username, "admin");
    assert_eq!(admin.0.role, Role::Admin);
}

#[test]
fn auth_error_statuses_match_the_taxonomy() {
    assert_eq!(AuthError::MissingCredentials.status_code(), 401);
    assert_eq!(AuthError::MissingCredentials.message(), "Missing credentials");
    assert_eq!(AuthError::InvalidToken.status_code(), 401);
    assert_eq!(AuthError::InvalidToken.message(), "Invalid token");
    assert_eq!(AuthError::Forbidden.status_code(), 403);
    assert_eq!(AuthError::DatabaseError.status_code(), 500);
    assert_eq!(AuthError::DatabaseError.message(), "Database error");
}
