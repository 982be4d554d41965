use wolauth::ledger::RefreshLedger;
use wolauth::requests::AdminResetPasswordRequest;
use wolauth::requests::CreateUserRequest;
use wolauth::requests::LoginRequest;
use wolauth::requests::RefreshTokenRequest;
use wolauth::requests::ServiceError;
use wolauth::requests::UpdateStatusRequest;
use wolauth::service::admin_reset_password;
use wolauth::service::bootstrap_admin;
use wolauth::service::change_password;
use wolauth::service::create_user;
use wolauth::service::delete_user;
use wolauth::service::get_me;
use wolauth::service::list_users;
use wolauth::service::login;
use wolauth::service::refresh_token;
use wolauth::service::update_role;
use wolauth::service::update_status;
use wolauth::store::Role;
use wolauth::store::UserStore;
use wolauth::store::parse_role;
use wolauth::token::TokenSigner;

fn setup() -> (UserStore, RefreshLedger, TokenSigner) {
    let store = UserStore::new();
    let ledger = RefreshLedger::new();
    let signer = TokenSigner::new(Some("admin-test-secret".to_string())).0;
    (store, ledger, signer)
}

fn make_user(store: &mut UserStore, name: &str) -> (i64, String) {
    let resp = create_user(store, &CreateUserRequest { username: name.to_string() }).unwrap();
    (resp.user.id, resp.password)
}

#[test]
fn create_user_returns_temp_password_and_forced_change() {
    let (mut store, _, _) = setup();
    let resp = create_user(&mut store, &CreateUserRequest { username: "Bob".to_string() })
        .unwrap();
    assert_eq!(resp.message, "User created successfully");
    assert_eq!(resp.user.username, "bob");
    assert_eq!(resp.user.role, "user");
    assert!(resp.user.force_password_change);
    assert_eq!(resp.user.last_login_at, None);
    assert_eq!(resp.password.len(), 8);
}

#[test]
fn duplicate_username_is_rejected() {
    let (mut store, _, _) = setup();
    make_user(&mut store, "bob");
    let r = create_user(&mut store, &CreateUserRequest { username: "BOB".to_string() });
    let e = r.err().unwrap();
    assert_eq!(e, ServiceError::UsernameTaken);
    assert_eq!(e.status_code(), 409);
    assert_eq!(e.message(), "Username already exists");
}

#[test]
fn admin_reset_without_password_generates_one() {
    let (mut store, mut ledger, signer) = setup();
    let (bob_id, old_pw) = make_user(&mut store, "bob");
    login(
        &mut store,
        &mut ledger,
        &signer,
        &LoginRequest {
            username: "bob".to_string(),
            password: old_pw.clone(),
            remember_me: None,
        },
        40,
    )
    .unwrap();
    let resp = admin_reset_password(
        &mut store,
        bob_id,
        &AdminResetPasswordRequest { new_password: None },
    )
    .unwrap();
    let generated = resp.password.unwrap();
    assert_eq!(generated.len(), 12);
    let i = store.find_by_id(bob_id).unwrap();
    assert!(store.get(i).force_password_change);
    assert_eq!(store.get(i).last_login_at, None);
    assert_eq!(store.get(i).failed_login_attempts, 0);
    let old_login = login(
        &mut store,
        &mut ledger,
        &signer,
        &LoginRequest { username: "bob".to_string(), password: old_pw, remember_me: None },
        50,
    );
    assert_eq!(old_login.unwrap_err(), ServiceError::InvalidCredentials);
    let new_login = login(
        &mut store,
        &mut ledger,
        &signer,
        &LoginRequest { username: "bob".to_string(), password: generated, remember_me: None },
        60,
    );
    assert!(new_login.is_ok());
}

#[test]
fn admin_reset_with_supplied_password_returns_none() {
    let (mut store, _, _) = setup();
    let (bob_id, _) = make_user(&mut store, "bob");
    let resp = admin_reset_password(
        &mut store,
        bob_id,
        &AdminResetPasswordRequest { new_password: Some("chosen-one".to_string()) },
    )
    .unwrap();
    assert!(resp.password.is_none());
    assert_eq!(resp.message, "Password reset successfully. User must change it on next login.");
}

#[test]
fn admin_reset_of_unknown_user_is_not_found() {
    let (mut store, _, _) = setup();
    let r = admin_reset_password(&mut store, 999, &AdminResetPasswordRequest {
        new_password: None,
    });
    let e = r.err().unwrap();
    assert_eq!(e, ServiceError::NotFound);
    assert_eq!(e.status_code(), 404);
}

#[test]
fn change_password_requires_the_current_one() {
    let (mut store, mut ledger, signer) = setup();
    let (alice_id, t1) = make_user(&mut store, "alice");
    let wrong = change_password(
        &mut store,
        alice_id,
        &wolauth::requests::ChangePasswordRequest {
            old_password: "nope".to_string(),
            new_password: "fresh".to_string(),
        },
    );
    let e = wrong.unwrap_err();
    assert_eq!(e, ServiceError::InvalidCurrentPassword);
    assert_eq!(e.status_code(), 401);
    assert_eq!(e.message(), "Invalid current password");
    let ok = change_password(
        &mut store,
        alice_id,
        &wolauth::requests::ChangePasswordRequest {
            old_password: t1.clone(),
            new_password: "fresh".to_string(),
        },
    );
    assert!(ok.is_ok());
    let i = store.find_by_id(alice_id).unwrap();
    assert!(!store.get(i).force_password_change);
    let old_login = login(
        &mut store,
        &mut ledger,
        &signer,
        &LoginRequest { username: "alice".to_string(), password: t1, remember_me: None },
        10,
    );
    assert_eq!(old_login.unwrap_err(), ServiceError::InvalidCredentials);
    let new_login = login(
        &mut store,
        &mut ledger,
        &signer,
        &LoginRequest {
            username: "alice".to_string(),
            password: "fresh".to_string(),
            remember_me: None,
        },
        20,
    );
    assert!(new_login.is_ok());
}

#[test]
fn admin_cannot_delete_their_own_account() {
    let (mut store, mut ledger, _) = setup();
    let (admin_id, _) = make_user(&mut store, "root");
    let r = delete_user(&mut store, &mut ledger, admin_id, admin_id);
    let e = r.err().unwrap();
    assert_eq!(e, ServiceError::SelfAction);
    assert_eq!(e.status_code(), 403);
    assert!(store.find_by_id(admin_id).is_some());
}

#[test]
fn delete_cascades_to_refresh_tokens() {
    let (mut store, mut ledger, signer) = setup();
    let (admin_id, _) = make_user(&mut store, "root");
    let (alice_id, t1) = make_user(&mut store, "alice");
    let session = login(
        &mut store,
        &mut ledger,
        &signer,
        &LoginRequest { username: "alice".to_string(), password: t1, remember_me: None },
        0,
    )
    .unwrap();
    assert_eq!(ledger.len(), 1);
    delete_user(&mut store, &mut ledger, admin_id, alice_id).unwrap();
    assert!(store.find_by_id(alice_id).is_none());
    assert_eq!(ledger.len(), 0);
    let r = refresh_token(
        &store,
        &mut ledger,
        &signer,
        &RefreshTokenRequest { refresh_token: session.refresh_token },
        1,
    );
    assert_eq!(r.unwrap_err(), ServiceError::InvalidRefreshToken);
}

#[test]
fn delete_unknown_user_is_not_found() {
    let (mut store, mut ledger, _) = setup();
    let (admin_id, _) = make_user(&mut store, "root");
    let r = delete_user(&mut store, &mut ledger, admin_id, 424242);
    assert_eq!(r.unwrap_err(), ServiceError::NotFound);
}

#[test]
fn role_can_be_promoted_but_not_ones_own() {
    let (mut store, _, _) = setup();
    let (admin_id, _) = make_user(&mut store, "root");
    let (alice_id, _) = make_user(&mut store, "alice");
    let body = wolauth::requests::UpdateRoleRequest { role: "admin".to_string() };
    let role = parse_role(&body.role).unwrap();
    update_role(&mut store, admin_id, alice_id, role).unwrap();
    let i = store.find_by_id(alice_id).unwrap();
    assert_eq!(store.get(i).role, Role::Admin);
    let own = update_role(&mut store, admin_id, admin_id, Role::User);
    assert_eq!(own.unwrap_err(), ServiceError::SelfAction);
    assert!(parse_role("banana").is_none());
    assert!(parse_role("Admin").is_none());
    assert_eq!(parse_role("user"), Some(Role::User));
}

#[test]
fn admin_cannot_disable_but_may_enable_themselves() {
    let (mut store, _, _) = setup();
    let (admin_id, _) = make_user(&mut store, "root");
    let r = update_status(&mut store, admin_id, admin_id, &UpdateStatusRequest { is_disabled: true });
    assert_eq!(r.unwrap_err(), ServiceError::SelfAction);
    let ok = update_status(&mut store, admin_id, admin_id, &UpdateStatusRequest { is_disabled: false });
    assert!(ok.is_ok());
}

#[test]
fn status_change_of_unknown_user_is_not_found() {
    let (mut store, _, _) = setup();
    let (admin_id, _) = make_user(&mut store, "root");
    let r = update_status(&mut store, admin_id, 555, &UpdateStatusRequest { is_disabled: true });
    assert_eq!(r.unwrap_err(), ServiceError::NotFound);
}

#[test]
fn listing_projects_every_user_without_digests() {
    let (mut store, _, _) = setup();
    make_user(&mut store, "root");
    make_user(&mut store, "alice");
    let all = list_users(&store);
    assert_eq!(all.len(), 2);
    assert_eq!(all[0].username, "root");
    assert_eq!(all[1].username, "alice");
}

#[test]
fn get_me_projects_the_caller() {
    let (mut store, _, _) = setup();
    let (alice_id, _) = make_user(&mut store, "alice");
    let me = get_me(&store, alice_id).unwrap();
    assert_eq!(me.id, alice_id);
    assert_eq!(me.username, "alice");
    assert!(get_me(&store, alice_id + 1).is_none());
}

#[test]
fn bootstrap_creates_and_later_overwrites_the_admin() {
    let (mut store, mut ledger, signer) = setup();
    bootstrap_admin(&mut store, "first-temp").unwrap();
    let i = store.find_by_name(&"admin".to_string()).unwrap();
    let admin_id = store.get(i).id;
    assert_eq!(store.get(i).role, Role::Admin);
    assert!(store.get(i).force_password_change);
    login(
        &mut store,
        &mut ledger,
        &signer,
        &LoginRequest {
            username: "admin".to_string(),
            password: "first-temp".to_string(),
            remember_me: None,
        },
        5,
    )
    .unwrap();
    bootstrap_admin(&mut store, "second-temp").unwrap();
    let i = store.find_by_name(&"admin".to_string()).unwrap();
    assert_eq!(store.get(i).id, admin_id);
    assert!(store.get(i).force_password_change);
    let old = login(
        &mut store,
        &mut ledger,
        &signer,
        &LoginRequest {
            username: "admin".to_string(),
            password: "first-temp".to_string(),
            remember_me: None,
        },
        6,
    );
    assert_eq!(old.unwrap_err(), ServiceError::InvalidCredentials);
    let fresh = login(
        &mut store,
        &mut ledger,
        &signer,
        &LoginRequest {
            username: "admin".to_string(),
            password: "second-temp".to_string(),
            remember_me: None,
        },
        7,
    );
    assert!(fresh.is_ok());
}

#[test]
fn error_messages_do_not_leak_internals() {
    assert_eq!(ServiceError::InvalidCredentials.message(), "Invalid credentials");
    assert_eq!(ServiceError::InvalidCredentials.status_code(), 401);
    assert_eq!(ServiceError::AccountDisabled.message(), "Account disabled");
    assert_eq!(ServiceError::AccountDisabled.status_code(), 403);
    assert_eq!(ServiceError::HashFailure.status_code(), 500);
    assert_eq!(ServiceError::InvalidRefreshToken.status_code(), 401);
    assert_eq!(ServiceError::ExpiredRefreshToken.status_code(), 401);
    assert_eq!(ServiceError::UnknownUser.message(), "User not found");
}
