use identified_server::credential::hash_password;
use identified_server::errors::AuthorizationError;
use identified_server::gate::{admin, check_authorized, CapabilityPredicate};
use identified_server::principal::InternalUser;

fn make_user(id: i64, admin_flag: bool, expires_on: Option<i64>) -> InternalUser {
    let salt = String::from("salt");
    let hashed = hash_password("password", &salt, 50);
    InternalUser {
        id,
        name: String::from("someone"),
        email: String::from("someone@example.com"),
        password: hashed,
        salt,
        created_on: 0,
        last_login: None,
        auth_token: Some(String::from("tok")),
        expires_on,
        admin: admin_flag,
    }
}

#[test]
fn admin_predicate_admits_iff_capability_flag() {
    let with_flag = make_user(1, true, Some(10_000));
    let without_flag = make_user(2, false, Some(10_000));
    assert_eq!(admin(with_flag).unwrap().id, 1);
    assert!(matches!(
        admin(without_flag),
        Err(AuthorizationError::Unauthorized)
    ));
}

#[test]
fn default_predicate_admits_every_principal() {
    let with_flag = make_user(1, true, Some(10_000));
    let without_flag = make_user(2, false, Some(10_000));
    assert_eq!(identified_server::gate::default(with_flag).unwrap().id, 1);
    assert_eq!(identified_server::gate::default(without_flag).unwrap().id, 2);
}

#[test]
fn missing_header_yields_no_token() {
    let user = make_user(1, true, Some(10_000));
    let r = check_authorized(false, Some(user), 1_000, CapabilityPredicate::Default);
    assert!(matches!(r, Err(AuthorizationError::NoToken)));
    let r = check_authorized(false, None, 1_000, CapabilityPredicate::AdminOnly);
    assert!(matches!(r, Err(AuthorizationError::NoToken)));
}

#[test]
fn unknown_token_yields_invalid_token() {
    let r = check_authorized(true, None, 1_000, CapabilityPredicate::Default);
    assert!(matches!(r, Err(AuthorizationError::InvalidToken)));
}

#[test]
fn expired_token_yields_invalid_token() {
    let user = make_user(1, true, Some(500));
    let r = check_authorized(true, Some(user), 1_000, CapabilityPredicate::Default);
    assert!(matches!(r, Err(AuthorizationError::InvalidToken)));
}

#[test]
fn insufficient_capability_yields_unauthorized() {
    let user = make_user(2, false, Some(10_000));
    let r = check_authorized(true, Some(user), 1_000, CapabilityPredicate::AdminOnly);
    assert!(matches!(r, Err(AuthorizationError::Unauthorized)));
}

#[test]
fn admitted_principal_is_returned() {
    let user = make_user(3, true, Some(10_000));
    let r = check_authorized(true, Some(user), 1_000, CapabilityPredicate::AdminOnly);
    assert_eq!(r.unwrap().id, 3);
    let user = make_user(4, false, Some(10_000));
    let r = check_authorized(true, Some(user), 1_000, CapabilityPredicate::Default);
    assert_eq!(r.unwrap().id, 4);
}
