//! The full journey of one subscriber: login, admission, subscription,
//! delivery, disconnect.

use identified_server::connection::ConnectionSession;
use identified_server::credential::{hash_password, random_string, DatabaseConfig};
use identified_server::gate::{check_authorized, CapabilityPredicate};
use identified_server::hub::{NotificationHub, PermissionUpdate};
use identified_server::principal::{issue_token, InternalUser};
use identified_server::session::{complete_login, require_token, verify_credentials};
use tokio::sync::mpsc::error::TryRecvError;
use tokio::sync::mpsc::unbounded_channel;

/// The store stands in for the external relational one: plain records,
/// looked up by the same three operations the adapter exposes.
fn seed_store(config: &DatabaseConfig) -> Vec<InternalUser> {
    let salt = random_string(config.salt_length);
    let hashed = hash_password("password", &salt, config.iterations);
    vec![InternalUser {
        id: 7,
        name: String::from("root"),
        email: String::from("root@admin.com"),
        password: hashed,
        salt,
        created_on: 0,
        last_login: None,
        auth_token: None,
        expires_on: None,
        admin: true,
    }]
}

fn find_by_email(store: &[InternalUser], email: &str) -> Option<InternalUser> {
    store.iter().find(|u| u.email == email).cloned()
}

fn find_by_auth_token(store: &[InternalUser], token: &str) -> Option<InternalUser> {
    store
        .iter()
        .find(|u| u.auth_token.as_deref() == Some(token))
        .cloned()
}

#[test]
fn login_subscribe_receive_disconnect() {
    let config = DatabaseConfig { iterations: 50, salt_length: 12, api_key_length: 30 };
    let mut store = seed_store(&config);
    let now: i64 = 1_700_000_000;

    // Login: lookup by email, verify the credential, persist a new token.
    let found = find_by_email(&store, "root@admin.com");
    let principal_id = verify_credentials(&found, "password", &config).unwrap();
    let index = store.iter().position(|u| u.id == principal_id).unwrap();
    issue_token(&mut store[index], now, config.api_key_length);
    let token = complete_login(Some(store[index].clone())).unwrap();

    // Open the subscribe connection: gate, then register permission 42.
    let bearer = Some(token.clone());
    let presented = require_token(&bearer).unwrap();
    let looked_up = find_by_auth_token(&store, presented);
    let principal = check_authorized(
        true,
        looked_up,
        now + 10,
        CapabilityPredicate::Default,
    )
    .unwrap();
    assert_eq!(principal.id, 7);

    let mut hub = NotificationHub::new();
    let (tx, mut rx) = unbounded_channel::<PermissionUpdate>();
    let mut session = ConnectionSession::start(&mut hub, 1, &vec![42], tx);

    // Publish for permission 42: the connection receives exactly it.
    let update = PermissionUpdate { user_id: 7, permission_id: 42, allowed: true };
    let delivered = hub.publish(&update);
    assert_eq!(delivered, vec![1]);
    assert_eq!(rx.try_recv().unwrap(), update);
    assert!(matches!(rx.try_recv(), Err(TryRecvError::Empty)));

    // Disconnect, publish again: no error and no delivery anywhere.
    session.terminate(&mut hub);
    drop(rx);
    let delivered = hub.publish(&update);
    assert!(delivered.is_empty());
    assert!(!hub.has_connection(1));
}
