use identified_server::credential::{hash_password, DatabaseConfig};
use identified_server::principal::{new_user_record, update_user_record, SubmitInternalUser};

fn test_config() -> DatabaseConfig {
    DatabaseConfig { iterations: 50, salt_length: 16, api_key_length: 30 }
}

fn submission() -> SubmitInternalUser {
    SubmitInternalUser {
        name: String::from("someone"),
        email: String::from("someone@example.com"),
        password: String::from("hunter2"),
    }
}

#[test]
fn new_user_record_derives_the_credential_under_a_fresh_salt() {
    let config = test_config();
    let record = new_user_record(submission(), true, 12_345, &config);
    assert_eq!(record.name, "someone");
    assert_eq!(record.email, "someone@example.com");
    assert_eq!(record.salt.chars().count(), config.salt_length);
    assert_eq!(record.created_on, 12_345);
    assert!(record.admin);
    // The stored credential is exactly the derivation under the record's
    // own salt; the plain password is gone.
    let expected = hash_password("hunter2", &record.salt, config.iterations);
    assert_eq!(record.password, expected);
}

#[test]
fn new_user_records_get_distinct_salts() {
    let config = test_config();
    let a = new_user_record(submission(), false, 0, &config);
    let b = new_user_record(submission(), false, 0, &config);
    assert_ne!(a.salt, b.salt);
    assert_ne!(a.password, b.password);
}

#[test]
fn update_user_record_rehashes_and_rotates_the_token() {
    let config = test_config();
    let (record, token) = update_user_record(9, submission(), &config);
    assert_eq!(record.id, 9);
    assert_eq!(record.name, "someone");
    assert_eq!(record.email, "someone@example.com");
    assert_eq!(record.salt.chars().count(), config.salt_length);
    let expected = hash_password("hunter2", &record.salt, config.iterations);
    assert_eq!(record.password, expected);
    assert_eq!(token.chars().count(), config.api_key_length);
}
