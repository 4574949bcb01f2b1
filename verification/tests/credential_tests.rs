use identified_server::credential::{
    constant_time_equal, hash_password, random_string, DatabaseConfig, CREDENTIAL_LEN,
};

#[test]
fn derive_is_deterministic() {
    let a = hash_password("hunter2", "pepper", 100);
    let b = hash_password("hunter2", "pepper", 100);
    assert_eq!(a, b);
    assert_eq!(a.len(), CREDENTIAL_LEN);
}

#[test]
fn derive_distinct_passwords_differ() {
    let a = hash_password("hunter2", "pepper", 100);
    let b = hash_password("hunter3", "pepper", 100);
    assert_ne!(a, b);
}

#[test]
fn derive_distinct_salts_differ() {
    let a = hash_password("hunter2", "pepper", 100);
    let b = hash_password("hunter2", "salt", 100);
    assert_ne!(a, b);
}

#[test]
fn derive_distinct_iterations_differ() {
    let a = hash_password("hunter2", "pepper", 100);
    let b = hash_password("hunter2", "pepper", 101);
    assert_ne!(a, b);
}

#[test]
fn constant_time_equal_is_symmetric() {
    let a = vec![1u8, 2, 3];
    let b = vec![1u8, 2, 4];
    let c = vec![1u8, 2, 3];
    assert_eq!(constant_time_equal(&a, &b), constant_time_equal(&b, &a));
    assert_eq!(constant_time_equal(&a, &c), constant_time_equal(&c, &a));
    assert!(constant_time_equal(&a, &c));
    assert!(!constant_time_equal(&a, &b));
}

#[test]
fn constant_time_equal_length_mismatch_is_false() {
    let a = vec![1u8, 2, 3];
    let b = vec![1u8, 2];
    let empty: Vec<u8> = Vec::new();
    assert!(!constant_time_equal(&a, &b));
    assert!(!constant_time_equal(&b, &a));
    assert!(!constant_time_equal(&a, &empty));
    assert!(constant_time_equal(&empty, &empty));
}

#[test]
fn random_string_has_requested_length() {
    for n in [0usize, 1, 12, 30] {
        let s = random_string(n);
        assert_eq!(s.chars().count(), n);
        assert!(s.chars().all(|c| c.is_ascii_alphanumeric()));
    }
}

#[test]
fn random_strings_are_distinct() {
    let a = random_string(30);
    let b = random_string(30);
    assert_ne!(a, b);
}

#[test]
fn default_config_values() {
    let config = DatabaseConfig::default();
    assert_eq!(config.iterations, 100);
    assert_eq!(config.salt_length, 12);
    assert_eq!(config.api_key_length, 12);
}
