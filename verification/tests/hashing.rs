use auth_core::errors::AuthError;
use auth_core::utils::{hash, hash_verify_round_trip, verify, AuthConfig, DEFAULT_COST};

const KEY: &[u8] = b"test-secret-key";

#[test]
fn hash_then_verify_succeeds() {
    for password in ["correct-horse", "", "p@ss w0rd", "snowman \u{2603}"] {
        let stored = hash(password, KEY, 4).expect("hashing should succeed");
        assert_eq!(verify(stored.as_str(), password, KEY), Ok(true));
    }
}

#[test]
fn hash_round_trip_helper_holds() {
    assert!(hash_verify_round_trip("correct-horse", KEY, 4));
    assert!(hash_verify_round_trip("", KEY, 4));
}

#[test]
fn hash_then_verify_succeeds_at_default_cost() {
    let stored = hash("batt3ry", KEY, DEFAULT_COST).expect("hashing should succeed");
    assert_eq!(verify(stored.as_str(), "batt3ry", KEY), Ok(true));
}

#[test]
fn wrong_password_does_not_verify() {
    let pairs = [
        ("correct-horse", "wrong"),
        ("a", "b"),
        ("", "nonempty"),
        ("password", "passwore"),
    ];
    for (p1, p2) in pairs {
        let stored = hash(p1, KEY, 4).expect("hashing should succeed");
        assert_eq!(verify(stored.as_str(), p2, KEY), Ok(false));
    }
}

#[test]
fn long_passwords_are_not_truncated() {
    // Passwords far past bcrypt's 72-byte limit still distinguish, because
    // the primitive hashes an HMAC of the password, not the password itself.
    let long_a = "x".repeat(100);
    let mut long_b = long_a.clone();
    long_b.push('y');
    let stored = hash(long_a.as_str(), KEY, 4).expect("hashing should succeed");
    assert_eq!(verify(stored.as_str(), long_a.as_str(), KEY), Ok(true));
    assert_eq!(verify(stored.as_str(), long_b.as_str(), KEY), Ok(false));
}

#[test]
fn wrong_key_does_not_verify() {
    let stored = hash("correct-horse", KEY, 4).expect("hashing should succeed");
    assert_eq!(verify(stored.as_str(), "correct-horse", b"other-key"), Ok(false));
}

#[test]
fn hash_output_shape() {
    let stored = hash("pw", KEY, 4).expect("hashing should succeed");
    assert_eq!(stored.len(), 60);
    assert_ne!(stored, "pw");
    assert!(!stored.contains("pw"));
}

#[test]
fn cost_outside_range_is_rejected() {
    assert_eq!(hash("pw", KEY, 3), Err(AuthError::HashingError));
    assert_eq!(hash("pw", KEY, 0), Err(AuthError::HashingError));
    assert_eq!(hash("pw", KEY, 32), Err(AuthError::HashingError));
}

#[test]
fn unparseable_hash_is_an_infrastructure_error() {
    assert_eq!(verify("not-a-hash", "pw", KEY), Err(AuthError::VerificationError));
    assert_eq!(verify("", "pw", KEY), Err(AuthError::VerificationError));
}

#[test]
fn config_validates_cost() {
    assert!(AuthConfig::new(KEY.to_vec(), 4).is_ok());
    assert!(AuthConfig::new(KEY.to_vec(), 31).is_ok());
    assert!(AuthConfig::new(KEY.to_vec(), DEFAULT_COST).is_ok());
    assert!(matches!(AuthConfig::new(KEY.to_vec(), 3), Err(AuthError::HashingError)));
    assert!(matches!(AuthConfig::new(KEY.to_vec(), 32), Err(AuthError::HashingError)));
}
