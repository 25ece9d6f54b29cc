use auth_core::auth::logout;
use auth_core::errors::AuthError;
use auth_core::models::SlimUser;
use auth_core::session::{decode, issue, issue_decode_round_trip, SESSION_TTL_SECONDS};
use auth_core::utils::AuthConfig;

fn config() -> AuthConfig {
    AuthConfig::new(b"session-secret".to_vec(), 4).expect("cost 4 is valid")
}

fn alice() -> SlimUser {
    SlimUser { username: String::from("alice") }
}

#[test]
fn issued_token_decodes_to_its_principal() {
    let cfg = config();
    let now: u64 = 1_700_000_000;
    let token = issue(&alice(), now, &cfg).expect("issuing should succeed");
    let principal = decode(token.as_str(), now, &cfg).expect("decoding should succeed");
    assert_eq!(principal.username, "alice");
}

#[test]
fn round_trip_for_unusual_usernames() {
    let cfg = config();
    let now: u64 = 12345;
    for name in ["", "a:b:c", "bob 2", "sn\u{2603}wman", "0123456789"] {
        let user = SlimUser { username: String::from(name) };
        let token = issue(&user, now, &cfg).expect("issuing should succeed");
        let principal = decode(token.as_str(), now, &cfg).expect("decoding should succeed");
        assert_eq!(principal.username, name);
        assert!(issue_decode_round_trip(&user, now, now + SESSION_TTL_SECONDS, &cfg));
    }
}

#[test]
fn token_is_valid_until_expiry_and_not_after() {
    let cfg = config();
    let now: u64 = 50_000;
    let token = issue(&alice(), now, &cfg).expect("issuing should succeed");
    assert!(decode(token.as_str(), now + SESSION_TTL_SECONDS, &cfg).is_ok());
    assert_eq!(
        decode(token.as_str(), now + SESSION_TTL_SECONDS + 1, &cfg),
        Err(AuthError::InvalidSession)
    );
}

#[test]
fn malformed_tokens_are_rejected() {
    let cfg = config();
    assert_eq!(decode("", 0, &cfg), Err(AuthError::InvalidSession));
    assert_eq!(decode("hello", 0, &cfg), Err(AuthError::InvalidSession));
    let barely_long = "x".repeat(120);
    assert_eq!(decode(barely_long.as_str(), 0, &cfg), Err(AuthError::InvalidSession));
}

#[test]
fn token_signed_with_other_key_is_rejected() {
    let cfg = config();
    let other = AuthConfig::new(b"another-secret".to_vec(), 4).expect("cost 4 is valid");
    let now: u64 = 1000;
    let token = issue(&alice(), now, &other).expect("issuing should succeed");
    assert_eq!(decode(token.as_str(), now, &cfg), Err(AuthError::InvalidSession));
}

#[test]
fn flipping_any_byte_invalidates_the_token() {
    let cfg = config();
    let now: u64 = 1_700_000_000;
    let token = issue(&alice(), now, &cfg).expect("issuing should succeed");
    let bytes = token.as_bytes();
    for i in 0..bytes.len() {
        for flip in [0x01u8, 0x20u8] {
            let mut tampered = bytes.to_vec();
            tampered[i] ^= flip;
            // A flip that breaks UTF-8 cannot even be presented as a token.
            if let Ok(tampered_str) = std::str::from_utf8(&tampered) {
                assert_eq!(
                    decode(tampered_str, now, &cfg),
                    Err(AuthError::InvalidSession),
                    "flipped byte {i} was accepted"
                );
            }
        }
    }
}

#[test]
fn truncated_token_is_rejected() {
    let cfg = config();
    let now: u64 = 777;
    let token = issue(&alice(), now, &cfg).expect("issuing should succeed");
    let shorter = &token[..token.len() - 1];
    assert_eq!(decode(shorter, now, &cfg), Err(AuthError::InvalidSession));
}

#[test]
fn two_tokens_for_one_principal_both_verify() {
    let cfg = config();
    let now: u64 = 42;
    let t1 = issue(&alice(), now, &cfg).expect("issuing should succeed");
    let t2 = issue(&alice(), now, &cfg).expect("issuing should succeed");
    assert!(decode(t1.as_str(), now, &cfg).is_ok());
    assert!(decode(t2.as_str(), now, &cfg).is_ok());
}

#[test]
fn logout_discards_the_session() {
    let cfg = config();
    let token = issue(&alice(), 0, &cfg).expect("issuing should succeed");
    assert_eq!(logout(Some(token)), None);
    assert_eq!(logout(None), None);
}
