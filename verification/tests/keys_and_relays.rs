//! Tests for the session unlock and the relay list, run against the real
//! outside crates.

use nostr_sdk::prelude::{Keys, ToBech32};
use nostr_tui::keyvault::{unlock_session, AuthError};
use nostr_tui::relays::RelayConfig;

#[test]
fn wrong_password_is_refused_first() {
    let r = unlock_session("zz-not-even-hex", "stored", "entered");
    assert_eq!(r.err(), Some(AuthError::WrongPassword));
}

#[test]
fn malformed_hex_is_refused() {
    assert_eq!(unlock_session("zz", "pw", "pw").err(), Some(AuthError::MalformedKey));
    assert_eq!(unlock_session("abc", "pw", "pw").err(), Some(AuthError::MalformedKey));
}

#[test]
fn hex_of_the_wrong_length_is_refused() {
    // Valid hex, but only two bytes: no 32-byte key.
    assert_eq!(unlock_session("abcd", "pw", "pw").err(), Some(AuthError::MalformedKey));
}

#[test]
fn out_of_range_scalar_is_refused() {
    // 32 bytes of 0xff lie above the secp256k1 group order.
    let hex = "ff".repeat(32);
    assert_eq!(unlock_session(&hex, "pw", "pw").err(), Some(AuthError::MalformedKey));
}

#[test]
fn unlock_derives_the_identity_the_key_pair_has() {
    let keys = Keys::generate();
    let secret_hex = keys.secret_key().to_secret_hex();
    let expected_npub = keys.public_key().to_bech32().unwrap();

    let session = unlock_session(&secret_hex, "pw", "pw").unwrap();
    assert_eq!(session.public_identity, expected_npub);
    assert_eq!(session.secret_key, hex::decode(&secret_hex).unwrap());
    assert_eq!(session.secret_key.len(), 32);
}

#[test]
fn relays_are_added_once_and_removed_in_place() {
    let mut config = RelayConfig::new();
    assert!(config.add_relay("wss://one.example"));
    assert!(config.add_relay("wss://two.example"));
    assert!(!config.add_relay("wss://one.example"));
    assert_eq!(config.relays, vec!["wss://one.example", "wss://two.example"]);

    assert!(config.remove_relay("wss://one.example"));
    assert_eq!(config.relays, vec!["wss://two.example"]);
    assert!(!config.remove_relay("wss://one.example"));
}

#[test]
fn relay_lookup_compares_whole_addresses() {
    let mut config = RelayConfig::new();
    config.add_relay("wss://relay.example");
    assert!(config.contains_relay("wss://relay.example"));
    assert!(!config.contains_relay("wss://relay.exampl"));
    assert!(!config.contains_relay(""));
}
