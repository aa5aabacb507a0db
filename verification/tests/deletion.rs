use nostr_sdk::client::Client;
use nostr_sdk::errors::ClientError;
use nostr_sdk::identity::Identity;

const VALID_ID: &str = "7469af3be8c8e06e1b50ef1caceba30392ddc0b6614507398b7d7daa4c218e96";

#[test]
fn delete_event_rejects_non_hex() {
    let keys = Client::generate_keys();
    let mut client = Client::new(&keys, None);
    let r = client.delete_event("not-hex");
    assert_eq!(r, Err(ClientError::Parse));
    assert_eq!(client.pool.sent.len(), 0);
}

#[test]
fn delete_event_rejects_wrong_length() {
    let keys = Client::generate_keys();
    let mut client = Client::new(&keys, None);
    let r = client.delete_event(&VALID_ID[..62]);
    assert_eq!(r, Err(ClientError::Parse));
    let r2 = client.delete_event(&format!("{}aa", VALID_ID));
    assert_eq!(r2, Err(ClientError::Parse));
    assert_eq!(client.pool.sent.len(), 0);
}

#[test]
fn delete_event_sends_exactly_one_event_on_valid_id() {
    let keys = Client::generate_keys();
    let mut client = Client::new(&keys, None);
    let r = client.delete_event(VALID_ID);
    assert_eq!(r, Ok(()));
    assert_eq!(client.pool.sent.len(), 1);
}

#[test]
fn delete_event_accepts_upper_case_hex() {
    let keys = Client::generate_keys();
    let mut client = Client::new(&keys, None);
    let r = client.delete_event(&VALID_ID.to_uppercase());
    assert_eq!(r, Ok(()));
    assert_eq!(client.pool.sent.len(), 1);
}

#[test]
fn delete_event_without_signing_key_fails_before_sending() {
    let full = Client::generate_keys();
    let watch_only = Identity::from_keys(nostr_sdk_base::Keys::from_public_key(
        full.as_keys().public_key(),
    ));
    assert!(!watch_only.is_signer());
    let mut client = Client::new(&watch_only, None);
    let r = client.delete_event(VALID_ID);
    assert_eq!(r, Err(ClientError::Signing));
    assert_eq!(client.pool.sent.len(), 0);
}

#[test]
fn generate_keys_draws_fresh_identities() {
    let k1 = Client::generate_keys();
    let k2 = Client::generate_keys();
    assert_ne!(
        k1.as_keys().public_key_as_str(),
        k2.as_keys().public_key_as_str()
    );
}

#[test]
fn generated_identity_can_sign() {
    let keys = Client::generate_keys();
    assert!(keys.is_signer());
    let reconverted = Identity::from_keys(keys.as_keys().clone());
    assert!(reconverted.is_signer());
}

#[test]
fn error_descriptions_name_the_failure() {
    assert_eq!(ClientError::Parse.description(), "malformed event id");
    assert_eq!(ClientError::Connection.description(), "relay connection failure");
    assert_eq!(ClientError::Protocol.description(), "rejected by the relay pool");
    assert_eq!(ClientError::Signing.description(), "signing failed");
    assert_eq!(ClientError::Channel.description(), "notification channel failure");
}
