use nostr_sdk::client::Client;
use nostr_sdk::errors::ClientError;
use nostr_sdk::pool::RelayStatus;

#[test]
fn add_relay_registers_disconnected() {
    let keys = Client::generate_keys();
    let mut client = Client::new(&keys, None);
    client.add_relay("wss://r1", None).unwrap();
    assert_eq!(client.pool.relays.len(), 1);
    assert_eq!(client.pool.relays[0].url, "wss://r1");
    assert_eq!(client.pool.relays[0].status, RelayStatus::Disconnected);
}

#[test]
fn add_relay_duplicate_fails_and_changes_nothing() {
    let keys = Client::generate_keys();
    let mut client = Client::new(&keys, None);
    client.add_relay("wss://r1", None).unwrap();
    let second = client.add_relay("wss://r1", Some("127.0.0.1:9050".to_string()));
    assert_eq!(second, Err(ClientError::Connection));
    assert_eq!(client.pool.relays.len(), 1);
}

#[test]
fn remove_relay_unknown_fails() {
    let keys = Client::generate_keys();
    let mut client = Client::new(&keys, None);
    let r = client.remove_relay("wss://nowhere");
    assert_eq!(r, Err(ClientError::Connection));
}

#[test]
fn remove_relay_forgets_it() {
    let keys = Client::generate_keys();
    let mut client = Client::new(&keys, None);
    client.add_relay("wss://r1", None).unwrap();
    client.add_relay("wss://r2", None).unwrap();
    client.remove_relay("wss://r1").unwrap();
    assert_eq!(client.pool.relays.len(), 1);
    assert_eq!(client.pool.relays[0].url, "wss://r2");
}

#[test]
fn connect_and_disconnect_relay_flip_status() {
    let keys = Client::generate_keys();
    let mut client = Client::new(&keys, None);
    client.add_relay("wss://r1", None).unwrap();
    client.connect_relay("wss://r1").unwrap();
    assert_eq!(client.pool.relays[0].status, RelayStatus::Connected);
    client.disconnect_relay("wss://r1").unwrap();
    assert_eq!(client.pool.relays[0].status, RelayStatus::Disconnected);
}

#[test]
fn connect_unknown_relay_fails() {
    let keys = Client::generate_keys();
    let mut client = Client::new(&keys, None);
    let r = client.connect_relay("wss://nowhere");
    assert_eq!(r, Err(ClientError::Connection));
    assert_eq!(client.pool.connect_attempts.len(), 0);
}

#[test]
fn connect_all_attempts_only_disconnected() {
    let keys = Client::generate_keys();
    let mut client = Client::new(&keys, None);
    client.add_relay("wss://r1", None).unwrap();
    client.add_relay("wss://r2", None).unwrap();
    client.add_relay("wss://r3", None).unwrap();
    client.connect_relay("wss://r1").unwrap();
    client.connect_relay("wss://r2").unwrap();
    let before = client.pool.connect_attempts.len();
    assert_eq!(before, 2);
    client.connect_all().unwrap();
    assert_eq!(client.pool.connect_attempts.len(), before + 1);
    assert_eq!(client.pool.connect_attempts[before], "wss://r3");
    for relay in &client.pool.relays {
        assert_eq!(relay.status, RelayStatus::Connected);
    }
}

#[test]
fn subscribe_replaces_filters() {
    let keys = Client::generate_keys();
    let mut client = Client::new(&keys, None);
    let filter = nostr_sdk_base::SubscriptionFilter::new();
    client.subscribe(vec![filter]).unwrap();
    assert_eq!(client.pool.filters.len(), 1);
    client.subscribe(Vec::new()).unwrap();
    assert_eq!(client.pool.filters.len(), 0);
}
