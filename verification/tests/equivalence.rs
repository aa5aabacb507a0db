use nostr_sdk::client::Client;
use nostr_sdk::contact::Contact;
use nostr_sdk::errors::ClientError;

fn contact(pk: &str, url: &str, alias: &str) -> Contact {
    Contact::new(pk.to_string(), url.to_string(), alias.to_string())
}

fn drive(client: &mut Client) -> Vec<Result<(), ClientError>> {
    let mut outcomes = Vec::new();
    client.add_contact(contact("aa", "wss://r1", "alice"));
    client.add_contact(contact("aa", "wss://r1", "alice"));
    outcomes.push(client.add_relay("wss://r1", None));
    outcomes.push(client.add_relay("wss://r2", None));
    outcomes.push(client.add_relay("wss://r1", None));
    outcomes.push(client.connect_relay("wss://r2"));
    outcomes.push(client.connect_all());
    outcomes.push(client.remove_relay("wss://r2"));
    outcomes.push(client.delete_event("short"));
    outcomes.push(
        client.delete_event("7469af3be8c8e06e1b50ef1caceba30392ddc0b6614507398b7d7daa4c218e96"),
    );
    client.remove_contact(&contact("bb", "wss://r2", "bob"));
    outcomes
}

/// The same operation sequence, run against two clients in the same
/// starting state, leaves the same observable contact list and relay
/// pool state, with the same success and error outcomes.
#[test]
fn same_operations_give_same_observable_state() {
    let keys = Client::generate_keys();
    let mut c1 = Client::new(&keys, None);
    let mut c2 = Client::new(&keys, None);
    let o1 = drive(&mut c1);
    let o2 = drive(&mut c2);
    assert_eq!(o1, o2);
    assert!(c1.contacts == c2.contacts);
    assert_eq!(c1.pool.relays.len(), c2.pool.relays.len());
    for (a, b) in c1.pool.relays.iter().zip(c2.pool.relays.iter()) {
        assert_eq!(a.url, b.url);
        assert_eq!(a.proxy, b.proxy);
        assert_eq!(a.status, b.status);
    }
    assert_eq!(c1.pool.connect_attempts, c2.pool.connect_attempts);
    assert_eq!(c1.pool.sent.len(), c2.pool.sent.len());
    assert_eq!(c1.pool.filters.len(), c2.pool.filters.len());
}
