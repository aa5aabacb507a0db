use nostr_sdk::client::Client;
use nostr_sdk::contact::Contact;

fn contact(pk: &str, url: &str, alias: &str) -> Contact {
    Contact::new(pk.to_string(), url.to_string(), alias.to_string())
}

#[test]
fn new_client_has_no_contacts() {
    let keys = Client::generate_keys();
    let client = Client::new(&keys, None);
    assert_eq!(client.contacts.len(), 0);
}

#[test]
fn new_client_keeps_given_contacts() {
    let keys = Client::generate_keys();
    let initial = vec![contact("aa", "wss://r1", "alice")];
    let client = Client::new(&keys, Some(initial));
    assert_eq!(client.contacts.len(), 1);
    assert_eq!(client.contacts[0].alias, "alice");
}

#[test]
fn add_contact_twice_keeps_one() {
    let keys = Client::generate_keys();
    let mut client = Client::new(&keys, None);
    let a = contact("aa", "wss://r1", "alice");
    client.add_contact(a.clone());
    client.add_contact(a.clone());
    assert_eq!(client.contacts.len(), 1);
    assert!(client.contacts[0] == a);
}

#[test]
fn add_contact_keeps_first_insertion_order() {
    let keys = Client::generate_keys();
    let mut client = Client::new(&keys, None);
    let a = contact("aa", "wss://r1", "alice");
    let b = contact("bb", "wss://r2", "bob");
    let c = contact("cc", "wss://r3", "carol");
    client.add_contact(a.clone());
    client.add_contact(b.clone());
    client.add_contact(a.clone());
    client.add_contact(c.clone());
    client.add_contact(b.clone());
    assert_eq!(client.contacts.len(), 3);
    assert!(client.contacts[0] == a);
    assert!(client.contacts[1] == b);
    assert!(client.contacts[2] == c);
}

#[test]
fn remove_contact_keeps_others() {
    let keys = Client::generate_keys();
    let mut client = Client::new(&keys, None);
    let a = contact("aa", "wss://r1", "alice");
    let b = contact("bb", "wss://r2", "bob");
    client.add_contact(a.clone());
    client.add_contact(b.clone());
    client.remove_contact(&a);
    assert_eq!(client.contacts.len(), 1);
    assert!(client.contacts[0] == b);
}

#[test]
fn remove_absent_contact_is_noop() {
    let keys = Client::generate_keys();
    let mut client = Client::new(&keys, None);
    let a = contact("aa", "wss://r1", "alice");
    let b = contact("bb", "wss://r2", "bob");
    client.add_contact(a.clone());
    client.remove_contact(&b);
    assert_eq!(client.contacts.len(), 1);
    assert!(client.contacts[0] == a);
}

#[test]
fn contacts_differing_in_one_field_are_distinct() {
    let keys = Client::generate_keys();
    let mut client = Client::new(&keys, None);
    let a = contact("aa", "wss://r1", "alice");
    let a2 = contact("aa", "wss://r1", "ally");
    client.add_contact(a.clone());
    client.add_contact(a2.clone());
    assert_eq!(client.contacts.len(), 2);
}
