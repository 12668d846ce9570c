use loquaz::config::{Config, ConfigProvider, Contact};
use loquaz::keys::PublicKey;

fn key(n: u8) -> PublicKey {
    PublicKey::from_bytes([n; 32])
}

fn names(provider: &ConfigProvider) -> Vec<(String, u8)> {
    provider.list_contacts().iter().map(|c| (c.alias.clone(), c.pk.to_bytes()[0])).collect()
}

fn pair(alias: &str, n: u8) -> (String, u8) {
    (alias.to_string(), n)
}

#[test]
fn a_new_configuration_is_empty() {
    let provider = ConfigProvider::new();
    assert!(provider.list_contacts().is_empty());
    assert!(provider.list_relays_url().is_empty());
    let snapshot = provider.save();
    assert!(snapshot.contacts.is_empty());
    assert!(snapshot.relays_url.is_empty());
}

#[test]
fn contacts_are_kept_in_the_order_in_which_they_came() {
    let mut provider = ConfigProvider::new();
    provider.add_contact(Contact::new("alice", key(1)));
    provider.add_contact(Contact::new("bob", key(2)));
    let snapshot = provider.add_contact(Contact::new("carol", key(3)));
    assert_eq!(names(&provider), vec![pair("alice", 1), pair("bob", 2), pair("carol", 3)]);
    assert_eq!(snapshot.contacts.len(), 3);
    assert_eq!(snapshot.contacts[2].alias, "carol");
    assert!(provider.has_contact(&key(2)));
    assert!(!provider.has_contact(&key(4)));
}

#[test]
fn a_contact_with_a_known_key_takes_the_place_of_the_old_one() {
    let mut provider = ConfigProvider::new();
    provider.add_contact(Contact::new("alice", key(1)));
    provider.add_contact(Contact::new("bob", key(2)));
    provider.add_contact(Contact::new("alicia", key(1)));
    assert_eq!(names(&provider), vec![pair("alicia", 1), pair("bob", 2)]);
}

#[test]
fn a_contact_is_removed_by_its_key() {
    let mut provider = ConfigProvider::new();
    provider.add_contact(Contact::new("alice", key(1)));
    provider.add_contact(Contact::new("bob", key(2)));
    provider.add_contact(Contact::new("carol", key(3)));
    let snapshot = provider.remove_contact(&Contact::new("whoever", key(2)));
    assert_eq!(names(&provider), vec![pair("alice", 1), pair("carol", 3)]);
    assert_eq!(snapshot.contacts.len(), 2);
    provider.remove_contact(&Contact::new("nobody", key(9)));
    assert_eq!(names(&provider), vec![pair("alice", 1), pair("carol", 3)]);
}

#[test]
fn relay_addresses_are_kept_once_each() {
    let mut provider = ConfigProvider::new();
    provider.add_relay(String::from("wss://one.example"));
    provider.add_relay(String::from("wss://two.example"));
    let snapshot = provider.add_relay(String::from("wss://one.example"));
    assert_eq!(provider.list_relays_url(), vec!["wss://one.example", "wss://two.example"]);
    assert_eq!(snapshot.relays_url, vec!["wss://one.example", "wss://two.example"]);
    let snapshot = provider.remove_relay("wss://one.example");
    assert_eq!(provider.list_relays_url(), vec!["wss://two.example"]);
    assert_eq!(snapshot.relays_url, vec!["wss://two.example"]);
    provider.remove_relay("wss://none.example");
    assert_eq!(provider.list_relays_url(), vec!["wss://two.example"]);
}

#[test]
fn a_read_configuration_is_taken_in_one_by_one() {
    let config = Config::new(
        vec![
            Contact::new("alice", key(1)),
            Contact::new("bob", key(2)),
            Contact::new("alicia", key(1)),
        ],
        vec![
            String::from("wss://one.example"),
            String::from("wss://two.example"),
            String::from("wss://one.example"),
        ],
    );
    let provider = ConfigProvider::load(config);
    assert_eq!(names(&provider), vec![pair("alicia", 1), pair("bob", 2)]);
    assert_eq!(provider.list_relays_url(), vec!["wss://one.example", "wss://two.example"]);
}

#[test]
fn a_copy_of_a_contact_holds_the_same_values() {
    let contact = Contact::new("alice", key(1));
    let copy = contact.clone();
    assert_eq!(copy.alias, "alice");
    assert!(copy.pk == key(1));
}

#[test]
fn a_contact_is_deleted_by_its_key_alone() {
    let mut provider = ConfigProvider::new();
    provider.add_contact(Contact::new("alice", key(1)));
    provider.add_contact(Contact::new("bob", key(2)));
    let snapshot = provider.delete_contact(&key(1));
    assert_eq!(names(&provider), vec![pair("bob", 2)]);
    assert_eq!(snapshot.contacts.len(), 1);
    assert!(!provider.has_contact(&key(1)));
}
