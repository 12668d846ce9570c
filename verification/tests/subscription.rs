use loquaz::config::Contact;
use loquaz::keys::PublicKey;
use loquaz::subscription::{rebuild_filters, Channel, Filter, Subscription};

fn key(n: u8) -> PublicKey {
    PublicKey::from_bytes([n; 32])
}

fn firsts(keys: &[PublicKey]) -> Vec<u8> {
    keys.iter().map(|k| k.to_bytes()[0]).collect()
}

#[test]
fn the_filter_set_of_no_contacts_is_the_incoming_filter() {
    let filters = rebuild_filters(&vec![], &key(7));
    assert_eq!(filters.len(), 1);
    assert!(filters[0].authors.is_empty());
    assert_eq!(filters[0].kind, 4);
    assert!(filters[0].pubkey == key(7));
}

#[test]
fn the_filter_set_covers_every_contact_in_both_directions() {
    let contacts = vec![
        Contact::new("alice", key(1)),
        Contact::new("bob", key(2)),
        Contact::new("carol", key(3)),
    ];
    let filters = rebuild_filters(&contacts, &key(7));
    assert_eq!(filters.len(), 4);
    assert_eq!(firsts(&filters[0].authors), vec![1, 2, 3]);
    assert!(filters[0].pubkey == key(7));
    for (i, n) in [1u8, 2, 3].iter().enumerate() {
        let filter = &filters[i + 1];
        assert_eq!(firsts(&filter.authors), vec![7]);
        assert_eq!(filter.kind, 4);
        assert!(filter.pubkey == key(*n));
    }
}

#[test]
fn a_new_channel_has_a_fresh_identifier() {
    let a = Channel::new("wss://one.example");
    let b = Channel::new("wss://one.example");
    assert_eq!(a.relay_url, "wss://one.example");
    assert_eq!(b.relay_url, "wss://one.example");
    assert!(!a.id.is_empty());
    assert_ne!(a.id, b.id);
    let c = Channel::with_id("wss://two.example", String::from("chan"));
    assert_eq!(c.relay_url, "wss://two.example");
    assert_eq!(c.id, "chan");
}

#[test]
fn a_new_subscription_has_nothing() {
    let subscription = Subscription::new();
    assert!(subscription.get_filters().is_empty());
    assert!(!subscription.is_established());
    assert!(subscription.get_channel("wss://one.example").is_none());
}

#[test]
fn filters_are_replaced_as_a_whole() {
    let mut subscription = Subscription::new();
    subscription.update_filters(vec![Filter { authors: vec![key(1)], kind: 4, pubkey: key(2) }]);
    assert!(subscription.is_established());
    assert_eq!(subscription.get_filters().len(), 1);
    subscription.update_filters(vec![]);
    assert!(subscription.is_established());
    assert!(subscription.get_filters().is_empty());
}

#[test]
fn a_relay_has_one_channel_at_most() {
    let mut subscription = Subscription::new();
    let none = subscription.add_channel(Channel::with_id("wss://one.example", String::from("a")));
    assert!(none.is_none());
    subscription.add_channel(Channel::with_id("wss://two.example", String::from("b")));
    let old = subscription.add_channel(Channel::with_id("wss://one.example", String::from("c")));
    assert_eq!(old.unwrap().id, "a");
    assert_eq!(subscription.get_channel("wss://one.example").unwrap().id, "c");
    assert_eq!(subscription.get_channel("wss://two.example").unwrap().id, "b");
    let removed = subscription.remove_channel("wss://one.example").unwrap();
    assert_eq!(removed.id, "c");
    assert_eq!(removed.relay_url, "wss://one.example");
    assert!(subscription.get_channel("wss://one.example").is_none());
    assert!(subscription.remove_channel("wss://one.example").is_none());
    assert_eq!(subscription.get_channel("wss://two.example").unwrap().id, "b");
}
