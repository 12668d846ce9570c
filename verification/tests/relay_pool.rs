use loquaz::event::{Event, EventId};
use loquaz::keys::PublicKey;
use loquaz::message::ClientMessage;
use loquaz::relay::RelayStatus;
use loquaz::relay_pool::{PoolAction, RelayPool};
use loquaz::subscription::Filter;

const ONE: &str = "wss://one.example";
const TWO: &str = "wss://two.example";
const THREE: &str = "wss://three.example";

fn key(n: u8) -> PublicKey {
    PublicKey::from_bytes([n; 32])
}

fn filters() -> Vec<Filter> {
    vec![Filter { authors: vec![key(1)], kind: 4, pubkey: key(2) }]
}

fn event(n: u8) -> Event {
    Event::new(
        EventId { bytes: [n; 32] },
        key(1),
        5,
        4,
        vec![vec![String::from("p"), key(2).to_hex()]],
        String::from("text"),
        [0u8; 64],
    )
}

fn pool_with(urls: &[&str]) -> RelayPool {
    let mut pool = RelayPool::new();
    for url in urls {
        assert!(pool.add(url).0);
    }
    pool
}

fn connect(pool: &mut RelayPool, url: &str) -> Vec<PoolAction> {
    pool.connect_relay(url);
    pool.handshake_done(url, true)
}

fn describe(actions: &[PoolAction]) -> Vec<String> {
    actions
        .iter()
        .map(|a| match a {
            PoolAction::Dial { relay_url } => format!("dial {}", relay_url),
            PoolAction::HangUp { relay_url } => format!("hang up {}", relay_url),
            PoolAction::Send { relay_url, message } => match message {
                ClientMessage::Event(e) => format!("event {} to {}", e.id.bytes[0], relay_url),
                ClientMessage::Req { filters, .. } => {
                    format!("req of {} to {}", filters.len(), relay_url)
                }
                ClientMessage::Close(_) => format!("close to {}", relay_url),
            },
        })
        .collect()
}

fn request_id(actions: &[PoolAction]) -> String {
    for action in actions {
        if let PoolAction::Send { message: ClientMessage::Req { subscription_id, .. }, .. } = action
        {
            return subscription_id.clone();
        }
    }
    panic!("no request among the actions")
}

fn close_id(actions: &[PoolAction]) -> String {
    for action in actions {
        if let PoolAction::Send { message: ClientMessage::Close(id), .. } = action {
            return id.clone();
        }
    }
    panic!("no close among the actions")
}

#[test]
fn a_new_pool_is_empty() {
    let pool = RelayPool::new();
    assert!(pool.list_relays().is_empty());
    assert!(pool.get_filters().is_empty());
    assert!(pool.status(ONE).is_none());
    assert!(pool.channel(ONE).is_none());
}

#[test]
fn relays_are_added_disconnected_and_listed_in_order() {
    let pool = pool_with(&[ONE, TWO, THREE]);
    let relays = pool.list_relays();
    assert_eq!(relays.len(), 3);
    assert_eq!(relays[0].url, ONE);
    assert_eq!(relays[1].url, TWO);
    assert_eq!(relays[2].url, THREE);
    assert!(relays.iter().all(|r| r.status == RelayStatus::Disconnected));
    assert_eq!(pool.status(TWO), Some(RelayStatus::Disconnected));
}

#[test]
fn text_that_is_no_relay_address_is_not_added() {
    let mut pool = pool_with(&[ONE]);
    let (added, actions) = pool.add("https://one.example");
    assert!(!added);
    assert!(actions.is_empty());
    let (added, _) = pool.add("one");
    assert!(!added);
    assert_eq!(pool.list_relays().len(), 1);
}

#[test]
fn adding_a_relay_again_resets_it() {
    let mut pool = pool_with(&[ONE, TWO]);
    pool.start_sub(filters());
    connect(&mut pool, ONE);
    assert!(pool.channel(ONE).is_some());
    let (added, actions) = pool.add(ONE);
    assert!(added);
    assert_eq!(describe(&actions), vec![format!("hang up {}", ONE)]);
    assert_eq!(pool.status(ONE), Some(RelayStatus::Disconnected));
    assert!(pool.channel(ONE).is_none());
    assert_eq!(pool.list_relays().len(), 2);
    assert_eq!(pool.list_relays()[0].url, ONE);
    let (_, actions) = pool.add(ONE);
    assert!(actions.is_empty());
}

#[test]
fn a_relay_is_removed_with_its_place() {
    let mut pool = pool_with(&[ONE, TWO, THREE]);
    assert!(pool.remove(TWO));
    assert!(!pool.remove(TWO));
    let relays = pool.list_relays();
    assert_eq!(relays.len(), 2);
    assert_eq!(relays[0].url, ONE);
    assert_eq!(relays[1].url, THREE);
    assert!(pool.status(TWO).is_none());
}

#[test]
fn connecting_dials_a_disconnected_relay_once() {
    let mut pool = pool_with(&[ONE]);
    assert_eq!(describe(&pool.connect_relay(ONE)), vec![format!("dial {}", ONE)]);
    assert_eq!(pool.status(ONE), Some(RelayStatus::Connecting));
    assert!(pool.connect_relay(ONE).is_empty());
    assert!(pool.connect_relay(TWO).is_empty());
    assert!(pool.handshake_done(ONE, true).is_empty());
    assert_eq!(pool.status(ONE), Some(RelayStatus::Connected));
    assert!(pool.connect_relay(ONE).is_empty());
    assert!(pool.channel(ONE).is_none());
}

#[test]
fn a_failed_handshake_can_be_tried_again() {
    let mut pool = pool_with(&[ONE]);
    pool.connect_relay(ONE);
    assert!(pool.handshake_done(ONE, false).is_empty());
    assert_eq!(pool.status(ONE), Some(RelayStatus::Disconnected));
    assert_eq!(describe(&pool.connect_relay(ONE)), vec![format!("dial {}", ONE)]);
}

#[test]
fn a_handshake_that_nobody_waits_for_is_hung_up() {
    let mut pool = pool_with(&[ONE]);
    assert_eq!(describe(&pool.handshake_done(ONE, true)), vec![format!("hang up {}", ONE)]);
    assert_eq!(describe(&pool.handshake_done(TWO, true)), vec![format!("hang up {}", TWO)]);
    assert!(pool.handshake_done(TWO, false).is_empty());
    assert_eq!(pool.status(ONE), Some(RelayStatus::Disconnected));
}

#[test]
fn connecting_all_dials_every_disconnected_relay() {
    let mut pool = pool_with(&[ONE, TWO, THREE]);
    connect(&mut pool, TWO);
    let actions = pool.connect_all();
    assert_eq!(describe(&actions), vec![format!("dial {}", ONE), format!("dial {}", THREE)]);
    assert_eq!(pool.status(ONE), Some(RelayStatus::Connecting));
    assert_eq!(pool.status(TWO), Some(RelayStatus::Connected));
    assert_eq!(pool.status(THREE), Some(RelayStatus::Connecting));
    assert!(pool.connect_all().is_empty());
}

#[test]
fn a_filter_set_is_sent_to_every_connected_relay() {
    let mut pool = pool_with(&[ONE, TWO, THREE]);
    connect(&mut pool, ONE);
    connect(&mut pool, THREE);
    let actions = pool.start_sub(filters());
    assert_eq!(
        describe(&actions),
        vec![format!("req of 1 to {}", ONE), format!("req of 1 to {}", THREE)]
    );
    assert_eq!(pool.get_filters().len(), 1);
    assert_eq!(pool.channel(ONE).unwrap().id, request_id(&actions[..1]));
    assert_eq!(pool.channel(THREE).unwrap().id, request_id(&actions[1..]));
    assert_ne!(pool.channel(ONE).unwrap().id, pool.channel(THREE).unwrap().id);
    assert!(pool.channel(TWO).is_none());
}

#[test]
fn a_new_filter_set_supersedes_the_channel() {
    let mut pool = pool_with(&[ONE]);
    connect(&mut pool, ONE);
    let first = request_id(&pool.start_sub(filters()));
    let actions = pool.start_sub(vec![]);
    assert_eq!(
        describe(&actions),
        vec![format!("close to {}", ONE), format!("req of 0 to {}", ONE)]
    );
    assert_eq!(close_id(&actions), first);
    let second = request_id(&actions);
    assert_ne!(first, second);
    assert_eq!(pool.channel(ONE).unwrap().id, second);
}

#[test]
fn a_relay_that_connects_later_is_asked_then() {
    let mut pool = pool_with(&[ONE]);
    assert!(pool.start_sub(filters()).is_empty());
    pool.connect_relay(ONE);
    assert!(pool.channel(ONE).is_none());
    let actions = pool.handshake_done(ONE, true);
    assert_eq!(describe(&actions), vec![format!("req of 1 to {}", ONE)]);
    assert_eq!(pool.channel(ONE).unwrap().id, request_id(&actions));
}

#[test]
fn the_channel_of_a_handshake_can_be_given() {
    let mut pool = pool_with(&[ONE]);
    pool.start_sub(filters());
    pool.connect_relay(ONE);
    let actions = pool.handshake_done_with(ONE, true, String::from("chan"));
    assert_eq!(request_id(&actions), "chan");
    assert_eq!(pool.channel(ONE).unwrap().id, "chan");
    assert_eq!(pool.channel(ONE).unwrap().relay_url, ONE);
}

#[test]
fn disconnecting_cancels_the_channel_and_hangs_up() {
    let mut pool = pool_with(&[ONE, TWO]);
    connect(&mut pool, ONE);
    connect(&mut pool, TWO);
    let asked = pool.start_sub(filters());
    let actions = pool.disconnect_relay(ONE);
    assert_eq!(
        describe(&actions),
        vec![format!("close to {}", ONE), format!("hang up {}", ONE)]
    );
    assert_eq!(close_id(&actions), request_id(&asked[..1]));
    assert_eq!(pool.status(ONE), Some(RelayStatus::Disconnected));
    assert!(pool.channel(ONE).is_none());
    assert!(pool.channel(TWO).is_some());
    assert!(pool.disconnect_relay(ONE).is_empty());
    assert!(pool.disconnect_relay(THREE).is_empty());
}

#[test]
fn disconnecting_without_a_filter_set_only_hangs_up() {
    let mut pool = pool_with(&[ONE]);
    connect(&mut pool, ONE);
    assert_eq!(describe(&pool.disconnect_relay(ONE)), vec![format!("hang up {}", ONE)]);
    pool.connect_relay(ONE);
    assert_eq!(describe(&pool.disconnect_relay(ONE)), vec![format!("hang up {}", ONE)]);
    assert_eq!(pool.status(ONE), Some(RelayStatus::Disconnected));
}

#[test]
fn a_reconnected_relay_has_exactly_one_channel() {
    let mut pool = pool_with(&[ONE, TWO]);
    connect(&mut pool, ONE);
    connect(&mut pool, TWO);
    pool.start_sub(filters());
    let before = pool.channel(ONE).unwrap().id;
    let other = pool.channel(TWO).unwrap().id;
    pool.disconnect_relay(ONE);
    assert!(pool.channel(ONE).is_none());
    pool.connect_relay(ONE);
    assert!(pool.channel(ONE).is_none());
    let actions = pool.handshake_done(ONE, true);
    assert_eq!(describe(&actions), vec![format!("req of 1 to {}", ONE)]);
    let after = pool.channel(ONE).unwrap().id;
    assert_eq!(after, request_id(&actions));
    assert_ne!(after, before);
    assert_eq!(pool.channel(TWO).unwrap().id, other);
}

#[test]
fn a_lost_session_forgets_the_channel() {
    let mut pool = pool_with(&[ONE]);
    connect(&mut pool, ONE);
    pool.start_sub(filters());
    pool.relay_disconnected(ONE);
    assert_eq!(pool.status(ONE), Some(RelayStatus::Disconnected));
    assert!(pool.channel(ONE).is_none());
    pool.relay_disconnected(TWO);
    assert!(pool.status(TWO).is_none());
}

#[test]
fn one_relay_can_be_asked_again() {
    let mut pool = pool_with(&[ONE, TWO]);
    connect(&mut pool, ONE);
    assert!(pool.subscribe_relay(ONE).is_empty());
    pool.start_sub(filters());
    let actions = pool.subscribe_relay_with(ONE, String::from("again"));
    assert_eq!(
        describe(&actions),
        vec![format!("close to {}", ONE), format!("req of 1 to {}", ONE)]
    );
    assert_eq!(pool.channel(ONE).unwrap().id, "again");
    assert!(pool.subscribe_relay(TWO).is_empty());
    let actions = pool.subscribe_relay(ONE);
    assert_eq!(close_id(&actions), "again");
    assert_eq!(pool.channel(ONE).unwrap().id, request_id(&actions));
}

#[test]
fn an_event_is_sent_to_every_connected_relay() {
    let mut pool = pool_with(&[ONE, TWO, THREE]);
    connect(&mut pool, ONE);
    pool.connect_relay(TWO);
    connect(&mut pool, THREE);
    let actions = pool.send_ev(event(7));
    assert_eq!(
        describe(&actions),
        vec![format!("event 7 to {}", ONE), format!("event 7 to {}", THREE)]
    );
    let mut lonely = pool_with(&[ONE]);
    assert!(lonely.send_ev(event(7)).is_empty());
}
