use loquaz::message::ClientMessage;
use loquaz::relay::{is_relay_url, Relay, RelayStatus};

#[test]
fn web_socket_addresses_are_relay_addresses() {
    assert!(is_relay_url("ws://relay.example"));
    assert!(is_relay_url("wss://relay.example"));
    assert!(is_relay_url("wss://relay.example:7777/path?x=1"));
    assert!(is_relay_url("WSS://RELAY.EXAMPLE"));
}

#[test]
fn other_text_is_no_relay_address() {
    assert!(!is_relay_url(""));
    assert!(!is_relay_url("relay.example"));
    assert!(!is_relay_url("https://relay.example"));
    assert!(!is_relay_url("http://relay.example"));
    assert!(!is_relay_url("wss"));
    assert!(!is_relay_url("wsss://relay.example"));
}

#[test]
fn a_new_relay_is_disconnected() {
    let relay = Relay::new("wss://relay.example");
    assert_eq!(relay.url, "wss://relay.example");
    assert_eq!(relay.status, RelayStatus::Disconnected);
}

#[test]
fn a_session_goes_through_the_handshake() {
    let mut relay = Relay::new("wss://relay.example");
    assert!(relay.connect());
    assert_eq!(relay.status, RelayStatus::Connecting);
    assert!(!relay.connect());
    assert_eq!(relay.status, RelayStatus::Connecting);
    assert!(relay.handshake_done(true));
    assert_eq!(relay.status, RelayStatus::Connected);
    assert!(!relay.connect());
    assert!(!relay.handshake_done(true));
    assert_eq!(relay.status, RelayStatus::Connected);
}

#[test]
fn a_failed_handshake_leaves_the_relay_disconnected() {
    let mut relay = Relay::new("wss://relay.example");
    relay.connect();
    assert!(!relay.handshake_done(false));
    assert_eq!(relay.status, RelayStatus::Disconnected);
    assert!(relay.connect());
}

#[test]
fn disconnecting_twice_is_disconnecting_once() {
    let mut relay = Relay::new("wss://relay.example");
    relay.connect();
    relay.handshake_done(true);
    assert!(relay.disconnect());
    assert_eq!(relay.status, RelayStatus::Disconnected);
    assert!(!relay.disconnect());
    assert_eq!(relay.status, RelayStatus::Disconnected);
}

#[test]
fn a_message_is_queued_only_for_a_connected_relay() {
    let mut relay = Relay::new("wss://relay.example");
    assert!(relay.send_msg(ClientMessage::Close(String::from("a"))).is_none());
    relay.connect();
    assert!(relay.send_msg(ClientMessage::Close(String::from("a"))).is_none());
    relay.handshake_done(true);
    match relay.send_msg(ClientMessage::Close(String::from("a"))) {
        Some(ClientMessage::Close(id)) => assert_eq!(id, "a"),
        _ => panic!("the message is queued"),
    }
    relay.disconnect();
    assert!(relay.send_msg(ClientMessage::Close(String::from("a"))).is_none());
}
