use loquaz::event::decrypt;
use loquaz::keys::User;
use loquaz::message::RelayMessage;
use loquaz::nostr_service::{create_encrypted_direct_msg, create_event_msg, event_with_text};

const ALICE_SK: &str = "6b911fd37cdf5c81d4c0adb1ab7fa822ed253ab0ad9aa18d77257c88b29b718e";
const BOB_SK: &str = "7b911fd37cdf5c81d4c0adb1ab7fa822ed253ab0ad9aa18d77257c88b29b718e";
const NOTE: &str = r##"{"id":"cb8feca582979d91fe90455867b34dbf4d65e4b86e86b3c68c368ca9f9eef6f2","pubkey":"79be667ef9dcbbac55a06295ce870b07029bfcdb2dce28d959f2815b16f81798","created_at":1707409439,"kind":1,"tags":[["-"]],"content":"hello members of the secret group","sig":"fa163f5cfb75d77d9b6269011872ee22b34fb48d23251e9879bb1e4ccbdd8aaaf4b6dc5f5084a65ef42c52fbcde8f3178bac3ba207de827ec513a6aa39fa684c"}"##;

#[test]
fn an_event_is_written_for_publishing() {
    let event = match RelayMessage::from_json(&format!("[\"EVENT\",\"s\",{}]", NOTE)) {
        Some(RelayMessage::Event(event)) => event,
        _ => panic!("the note is an event"),
    };
    assert_eq!(create_event_msg(&event), Some(format!("[\"EVENT\",{}]", NOTE)));
}

#[test]
fn a_direct_message_is_built_from_keys_as_text() {
    let bob = User::parse(BOB_SK).unwrap();
    let alice = User::parse(ALICE_SK).unwrap();
    let (text, event) =
        create_encrypted_direct_msg(ALICE_SK, &bob.get_pk().to_hex(), "hi bob").expect("built");
    assert!(text.starts_with("[\"EVENT\",{"));
    assert!(text.contains(&event.content));
    assert!(text.contains(&bob.get_pk().to_hex()));
    assert_eq!(create_event_msg(&event), Some(text));
    assert!(event.verify());
    assert!(event.pubkey == alice.get_pk());
    assert_eq!(event.kind, 4);
    assert_eq!(
        decrypt(&bob.get_sk(), &alice.get_pk(), &event.content).as_deref(),
        Some("hi bob")
    );
}

#[test]
fn bad_keys_give_no_direct_message() {
    let bob = User::parse(BOB_SK).unwrap().get_pk().to_hex();
    assert!(create_encrypted_direct_msg("nonsense", &bob, "hi").is_none());
    assert!(create_encrypted_direct_msg(ALICE_SK, "nonsense", "hi").is_none());
    assert!(create_encrypted_direct_msg("", "", "").is_none());
}

#[test]
fn an_event_comes_with_its_wire_text() {
    let event = match RelayMessage::from_json(&format!("[\"EVENT\",\"s\",{}]", NOTE)) {
        Some(RelayMessage::Event(event)) => event,
        _ => panic!("the note is an event"),
    };
    let (text, same) = event_with_text(event.clone()).expect("a note has a wire text");
    assert_eq!(text, format!("[\"EVENT\",{}]", NOTE));
    assert!(same.id == event.id);
    assert_eq!(same.content, event.content);
    let mut broken = event;
    broken.tags.push(Vec::new());
    assert!(event_with_text(broken).is_none());
}

#[test]
fn a_direct_message_from_text_is_written_by_the_sender_and_tagged_with_the_receiver() {
    let alice = User::parse(ALICE_SK).unwrap();
    let bob = User::parse(BOB_SK).unwrap();
    let (_, event) =
        create_encrypted_direct_msg(ALICE_SK, &bob.get_pk().to_hex(), "hi").expect("built");
    assert!(event.pubkey == alice.get_pk());
    assert_eq!(event.tags, vec![vec![String::from("p"), bob.get_pk().to_hex()]]);
    assert!(event.tagged_key().unwrap() == bob.get_pk());
}
