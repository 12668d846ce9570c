use loquaz::event::{Event, EventId};
use loquaz::keys::PublicKey;
use loquaz::message::{ClientMessage, RelayMessage};
use loquaz::subscription::Filter;

const A: &str = "aa4fc8665f5696e33db7e1a572e3b0f5b3d615837b0f362dcb1c8068b098c7b4";
const B: &str = "79be667ef9dcbbac55a06295ce870b07029bfcdb2dce28d959f2815b16f81798";
const NOTE: &str = r##"{"id":"cb8feca582979d91fe90455867b34dbf4d65e4b86e86b3c68c368ca9f9eef6f2","pubkey":"79be667ef9dcbbac55a06295ce870b07029bfcdb2dce28d959f2815b16f81798","created_at":1707409439,"kind":1,"tags":[["-"]],"content":"hello members of the secret group","sig":"fa163f5cfb75d77d9b6269011872ee22b34fb48d23251e9879bb1e4ccbdd8aaaf4b6dc5f5084a65ef42c52fbcde8f3178bac3ba207de827ec513a6aa39fa684c"}"##;

fn key(hex: &str) -> PublicKey {
    PublicKey::parse(hex).unwrap()
}

#[test]
fn a_close_message_is_written_as_a_pair() {
    let text = ClientMessage::Close(String::from("abc")).to_json();
    assert_eq!(text.as_deref(), Some(r#"["CLOSE","abc"]"#));
}

#[test]
fn a_request_carries_its_channel_and_every_filter() {
    let filters = vec![
        Filter { authors: vec![key(A)], kind: 4, pubkey: key(B) },
        Filter { authors: vec![key(B)], kind: 4, pubkey: key(A) },
    ];
    let message = ClientMessage::Req { subscription_id: String::from("chan"), filters };
    let expected = format!(
        r##"["REQ","chan",{{"authors":["{a}"],"kinds":[4],"#p":["{b}"]}},{{"authors":["{b}"],"kinds":[4],"#p":["{a}"]}}]"##,
        a = A,
        b = B
    );
    assert_eq!(message.to_json(), Some(expected));
}

#[test]
fn a_request_lists_all_authors() {
    let filters = vec![Filter { authors: vec![key(A), key(B)], kind: 4, pubkey: key(B) }];
    let message = ClientMessage::Req { subscription_id: String::from("x"), filters };
    let expected = format!(
        r##"["REQ","x",{{"authors":["{b}","{a}"],"kinds":[4],"#p":["{b}"]}}]"##,
        a = A,
        b = B
    );
    assert_eq!(message.to_json(), Some(expected));
}

#[test]
fn a_request_without_authors_says_so() {
    let filters = vec![Filter { authors: vec![], kind: 4, pubkey: key(A) }];
    let message = ClientMessage::Req { subscription_id: String::from("x"), filters };
    let expected = format!(r##"["REQ","x",{{"authors":[],"kinds":[4],"#p":["{a}"]}}]"##, a = A);
    assert_eq!(message.to_json(), Some(expected));
}

#[test]
fn an_event_message_is_written_with_all_fields() {
    let event = match RelayMessage::from_json(&format!("[\"EVENT\",\"s\",{}]", NOTE)) {
        Some(RelayMessage::Event(event)) => event,
        _ => panic!("the note is an event"),
    };
    let text = ClientMessage::Event(event).to_json();
    assert_eq!(text, Some(format!("[\"EVENT\",{}]", NOTE)));
}

#[test]
fn an_event_with_an_empty_tag_has_no_text() {
    let event = Event::new(
        EventId { bytes: [1u8; 32] },
        key(A),
        1,
        1,
        vec![vec![]],
        String::new(),
        [0u8; 64],
    );
    assert_eq!(ClientMessage::Event(event).to_json(), None);
}

#[test]
fn a_copy_of_a_message_is_written_alike() {
    let filters = vec![Filter { authors: vec![key(A)], kind: 4, pubkey: key(B) }];
    let message = ClientMessage::Req { subscription_id: String::from("chan"), filters };
    assert_eq!(message.clone().to_json(), message.to_json());
    let close = ClientMessage::Close(String::from("chan"));
    assert_eq!(close.clone().to_json(), close.to_json());
}

#[test]
fn an_event_frame_is_read_with_all_fields() {
    let event = match RelayMessage::from_json(&format!("[\"EVENT\",\"s\",{}]", NOTE)) {
        Some(RelayMessage::Event(event)) => event,
        _ => panic!("the note is an event"),
    };
    assert_eq!(
        event.id.bytes[..4],
        [0xcb, 0x8f, 0xec, 0xa5]
    );
    assert_eq!(event.pubkey.to_hex(), B);
    assert_eq!(event.created_at, 1707409439);
    assert_eq!(event.kind, 1);
    assert_eq!(event.tags, vec![vec![String::from("-")]]);
    assert_eq!(event.content, "hello members of the secret group");
    assert_eq!(event.sig[..2], [0xfa, 0x16]);
    assert_eq!(event.sig[63], 0x4c);
}

#[test]
fn other_frames_are_read_as_other() {
    assert!(matches!(
        RelayMessage::from_json(r#"["NOTICE","slow down"]"#),
        Some(RelayMessage::Other)
    ));
    assert!(matches!(RelayMessage::from_json(r#"["EOSE","chan"]"#), Some(RelayMessage::Other)));
    assert!(matches!(
        RelayMessage::from_json(
            r#"["OK","cb8feca582979d91fe90455867b34dbf4d65e4b86e86b3c68c368ca9f9eef6f2",true,""]"#
        ),
        Some(RelayMessage::Other)
    ));
}

#[test]
fn text_that_is_no_frame_is_refused() {
    assert!(RelayMessage::from_json("").is_none());
    assert!(RelayMessage::from_json("hello").is_none());
    assert!(RelayMessage::from_json(r#"{"EVENT":1}"#).is_none());
    assert!(RelayMessage::from_json(r#"["EVENT","s",{"id":"00"}]"#).is_none());
    assert!(RelayMessage::from_json(r#"["UNHEARD","of"]"#).is_none());
}
