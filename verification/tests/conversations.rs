use loquaz::config::Contact;
use loquaz::conversations::{
    Conversation, Conversations, ConversationsError, ConvsNotifications, Message, MessageSource,
};
use loquaz::event::{Event, EventId};
use loquaz::keys::{PublicKey, User};
use loquaz::message::RelayMessage;
use nostr::event::FinalizeEvent;

const ME_SK: &str = "6b911fd37cdf5c81d4c0adb1ab7fa822ed253ab0ad9aa18d77257c88b29b718e";
const ALICE_SK: &str = "7b911fd37cdf5c81d4c0adb1ab7fa822ed253ab0ad9aa18d77257c88b29b718e";
const BOB_SK: &str = "8b911fd37cdf5c81d4c0adb1ab7fa822ed253ab0ad9aa18d77257c88b29b718e";

fn user(sk: &str) -> User {
    let mut user = User::new();
    user.import_sk(sk);
    user
}

fn key_of(sk: &str) -> PublicKey {
    user(sk).get_pk()
}

fn signed(from: &str, tags: Vec<nostr::event::Tag>, content: &str, at: u64) -> Event {
    let keys = nostr::key::Keys::parse(from).unwrap();
    let event = nostr::event::EventBuilder::new(nostr::event::Kind::EncryptedDirectMessage, content)
        .tags(tags)
        .custom_created_at(nostr::types::Timestamp::from_secs(at))
        .finalize(&keys)
        .unwrap();
    match RelayMessage::from_json(&format!("[\"EVENT\",\"s\",{}]", event.as_json())) {
        Some(RelayMessage::Event(event)) => event,
        _ => panic!("a signed event is an event"),
    }
}

fn message_at(from: &str, to: &str, text: &str, at: u64) -> Event {
    let keys = nostr::key::Keys::parse(from).unwrap();
    let peer = nostr::key::PublicKey::from_byte_array(key_of(to).to_bytes());
    let content = nostr::nips::nip04::encrypt(keys.secret_key(), &peer, text).unwrap();
    signed(from, vec![nostr::event::Tag::public_key(peer)], &content, at)
}

fn with_contacts(sks: &[&str]) -> Conversations {
    let mut conversations = Conversations::new();
    for (i, sk) in sks.iter().enumerate() {
        conversations.add_conv(Conversation::new(Contact::new(&format!("c{}", i), key_of(sk))));
    }
    conversations
}

fn texts(conversations: &Conversations, sk: &str) -> Vec<String> {
    let conv = conversations.get_conv(&key_of(sk)).expect("a conversation");
    conv.messages().iter().map(|m| m.content.clone()).collect()
}

fn times(conversations: &Conversations, sk: &str) -> Vec<u64> {
    let conv = conversations.get_conv(&key_of(sk)).expect("a conversation");
    conv.messages().iter().map(|m| m.ev.created_at).collect()
}

fn plain(at: u64, id: u8, source: MessageSource) -> Message {
    let event = Event::new(
        EventId { bytes: [id; 32] },
        PublicKey::from_bytes([9u8; 32]),
        at,
        4,
        vec![],
        String::new(),
        [0u8; 64],
    );
    Message::new(source, &format!("{}/{}", at, id), event)
}

#[test]
fn messages_that_arrive_out_of_order_are_shown_in_order() {
    let mut conversations = with_contacts(&[ALICE_SK]);
    let me = user(ME_SK);
    for at in [3u64, 1, 2] {
        let event = message_at(ALICE_SK, ME_SK, &format!("at {}", at), at);
        assert!(conversations.try_add_message_from_ev(event, &me).is_ok());
    }
    assert_eq!(times(&conversations, ALICE_SK), vec![1, 2, 3]);
    assert_eq!(texts(&conversations, ALICE_SK), vec!["at 1", "at 2", "at 3"]);
}

#[test]
fn messages_of_one_time_are_shown_by_identifier() {
    let mut conv = Conversation::new(Contact::new("alice", key_of(ALICE_SK)));
    for (at, id) in [(5u64, 3u8), (5, 1), (4, 9), (5, 2), (6, 0)] {
        conv.add_message_at(plain(at, id, MessageSource::Me), 0);
    }
    let shown: Vec<String> = conv.messages().iter().map(|m| m.content.clone()).collect();
    assert_eq!(shown, vec!["4/9", "5/1", "5/2", "5/3", "6/0"]);
}

#[test]
fn a_message_from_the_contact_goes_to_its_conversation() {
    let mut conversations = with_contacts(&[ALICE_SK, BOB_SK]);
    let me = user(ME_SK);
    let event = message_at(BOB_SK, ME_SK, "hello", 100);
    let id = event.id;
    match conversations.try_add_message_from_ev_at(event, &me, 1000) {
        Ok(ConvsNotifications::NewMessage { peer, message, alert }) => {
            assert!(peer == key_of(BOB_SK));
            assert_eq!(message.source, MessageSource::Them);
            assert_eq!(message.content, "hello");
            assert!(message.ev.id == id);
            assert!(!alert);
        }
        Err(e) => panic!("refused: {:?}", e),
    }
    assert_eq!(texts(&conversations, BOB_SK), vec!["hello"]);
    assert!(texts(&conversations, ALICE_SK).is_empty());
}

#[test]
fn a_message_of_the_user_goes_to_the_conversation_with_the_tagged_key() {
    let mut conversations = with_contacts(&[ALICE_SK, BOB_SK]);
    let me = user(ME_SK);
    let event = message_at(ME_SK, ALICE_SK, "to alice", 100);
    match conversations.try_add_message_from_ev_at(event, &me, 100) {
        Ok(ConvsNotifications::NewMessage { peer, message, alert }) => {
            assert!(peer == key_of(ALICE_SK));
            assert_eq!(message.source, MessageSource::Me);
            assert_eq!(message.content, "to alice");
            assert!(!alert);
        }
        Err(e) => panic!("refused: {:?}", e),
    }
    assert_eq!(texts(&conversations, ALICE_SK), vec!["to alice"]);
    assert!(texts(&conversations, BOB_SK).is_empty());
}

#[test]
fn an_event_of_the_user_without_a_peer_tag_is_malformed() {
    let mut conversations = with_contacts(&[ALICE_SK]);
    let me = user(ME_SK);
    let event = signed(ME_SK, vec![], "whatever", 1);
    let result = conversations.try_add_message_from_ev(event, &me);
    assert!(matches!(result, Err(ConversationsError::MalformedEvent)));
    assert!(texts(&conversations, ALICE_SK).is_empty());
}

#[test]
fn an_event_that_does_not_decrypt_is_refused() {
    let mut conversations = with_contacts(&[ALICE_SK]);
    let me = user(ME_SK);
    let event = signed(ALICE_SK, vec![], "not encrypted", 1);
    let result = conversations.try_add_message_from_ev(event, &me);
    assert!(matches!(result, Err(ConversationsError::DecryptionFailed)));
    let for_bob = message_at(ALICE_SK, BOB_SK, "for bob", 1);
    let result = conversations.try_add_message_from_ev(for_bob, &me);
    assert!(matches!(result, Err(ConversationsError::DecryptionFailed)));
    assert!(texts(&conversations, ALICE_SK).is_empty());
}

#[test]
fn a_message_from_a_stranger_is_refused() {
    let mut conversations = with_contacts(&[ALICE_SK]);
    let me = user(ME_SK);
    let event = message_at(BOB_SK, ME_SK, "psst", 1);
    let result = conversations.try_add_message_from_ev(event, &me);
    assert!(matches!(result, Err(ConversationsError::UnknownConversation)));
    let event = message_at(ME_SK, BOB_SK, "to a stranger", 1);
    let result = conversations.try_add_message_from_ev(event, &me);
    assert!(matches!(result, Err(ConversationsError::UnknownConversation)));
    assert!(texts(&conversations, ALICE_SK).is_empty());
    assert_eq!(conversations.list_convs().len(), 1);
    assert!(conversations.get_conv(&key_of(BOB_SK)).is_none());
}

#[test]
fn decryption_is_tried_before_the_contact_is_looked_up() {
    let mut conversations = with_contacts(&[ALICE_SK]);
    let me = user(ME_SK);
    let event = signed(BOB_SK, vec![], "not encrypted", 1);
    let result = conversations.try_add_message_from_ev(event, &me);
    assert!(matches!(result, Err(ConversationsError::DecryptionFailed)));
}

#[test]
fn only_a_recent_message_of_the_contact_is_worth_an_alert() {
    assert!(plain(941, 1, MessageSource::Them).alert_due(1000));
    assert!(!plain(940, 1, MessageSource::Them).alert_due(1000));
    assert!(!plain(0, 1, MessageSource::Them).alert_due(60));
    assert!(plain(1, 1, MessageSource::Them).alert_due(60));
    assert!(plain(0, 1, MessageSource::Them).alert_due(59));
    assert!(plain(0, 1, MessageSource::Them).alert_due(-5));
    assert!(plain(2000, 1, MessageSource::Them).alert_due(1000));
    assert!(plain(u64::MAX, 1, MessageSource::Them).alert_due(i64::MAX));
    assert!(!plain(9223372036854775747, 1, MessageSource::Them).alert_due(i64::MAX));
    assert!(plain(9223372036854775748, 1, MessageSource::Them).alert_due(i64::MAX));
    assert!(!plain(999, 1, MessageSource::Me).alert_due(1000));
    assert!(!plain(0, 1, MessageSource::Me).alert_due(0));
}

#[test]
fn a_fresh_message_of_the_contact_alerts() {
    let mut conversations = with_contacts(&[ALICE_SK]);
    let me = user(ME_SK);
    let event = message_at(ALICE_SK, ME_SK, "now", 1000);
    match conversations.try_add_message_from_ev_at(event, &me, 1030) {
        Ok(ConvsNotifications::NewMessage { alert, .. }) => assert!(alert),
        Err(e) => panic!("refused: {:?}", e),
    }
    let event = message_at(ALICE_SK, ME_SK, "long ago", 1000);
    match conversations.try_add_message_from_ev_at(event, &me, 1060) {
        Ok(ConvsNotifications::NewMessage { alert, .. }) => assert!(!alert),
        Err(e) => panic!("refused: {:?}", e),
    }
    let mut conv = Conversation::new(Contact::new("alice", key_of(ALICE_SK)));
    assert!(!conv.add_message(plain(1, 1, MessageSource::Them)));
    assert!(!conv.add_message(plain(u64::MAX, 2, MessageSource::Me)));
    assert!(conv.add_message(plain(u64::MAX, 3, MessageSource::Them)));
}

#[test]
fn a_conversation_takes_the_place_of_the_one_with_the_same_contact() {
    let mut conversations = with_contacts(&[ALICE_SK, BOB_SK]);
    let me = user(ME_SK);
    let event = message_at(ALICE_SK, ME_SK, "hello", 1);
    conversations.try_add_message_from_ev(event, &me).unwrap();
    conversations.add_conv(Conversation::new(Contact::new("alicia", key_of(ALICE_SK))));
    let convs = conversations.list_convs();
    assert_eq!(convs.len(), 2);
    assert_eq!(convs[0].contact().alias, "alicia");
    assert!(convs[0].messages().is_empty());
    assert_eq!(convs[1].contact().alias, "c1");
}

#[test]
fn a_conversation_is_removed_by_its_key() {
    let mut conversations = with_contacts(&[ALICE_SK, BOB_SK]);
    conversations.remove_conv(&key_of(ALICE_SK));
    assert!(conversations.get_conv(&key_of(ALICE_SK)).is_none());
    assert_eq!(conversations.list_convs().len(), 1);
    conversations.remove_conv(&key_of(ALICE_SK));
    assert_eq!(conversations.list_convs().len(), 1);
    assert!(conversations.get_conv(&key_of(BOB_SK)).is_some());
}

#[test]
fn a_copy_of_a_conversation_holds_the_same_messages() {
    let mut conv = Conversation::new(Contact::new("alice", key_of(ALICE_SK)));
    conv.add_message_at(plain(2, 1, MessageSource::Me), 0);
    conv.add_message_at(plain(1, 1, MessageSource::Them), 0);
    let copy = conv.clone();
    assert_eq!(copy.contact().alias, "alice");
    let shown: Vec<String> = copy.messages().iter().map(|m| m.content.clone()).collect();
    assert_eq!(shown, vec!["1/1", "2/1"]);
    assert_eq!(copy.messages()[0].source, MessageSource::Them);
}
