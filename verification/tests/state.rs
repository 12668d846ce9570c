use loquaz::config::{Config, Contact};
use loquaz::conversations::{Conversation, Message, MessageSource};
use loquaz::core_task::CoreTaskHandle;
use loquaz::event::{Event, EventId};
use loquaz::keys::{PublicKey, User};
use loquaz::state::{
    load_config, ChatMsg, ConfigState, ContactState, ConversationState, MessageSourceState,
    MessageState, Msg, NewMessage, Route, UserState,
};

const ONE: &str = "0000000000000000000000000000000000000000000000000000000000000001";
const GENERATOR: &str = "79be667ef9dcbbac55a06295ce870b07029bfcdb2dce28d959f2815b16f81798";

fn message(source: MessageSource, text: &str, at: u64) -> Message {
    let event = Event::new(
        EventId { bytes: [at as u8; 32] },
        PublicKey::from_bytes([9u8; 32]),
        at,
        4,
        vec![],
        String::new(),
        [0u8; 64],
    );
    Message::new(source, text, event)
}

#[test]
fn the_route_goes_where_it_is_sent() {
    let mut route = Route::Settings;
    route.goto(Route::Chat);
    assert_eq!(route, Route::Chat);
    route.goto(Route::Contacts);
    assert_eq!(route, Route::Contacts);
    route.goto(Route::Contacts);
    assert_eq!(route, Route::Contacts);
}

#[test]
fn the_user_is_shown_by_the_hex_of_its_keys() {
    let mut user = User::new();
    user.import_sk(ONE);
    let state = UserState::from_entity(&user);
    assert_eq!(state.sk, ONE);
    assert_eq!(state.pk, GENERATOR);
    let state = UserState::new("secret", "public");
    assert_eq!(state.sk, "secret");
    assert_eq!(state.pk, "public");
}

#[test]
fn a_contact_is_shown_by_name_and_hex() {
    let contact = Contact::new("alice", PublicKey::parse(GENERATOR).unwrap());
    let state = ContactState::from_entity(&contact);
    assert_eq!(state.alias, "alice");
    assert_eq!(state.pk, GENERATOR);
    let state = ContactState::new("bob", "key");
    assert_eq!(state.alias, "bob");
    assert_eq!(state.pk, "key");
    let copy = state.clone();
    assert_eq!(copy.alias, "bob");
    assert_eq!(copy.pk, "key");
}

#[test]
fn the_configuration_is_shown_in_the_core_order() {
    let config = Config::new(
        vec![
            Contact::new("alice", PublicKey::parse(GENERATOR).unwrap()),
            Contact::new("bob", PublicKey::from_bytes([0xab; 32])),
        ],
        vec![String::from("wss://one.example"), String::from("wss://two.example")],
    );
    let core = CoreTaskHandle::new(config);
    let state = load_config(&core);
    assert_eq!(state.relays_url, vec!["wss://one.example", "wss://two.example"]);
    assert_eq!(state.contacts.len(), 2);
    assert_eq!(state.contacts[0].alias, "alice");
    assert_eq!(state.contacts[0].pk, GENERATOR);
    assert_eq!(state.contacts[1].alias, "bob");
    assert_eq!(state.contacts[1].pk, "ab".repeat(32));
    let empty = ConfigState::new();
    assert!(empty.contacts.is_empty());
    assert!(empty.relays_url.is_empty());
}

#[test]
fn a_message_is_shown_with_its_source_and_text() {
    let state = MessageState::from_entity(&message(MessageSource::Them, "hello", 1));
    assert_eq!(state.source, MessageSourceState::Them);
    assert_eq!(state.content, "hello");
    let state = MessageState::from_entity(&message(MessageSource::Me, "hi", 1));
    assert_eq!(state.source, MessageSourceState::Me);
    let state = MessageState::new(MessageSourceState::Me, "typed");
    assert_eq!(state.source, MessageSourceState::Me);
    assert_eq!(state.content, "typed");
    assert_eq!(state.clone().content, "typed");
}

#[test]
fn a_conversation_is_shown_with_its_messages_in_order() {
    let contact = Contact::new("alice", PublicKey::parse(GENERATOR).unwrap());
    let mut conv = Conversation::new(contact);
    conv.add_message_at(message(MessageSource::Them, "second", 2), 0);
    conv.add_message_at(message(MessageSource::Me, "first", 1), 0);
    let state = ConversationState::from_entity(&conv);
    assert_eq!(state.contact.alias, "alice");
    assert_eq!(state.contact.pk, GENERATOR);
    assert_eq!(state.new_message, "");
    let shown: Vec<(MessageSourceState, String)> =
        state.messages.iter().map(|m| (m.source, m.content.clone())).collect();
    assert_eq!(
        shown,
        vec![
            (MessageSourceState::Me, "first".to_string()),
            (MessageSourceState::Them, "second".to_string())
        ]
    );
}

#[test]
fn a_shown_message_is_put_in_front() {
    let mut state = ConversationState::new(
        ContactState::new("alice", "key"),
        vec![MessageState::new(MessageSourceState::Me, "old")],
    );
    assert_eq!(state.new_message, "");
    state.push_msg(&MessageState::new(MessageSourceState::Them, "new"));
    let shown: Vec<String> = state.messages.iter().map(|m| m.content.clone()).collect();
    assert_eq!(shown, vec!["new", "old"]);
}

#[test]
fn texts_on_their_way_keep_their_parts() {
    let new = NewMessage::new("key", "text");
    assert_eq!(new.pk, "key");
    assert_eq!(new.content, "text");
    let chat = ChatMsg::new("receiver", "text");
    assert_eq!(chat.receiver_pk, "receiver");
    assert_eq!(chat.content, "text");
    let msg = Msg::new("source", "text");
    assert_eq!(msg.source, "source");
    assert_eq!(msg.content, "text");
}
