//! What a user interface shows: the core's values as text, ready to be
//! displayed, and the values that the interface sends back.

use vstd::prelude::*;
use crate::config::{Contact, ContactView};
use crate::conversations::{Conversation, Message, MessageSource, MessageView};
use crate::core_task::CoreTaskHandle;
use crate::keys::{hex_lower, User};
use crate::lists::texts;

verus! {

/// The page that the interface shows.
#[derive(Clone, Copy, Debug, PartialEq, Eq, Structural)]
pub enum Route {
    Chat,
    Contacts,
    Settings,
}

impl Route {
    /// Goes to another page.
    pub fn goto(&mut self, route: Route)
        ensures
            *final(self) == route,
    {
        *self = route
    }
}

/// The user's keys as text.
#[derive(Debug)]
pub struct UserState {
    pub sk: String,
    pub pk: String,
}

/// Two texts.
pub struct TextPair {
    pub first: Seq<char>,
    pub second: Seq<char>,
}

impl View for UserState {
    type V = TextPair;

    open spec fn view(&self) -> TextPair {
        TextPair { first: self.sk@, second: self.pk@ }
    }
}

impl UserState {
    pub fn new(sk: &str, pk: &str) -> (state: UserState)
        ensures
            state@ == (TextPair { first: sk@, second: pk@ }),
    {
        UserState { sk: sk.to_owned(), pk: pk.to_owned() }
    }

    /// The keys of an identity, in hexadecimal.
    pub fn from_entity(user: &User) -> (state: UserState)
        ensures
            state@ == (TextPair {
                first: hex_lower(user@.secret_key),
                second: hex_lower(user@.public_key),
            }),
    {
        UserState { sk: user.get_sk().to_hex(), pk: user.get_pk().to_hex() }
    }
}

/// A contact as text: its name and its key.
#[derive(Debug)]
pub struct ContactState {
    pub alias: String,
    pub pk: String,
}

impl View for ContactState {
    type V = TextPair;

    open spec fn view(&self) -> TextPair {
        TextPair { first: self.alias@, second: self.pk@ }
    }
}

/// A contact as shown: its name and its key in hexadecimal.
pub open spec fn shown_contact(contact: ContactView) -> TextPair {
    TextPair { first: contact.alias, second: hex_lower(contact.pk) }
}

impl Clone for ContactState {
    fn clone(&self) -> (copy: Self)
        ensures
            copy@ == self@,
    {
        ContactState { alias: self.alias.clone(), pk: self.pk.clone() }
    }
}

impl ContactState {
    pub fn new(alias: &str, pk: &str) -> (state: ContactState)
        ensures
            state@ == (TextPair { first: alias@, second: pk@ }),
    {
        ContactState { alias: alias.to_owned(), pk: pk.to_owned() }
    }

    /// A contact as it is shown.
    pub fn from_entity(contact: &Contact) -> (state: ContactState)
        ensures
            state@ == shown_contact(contact@),
    {
        ContactState { alias: contact.alias.clone(), pk: contact.pk.to_hex() }
    }
}

/// The views of a list of shown contacts.
pub open spec fn contact_states_view(list: Seq<ContactState>) -> Seq<TextPair> {
    list.map_values(|c: ContactState| c@)
}

/// The configuration as shown, as mathematical values.
pub struct ConfigStateView {
    pub contacts: Seq<TextPair>,
    pub relays_url: Seq<Seq<char>>,
}

/// The configuration as shown.
#[derive(Debug)]
pub struct ConfigState {
    pub contacts: Vec<ContactState>,
    pub relays_url: Vec<String>,
}

impl View for ConfigState {
    type V = ConfigStateView;

    open spec fn view(&self) -> ConfigStateView {
        ConfigStateView {
            contacts: contact_states_view(self.contacts@),
            relays_url: texts(self.relays_url@),
        }
    }
}

impl ConfigState {
    /// Nothing to show.
    pub fn new() -> (state: ConfigState)
        ensures
            state@.contacts == Seq::<TextPair>::empty(),
            state@.relays_url == Seq::<Seq<char>>::empty(),
    {
        ConfigState { contacts: Vec::new(), relays_url: Vec::new() }
    }
}

/// The configuration of the core as it is shown: the relay addresses, and
/// the contacts with their keys in hexadecimal, in the core's order.
pub fn load_config(core: &CoreTaskHandle) -> (state: ConfigState)
    ensures
        state@.relays_url == core@.config.relays_url,
        state@.contacts == core@.config.contacts.map_values(|c: ContactView| shown_contact(c)),
{
    let (relays_url, contacts) = core.get_config();
    let mut shown: Vec<ContactState> = Vec::new();
    let mut i: usize = 0;
    while i < contacts.len()
        invariant
            i <= contacts.len(),
            shown@.len() == i,
            forall|j: int| 0 <= j < i ==> shown@[j]@ == shown_contact(contacts@[j]@),
        decreases contacts.len() - i,
    {
        shown.push(ContactState::from_entity(&contacts[i]));
        i += 1;
    }
    ConfigState { contacts: shown, relays_url }
}

/// Who wrote a shown message.
#[derive(Clone, Copy, Debug, PartialEq, Eq, Structural)]
pub enum MessageSourceState {
    Me,
    Them,
}

/// A shown message as mathematical values.
pub struct MessageStateView {
    pub source: MessageSourceState,
    pub content: Seq<char>,
}

/// A message as shown: who wrote it and its text.
#[derive(Debug)]
pub struct MessageState {
    pub source: MessageSourceState,
    pub content: String,
}

impl View for MessageState {
    type V = MessageStateView;

    open spec fn view(&self) -> MessageStateView {
        MessageStateView { source: self.source, content: self.content@ }
    }
}

impl Clone for MessageState {
    fn clone(&self) -> (copy: Self)
        ensures
            copy@ == self@,
    {
        MessageState { source: self.source, content: self.content.clone() }
    }
}

/// A message as it is shown.
pub open spec fn shown_message(message: MessageView) -> MessageStateView {
    MessageStateView {
        source: match message.source {
            MessageSource::Me => MessageSourceState::Me,
            MessageSource::Them => MessageSourceState::Them,
        },
        content: message.content,
    }
}

impl MessageState {
    pub fn new(source: MessageSourceState, content: &str) -> (state: MessageState)
        ensures
            state@ == (MessageStateView { source, content: content@ }),
    {
        MessageState { source, content: content.to_owned() }
    }

    /// A message as it is shown.
    pub fn from_entity(message: &Message) -> (state: MessageState)
        ensures
            state@ == shown_message(message@),
    {
        MessageState {
            source: match message.source {
                MessageSource::Me => MessageSourceState::Me,
                MessageSource::Them => MessageSourceState::Them,
            },
            content: message.content.clone(),
        }
    }
}

/// The views of a list of shown messages.
pub open spec fn message_states_view(list: Seq<MessageState>) -> Seq<MessageStateView> {
    list.map_values(|m: MessageState| m@)
}

/// A shown conversation as mathematical values.
pub struct ConversationStateView {
    pub contact: TextPair,
    pub messages: Seq<MessageStateView>,
    pub new_message: Seq<char>,
}

/// A conversation as shown: the contact, the messages, and the text that
/// the user is writing.
#[derive(Debug)]
pub struct ConversationState {
    pub contact: ContactState,
    pub messages: Vec<MessageState>,
    pub new_message: String,
}

impl View for ConversationState {
    type V = ConversationStateView;

    open spec fn view(&self) -> ConversationStateView {
        ConversationStateView {
            contact: self.contact@,
            messages: message_states_view(self.messages@),
            new_message: self.new_message@,
        }
    }
}

impl ConversationState {
    pub fn new(contact: ContactState, messages: Vec<MessageState>) -> (state: ConversationState)
        ensures
            state@ == (ConversationStateView {
                contact: contact@,
                messages: message_states_view(messages@),
                new_message: Seq::empty(),
            }),
    {
        ConversationState { contact, messages, new_message: String::new() }
    }

    /// A conversation as it is shown: its messages in their order, and no
    /// text being written.
    pub fn from_entity(conv: &Conversation) -> (state: ConversationState)
        ensures
            state@ == (ConversationStateView {
                contact: shown_contact(conv@.contact),
                messages: conv@.messages.map_values(|m: MessageView| shown_message(m)),
                new_message: Seq::empty(),
            }),
    {
        let messages = conv.messages();
        let mut shown: Vec<MessageState> = Vec::new();
        let mut i: usize = 0;
        while i < messages.len()
            invariant
                i <= messages.len(),
                shown@.len() == i,
                forall|j: int| 0 <= j < i ==> shown@[j]@ == shown_message(messages@[j]@),
            decreases messages.len() - i,
        {
            shown.push(MessageState::from_entity(&messages[i]));
            i += 1;
        }
        let state = ConversationState {
            contact: ContactState::from_entity(conv.contact()),
            messages: shown,
            new_message: String::new(),
        };
        assert(state@.messages =~= conv@.messages.map_values(|m: MessageView| shown_message(m)));
        state
    }

    /// Puts a message in front of the shown messages.
    pub fn push_msg(&mut self, msg: &MessageState)
        ensures
            final(self)@ == (ConversationStateView {
                messages: seq![msg@] + old(self)@.messages,
                ..old(self)@
            }),
    {
        let ghost before = self@.messages;
        self.messages.insert(0, msg.clone());
        assert(self@.messages =~= seq![msg@] + before);
    }
}

/// What the user wants to send: the recipient's key and the text.
#[derive(Debug)]
pub struct NewMessage {
    pub pk: String,
    pub content: String,
}

impl View for NewMessage {
    type V = TextPair;

    open spec fn view(&self) -> TextPair {
        TextPair { first: self.pk@, second: self.content@ }
    }
}

impl NewMessage {
    pub fn new(pk: &str, content: &str) -> (message: NewMessage)
        ensures
            message@ == (TextPair { first: pk@, second: content@ }),
    {
        NewMessage { pk: pk.to_owned(), content: content.to_owned() }
    }
}

/// A text on its way to a recipient.
#[derive(Debug)]
pub struct ChatMsg {
    pub receiver_pk: String,
    pub content: String,
}

impl View for ChatMsg {
    type V = TextPair;

    open spec fn view(&self) -> TextPair {
        TextPair { first: self.receiver_pk@, second: self.content@ }
    }
}

impl ChatMsg {
    pub fn new(receiver_pk: &str, content: &str) -> (message: ChatMsg)
        ensures
            message@ == (TextPair { first: receiver_pk@, second: content@ }),
    {
        ChatMsg { receiver_pk: receiver_pk.to_owned(), content: content.to_owned() }
    }
}

/// A text with the key of the one who wrote it.
#[derive(Debug)]
pub struct Msg {
    pub source: String,
    pub content: String,
}

impl View for Msg {
    type V = TextPair;

    open spec fn view(&self) -> TextPair {
        TextPair { first: self.source@, second: self.content@ }
    }
}

impl Msg {
    pub fn new(source: &str, content: &str) -> (message: Msg)
        ensures
            message@ == (TextPair { first: source@, second: content@ }),
    {
        Msg { source: source.to_owned(), content: content.to_owned() }
    }
}

} // verus!
