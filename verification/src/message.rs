//! The messages that go to a relay and come from one, and their text on the
//! wire.

use nostr::event::{Kind, Signature, Tag};
use nostr::message::SubscriptionId;
use nostr::types::Timestamp;
use vstd::prelude::*;
use crate::event::{Event, EventId, EventView};
use crate::keys::PublicKey;
use crate::subscription::{clone_filters, filters_view, Filter, FilterView};

verus! {

/// A message to a relay, as mathematical values.
pub enum ClientMessageView {
    Event(EventView),
    Req { subscription_id: Seq<char>, filters: Seq<FilterView> },
    Close(Seq<char>),
}

/// A message to a relay: an event to publish, a request for the events that
/// match a filter set, or the cancelling of such a request.
#[derive(Debug)]
pub enum ClientMessage {
    Event(Event),
    Req { subscription_id: String, filters: Vec<Filter> },
    Close(String),
}

impl View for ClientMessage {
    type V = ClientMessageView;

    open spec fn view(&self) -> ClientMessageView {
        match self {
            ClientMessage::Event(event) => ClientMessageView::Event(event@),
            ClientMessage::Req { subscription_id, filters } => ClientMessageView::Req {
                subscription_id: subscription_id@,
                filters: filters_view(filters@),
            },
            ClientMessage::Close(subscription_id) => ClientMessageView::Close(subscription_id@),
        }
    }
}

impl Clone for ClientMessage {
    fn clone(&self) -> (copy: Self)
        ensures
            copy@ == self@,
    {
        match self {
            ClientMessage::Event(event) => ClientMessage::Event(event.clone()),
            ClientMessage::Req { subscription_id, filters } => ClientMessage::Req {
                subscription_id: subscription_id.clone(),
                filters: clone_filters(filters),
            },
            ClientMessage::Close(subscription_id) => ClientMessage::Close(subscription_id.clone()),
        }
    }
}

/// The text that the protocol library writes for a message to a relay, or
/// nothing where it cannot write it.
pub uninterp spec fn client_message_json(message: ClientMessageView) -> Option<Seq<char>>;

/// A message from a relay, as mathematical values.
pub enum RelayMessageView {
    Event(EventView),
    Other,
}

/// What the protocol library reads a relay's text as, or nothing where the
/// text is no message.
pub uninterp spec fn relay_message_read(text: Seq<char>) -> Option<RelayMessageView>;

/// A message from a relay. Only events are told apart, by what they carry:
/// notices, the end of stored events and every other kind of message are
/// `Other`.
#[derive(Debug)]
pub enum RelayMessage {
    Event(Event),
    Other,
}

impl View for RelayMessage {
    type V = RelayMessageView;

    open spec fn view(&self) -> RelayMessageView {
        match self {
            RelayMessage::Event(event) => RelayMessageView::Event(event@),
            RelayMessage::Other => RelayMessageView::Other,
        }
    }
}

/// The text held by an optional string.
pub open spec fn text_of(text: Option<String>) -> Option<Seq<char>> {
    match text {
        Some(t) => Some(t@),
        None => None,
    }
}

/// The view of an optional message from a relay.
pub open spec fn relay_message_view(message: Option<RelayMessage>) -> Option<RelayMessageView> {
    match message {
        Some(m) => Some(m@),
        None => None,
    }
}

/// `nostr::message::ClientMessage::event`, written as JSON. The text is
/// named.
#[verifier::external_body]
fn event_frame(event: &Event) -> (text: Option<String>)
    requires
        event@.tags_nonempty(),
    ensures
        text_of(text) == client_message_json(ClientMessageView::Event(event@)),
{
    nostr::message::ClientMessage::event(nostr::event::Event::new(
        nostr::event::EventId::from_byte_array(event.id.bytes),
        nostr::key::PublicKey::from_byte_array(event.pubkey.bytes),
        Timestamp::from_secs(event.created_at),
        Kind::from_u16(event.kind),
        event.tags.iter().map(|t| Tag::parse(t.clone()).unwrap()),
        event.content.clone(),
        Signature::from_byte_array(event.sig),
    )).try_as_json().ok()
}

/// `nostr::message::ClientMessage::req`, written as JSON. The text is named.
#[verifier::external_body]
fn req_frame(subscription_id: &str, filters: &Vec<Filter>) -> (text: Option<String>)
    ensures
        text_of(text) == client_message_json(
            ClientMessageView::Req {
                subscription_id: subscription_id@,
                filters: filters_view(filters@),
            },
        ),
{
    let filters: Vec<nostr::filter::Filter> = filters.iter().map(|f| {
        nostr::filter::Filter::new()
            .authors(f.authors.iter().map(|a| nostr::key::PublicKey::from_byte_array(a.bytes)))
            .kind(Kind::from_u16(f.kind))
            .pubkey(nostr::key::PublicKey::from_byte_array(f.pubkey.bytes))
    }).collect();
    nostr::message::ClientMessage::req(SubscriptionId::new(subscription_id), filters)
        .try_as_json().ok()
}

/// `nostr::message::ClientMessage::close`, written as JSON. The text is
/// named.
#[verifier::external_body]
fn close_frame(subscription_id: &str) -> (text: Option<String>)
    ensures
        text_of(text) == client_message_json(ClientMessageView::Close(subscription_id@)),
{
    nostr::message::ClientMessage::close(SubscriptionId::new(subscription_id)).try_as_json().ok()
}

/// `nostr::message::RelayMessage::from_json`: the message that a relay's
/// text holds. An event comes with all its fields; the other kinds of
/// message are not told apart. The result is named.
#[verifier::external_body]
fn read_frame(text: &str) -> (message: Option<RelayMessage>)
    ensures
        relay_message_view(message) == relay_message_read(text@),
{
    match nostr::message::RelayMessage::from_json(text).ok()? {
        nostr::message::RelayMessage::Event { event, .. } => Some(RelayMessage::Event(Event {
            id: EventId { bytes: event.id.to_bytes() },
            pubkey: PublicKey { bytes: event.pubkey.to_bytes() },
            created_at: event.created_at.as_secs(),
            kind: event.kind.as_u16(),
            tags: event.tags.iter().map(|t| t.as_slice().to_vec()).collect(),
            content: event.content.clone(),
            sig: event.sig.to_bytes(),
        })),
        _ => Some(RelayMessage::Other),
    }
}

impl ClientMessageView {
    /// The message on the wire. An event with an empty tag has no text.
    pub open spec fn json(self) -> Option<Seq<char>> {
        match self {
            ClientMessageView::Event(event) => if event.tags_nonempty() {
                client_message_json(self)
            } else {
                None
            },
            _ => client_message_json(self),
        }
    }
}

impl ClientMessage {
    /// The message as the text that is sent to a relay.
    pub fn to_json(&self) -> (text: Option<String>)
        ensures
            text_of(text) == self@.json(),
    {
        match self {
            ClientMessage::Event(event) => {
                if event.tags_nonempty() {
                    event_frame(event)
                } else {
                    None
                }
            },
            ClientMessage::Req { subscription_id, filters } => req_frame(
                subscription_id.as_str(),
                filters,
            ),
            ClientMessage::Close(subscription_id) => close_frame(subscription_id.as_str()),
        }
    }
}

impl RelayMessage {
    /// Reads the text that a relay sent. Text that is no message gives
    /// nothing.
    pub fn from_json(text: &str) -> (message: Option<RelayMessage>)
        ensures
            relay_message_view(message) == relay_message_read(text@),
    {
        read_frame(text)
    }
}

} // verus!
