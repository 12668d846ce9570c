//! Ready-made wire texts for a caller that holds keys as text and no state.

use vstd::prelude::*;
use crate::event::{decrypted_content, direct_message_tags, Event, KIND_ENCRYPTED_DIRECT_MESSAGE};
use crate::keys::{derived_public_key, parsed_public_key, parsed_secret_key, PublicKey, User};
use crate::message::{text_of, ClientMessage, ClientMessageView};

verus! {

/// The wire text that publishes `ev`.
pub fn create_event_msg(ev: &Event) -> (text: Option<String>)
    ensures
        text_of(text) == ClientMessageView::Event(ev@).json(),
{
    ClientMessage::Event(ev.clone()).to_json()
}

/// The wire text that publishes an encrypted direct message with `content`
/// from the owner of the secret key in `sender_sk` to the key in
/// `receiver_pk`, together with the event. Keys that do not read give
/// nothing; whether a message comes is the protocol library's.
pub fn create_encrypted_direct_msg(sender_sk: &str, receiver_pk: &str, content: &str) -> (result:
    Option<(String, Event)>)
    ensures
        parsed_secret_key(sender_sk@).is_none() || parsed_public_key(receiver_pk@).is_none()
            ==> result.is_none(),
        parsed_secret_key(sender_sk@).is_some() && derived_public_key(
            parsed_secret_key(sender_sk@).unwrap(),
        ).is_none() ==> result.is_none(),
        result.is_some() ==> {
            let text = result.unwrap().0@;
            let e = result.unwrap().1@;
            &&& ClientMessageView::Event(e).json() == Some(text)
            &&& e.valid()
            &&& Some(e.pubkey) == derived_public_key(parsed_secret_key(sender_sk@).unwrap())
            &&& e.kind == KIND_ENCRYPTED_DIRECT_MESSAGE
            &&& e.tags == direct_message_tags(parsed_public_key(receiver_pk@).unwrap())
            &&& e.tagged_key() == parsed_public_key(receiver_pk@)
            &&& decrypted_content(
                parsed_secret_key(sender_sk@).unwrap(),
                parsed_public_key(receiver_pk@).unwrap(),
                e.content,
            ) == Some(content@)
        },
{
    let sender = match User::parse(sender_sk) {
        Some(sender) => sender,
        None => {
            return None;
        },
    };
    let receiver = match PublicKey::parse(receiver_pk) {
        Some(receiver) => receiver,
        None => {
            return None;
        },
    };
    match Event::new_encrypted_direct_msg(&sender, &receiver, content) {
        Some(event) => event_with_text(event),
        None => None,
    }
}

/// An event together with the wire text that publishes it; nothing where the
/// event has no wire text.
pub fn event_with_text(ev: Event) -> (result: Option<(String, Event)>)
    ensures
        match ClientMessageView::Event(ev@).json() {
            Some(text) => result.is_some() && result.unwrap().0@ == text && result.unwrap().1@
                == ev@,
            None => result.is_none(),
        },
{
    match create_event_msg(&ev) {
        Some(text) => Some((text, ev)),
        None => None,
    }
}

} // verus!
