//! Conversations: for each contact the messages exchanged with it, in the
//! order of their creation. An accepted event becomes a message once it is
//! decrypted and its peer is found among the contacts.

use vstd::prelude::*;
use crate::config::{Contact, ContactView};
use crate::event::{decrypted_content, lemma_before_transitive, Event, EventView};
use crate::keys::{PublicKey, User, UserView};
use crate::lists::{lemma_index_of_unique, lemma_push_new_key, lemma_remove_key};

verus! {

/// Who wrote a message: the user or the contact.
#[derive(Clone, Copy, Debug, PartialEq, Eq, Structural)]
pub enum MessageSource {
    Me,
    Them,
}

/// A message as mathematical values.
pub struct MessageView {
    pub source: MessageSource,
    pub content: Seq<char>,
    pub ev: EventView,
}

/// A message of a conversation: who wrote it, its plain text, and the event
/// it was decrypted from.
#[derive(Debug)]
pub struct Message {
    pub source: MessageSource,
    pub content: String,
    pub ev: Event,
}

impl View for Message {
    type V = MessageView;

    open spec fn view(&self) -> MessageView {
        MessageView { source: self.source, content: self.content@, ev: self.ev@ }
    }
}

impl Clone for Message {
    fn clone(&self) -> (copy: Self)
        ensures
            copy@ == self@,
    {
        Message { source: self.source, content: self.content.clone(), ev: self.ev.clone() }
    }
}

/// Seconds within which a message counts as recent.
pub const RECENT_SECONDS: i64 = 60;

impl MessageView {
    /// The message is worth an alert at time `now`: the contact wrote it,
    /// less than a minute ago.
    pub open spec fn alert_due(self, now: i64) -> bool {
        self.source == MessageSource::Them && self.ev.created_at > now - RECENT_SECONDS
    }
}

impl Message {
    pub fn new(source: MessageSource, content: &str, ev: Event) -> (message: Message)
        ensures
            message@ == (MessageView { source, content: content@, ev: ev@ }),
    {
        Message { source, content: content.to_owned(), ev }
    }

    /// Tells whether the message is worth an alert at time `now`, given in
    /// seconds since 1970.
    pub fn alert_due(&self, now: i64) -> (due: bool)
        ensures
            due == self@.alert_due(now),
    {
        if self.source != MessageSource::Them {
            false
        } else if now < RECENT_SECONDS {
            true
        } else {
            let threshold: u64 = (now - RECENT_SECONDS) as u64;
            self.ev.created_at > threshold
        }
    }
}

/// The views of a list of messages.
pub open spec fn messages_view(list: Seq<Message>) -> Seq<MessageView> {
    list.map_values(|m: Message| m@)
}

/// The messages stand in the order of display: none comes before an earlier
/// one.
pub open spec fn in_order(messages: Seq<MessageView>) -> bool {
    forall|i: int, j: int|
        0 <= i < j < messages.len() ==> !(#[trigger] messages[j]).ev.before(
            (#[trigger] messages[i]).ev,
        )
}

/// Where a new message goes: before the first message that it comes before,
/// at the end if there is none.
pub open spec fn place_of(messages: Seq<MessageView>, message: MessageView) -> int
    decreases messages.len(),
{
    if messages.len() == 0 {
        0
    } else if message.ev.before(messages[0].ev) {
        0
    } else {
        1 + place_of(messages.drop_first(), message)
    }
}

/// The messages with a new one put in its place.
pub open spec fn with_message(messages: Seq<MessageView>, message: MessageView) -> Seq<
    MessageView,
> {
    messages.insert(place_of(messages, message), message)
}

/// The place of a new message is within the list; the message comes before
/// the one at its place and before none of those in front of it.
pub proof fn lemma_place_of(messages: Seq<MessageView>, message: MessageView)
    ensures
        0 <= place_of(messages, message) <= messages.len(),
        forall|j: int|
            0 <= j < place_of(messages, message) ==> !message.ev.before(
                (#[trigger] messages[j]).ev,
            ),
        place_of(messages, message) < messages.len() ==> message.ev.before(
            messages[place_of(messages, message)].ev,
        ),
    decreases messages.len(),
{
    if messages.len() > 0 && !message.ev.before(messages[0].ev) {
        let rest = messages.drop_first();
        lemma_place_of(rest, message);
        assert forall|j: int| 0 <= j < place_of(messages, message) implies !message.ev.before(
            (#[trigger] messages[j]).ev,
        ) by {
            if j > 0 {
                assert(messages[j] == rest[j - 1]);
            }
        }
    }
}

/// The place of a new message is the one place that the scan from the front
/// finds.
pub proof fn lemma_place_found(messages: Seq<MessageView>, message: MessageView, at: int)
    requires
        0 <= at <= messages.len(),
        forall|j: int| 0 <= j < at ==> !message.ev.before((#[trigger] messages[j]).ev),
        at < messages.len() ==> message.ev.before(messages[at].ev),
    ensures
        place_of(messages, message) == at,
    decreases messages.len(),
{
    if messages.len() > 0 && at > 0 {
        let rest = messages.drop_first();
        assert(!message.ev.before(messages[0].ev));
        assert forall|j: int| 0 <= j < at - 1 implies !message.ev.before(
            (#[trigger] rest[j]).ev,
        ) by {
            assert(rest[j] == messages[j + 1]);
        }
        if at < messages.len() {
            assert(rest[at - 1] == messages[at]);
        }
        lemma_place_found(rest, message, at - 1);
    }
}

/// Putting a message in its place keeps the order, adds that message and
/// nothing else, and takes nothing away.
pub proof fn lemma_with_message(messages: Seq<MessageView>, message: MessageView)
    requires
        in_order(messages),
    ensures
        in_order(with_message(messages, message)),
        with_message(messages, message).len() == messages.len() + 1,
        with_message(messages, message).to_multiset() == messages.to_multiset().insert(message),
        forall|k: int|
            0 <= k < with_message(messages, message).len() ==> (#[trigger] with_message(
                messages,
                message,
            )[k]) == message || messages.contains(with_message(messages, message)[k]),
{
    lemma_place_of(messages, message);
    let at = place_of(messages, message);
    let after = with_message(messages, message);
    assert forall|k: int| 0 <= k < after.len() implies (#[trigger] after[k]) == message
        || messages.contains(after[k]) by {
        if k < at {
            assert(after[k] == messages[k]);
        } else if k > at {
            assert(after[k] == messages[k - 1]);
        }
    }
    assert forall|i: int, j: int| 0 <= i < j < after.len() implies !(#[trigger] after[j]).ev.before(
        (#[trigger] after[i]).ev,
    ) by {
        if j < at {
            assert(after[i] == messages[i] && after[j] == messages[j]);
        } else if j == at {
            assert(after[i] == messages[i]);
        } else if i < at {
            assert(after[i] == messages[i] && after[j] == messages[j - 1]);
        } else if i == at {
            assert(after[j] == messages[j - 1]);
            if after[j].ev.before(message.ev) {
                lemma_before_transitive(after[j].ev, message.ev, messages[at].ev);
                assert(j - 1 >= at);
                if j - 1 > at {
                    assert(!messages[j - 1].ev.before(messages[at].ev));
                } else {
                    crate::event::lemma_bytes_before_irreflexive(messages[at].ev.id);
                }
            }
        } else {
            assert(after[i] == messages[i - 1] && after[j] == messages[j - 1]);
        }
    }
    vstd::seq_lib::to_multiset_insert(messages, at, message);
}

/// A conversation as mathematical values.
pub struct ConversationView {
    pub contact: ContactView,
    pub messages: Seq<MessageView>,
}

/// The thread of messages exchanged with one contact.
#[derive(Debug)]
pub struct Conversation {
    contact: Contact,
    messages: Vec<Message>,
}

impl View for Conversation {
    type V = ConversationView;

    closed spec fn view(&self) -> ConversationView {
        ConversationView { contact: self.contact@, messages: messages_view(self.messages@) }
    }
}

fn clone_messages(list: &Vec<Message>) -> (copy: Vec<Message>)
    ensures
        messages_view(copy@) == messages_view(list@),
{
    let mut copy: Vec<Message> = Vec::new();
    let mut i: usize = 0;
    while i < list.len()
        invariant
            i <= list.len(),
            copy@.len() == i,
            forall|j: int| 0 <= j < i ==> copy@[j]@ == list@[j]@,
        decreases list.len() - i,
    {
        copy.push(list[i].clone());
        i += 1;
    }
    copy
}

impl Clone for Conversation {
    fn clone(&self) -> (copy: Self)
        ensures
            copy@ == self@,
    {
        Conversation { contact: self.contact.clone(), messages: clone_messages(&self.messages) }
    }
}

/// `chrono::Utc::now`, as seconds since 1970. Nothing is promised of it.
#[verifier::external_body]
fn unix_now() -> (now: i64) {
    chrono::Utc::now().timestamp()
}

impl Conversation {
    /// The messages stand in the order of display.
    pub open spec fn wf(&self) -> bool {
        in_order(self@.messages)
    }

    /// An empty conversation with `contact`.
    pub fn new(contact: Contact) -> (conversation: Conversation)
        ensures
            conversation.wf(),
            conversation@ == (ConversationView {
                contact: contact@,
                messages: Seq::<MessageView>::empty(),
            }),
    {
        let conversation = Conversation { contact, messages: Vec::new() };
        assert(conversation@.messages =~= Seq::<MessageView>::empty());
        conversation
    }

    /// The contact that the conversation is with.
    pub fn contact(&self) -> (contact: &Contact)
        ensures
            contact@ == self@.contact,
    {
        &self.contact
    }

    /// The messages, in the order of display.
    pub fn messages(&self) -> (messages: &Vec<Message>)
        ensures
            messages_view(messages@) == self@.messages,
    {
        &self.messages
    }

    /// Puts a message in its place and tells whether it is worth an alert at
    /// time `now`.
    pub fn add_message_at(&mut self, message: Message, now: i64) -> (alert: bool)
        requires
            old(self).wf(),
        ensures
            final(self).wf(),
            final(self)@.contact == old(self)@.contact,
            final(self)@.messages == with_message(old(self)@.messages, message@),
            alert == message@.alert_due(now),
    {
        let ghost before = self@.messages;
        let alert = message.alert_due(now);
        let mut at: usize = 0;
        while at < self.messages.len() && !message.ev.before(&self.messages[at].ev)
            invariant
                at <= self.messages.len(),
                self@.messages == before,
                forall|j: int| 0 <= j < at ==> !message@.ev.before((#[trigger] before[j]).ev),
            decreases self.messages.len() - at,
        {
            at += 1;
        }
        proof {
            lemma_place_found(before, message@, at as int);
            lemma_with_message(before, message@);
        }
        self.messages.insert(at, message);
        assert(self@.messages =~= before.insert(at as int, message@));
        alert
    }

    /// Puts a message in its place and tells whether it is worth an alert
    /// now: only a message that the contact wrote can be.
    pub fn add_message(&mut self, message: Message) -> (alert: bool)
        requires
            old(self).wf(),
        ensures
            final(self).wf(),
            final(self)@.contact == old(self)@.contact,
            final(self)@.messages == with_message(old(self)@.messages, message@),
            alert ==> message@.source == MessageSource::Them,
    {
        self.add_message_at(message, unix_now())
    }
}

/// Why an event became no message.
#[derive(Clone, Copy, Debug, PartialEq, Eq, Structural)]
pub enum ConversationsError {
    /// The user wrote the event, and no tag names the peer.
    MalformedEvent,
    /// The content does not decrypt with the user's key and the peer's.
    DecryptionFailed,
    /// The peer is no contact.
    UnknownConversation,
}

/// What the conversations tell their listeners.
#[derive(Debug)]
pub enum ConvsNotifications {
    /// A message was added to the conversation with `peer`.
    NewMessage { peer: PublicKey, message: Message, alert: bool },
}

/// The views of a list of conversations.
pub open spec fn conversations_view(list: Seq<Conversation>) -> Seq<ConversationView> {
    list.map_values(|c: Conversation| c@)
}

/// The contacts' keys of a list of conversations, in the list's order.
pub open spec fn conversation_keys(list: Seq<ConversationView>) -> Seq<Seq<u8>> {
    list.map_values(|c: ConversationView| c.contact.pk)
}

/// The conversation with the contact of key `pk`, if the list holds one.
pub open spec fn conversation_of(list: Seq<ConversationView>, pk: Seq<u8>) -> Option<
    ConversationView,
> {
    let keys = conversation_keys(list);
    if keys.contains(pk) {
        Some(list[keys.index_of(pk)])
    } else {
        None
    }
}

/// The list with `conversation` in it: in place of the conversation with the
/// same contact where there is one, else at the end.
pub open spec fn conversations_with(list: Seq<ConversationView>, conversation: ConversationView)
    -> Seq<ConversationView> {
    let keys = conversation_keys(list);
    if keys.contains(conversation.contact.pk) {
        list.update(keys.index_of(conversation.contact.pk), conversation)
    } else {
        list.push(conversation)
    }
}

/// The list without the conversation with the contact of key `pk`.
pub open spec fn conversations_without(list: Seq<ConversationView>, pk: Seq<u8>) -> Seq<
    ConversationView,
> {
    let keys = conversation_keys(list);
    if keys.contains(pk) {
        list.remove(keys.index_of(pk))
    } else {
        list
    }
}

/// The peer of an event and the direction of the message: an event that the
/// user wrote goes to the key that its first public-key tag names, any other
/// event comes from its author.
pub open spec fn peer_and_source(ev: EventView, me: Seq<u8>) -> Option<(Seq<u8>, MessageSource)> {
    if ev.pubkey == me {
        match ev.tagged_key() {
            Some(peer) => Some((peer, MessageSource::Me)),
            None => None,
        }
    } else {
        Some((ev.pubkey, MessageSource::Them))
    }
}

/// What becomes of an event: the peer and the message it gives, or the
/// reason why it gives none.
pub open spec fn read_event(list: Seq<ConversationView>, ev: EventView, user: UserView) -> Result<
    (Seq<u8>, MessageView),
    ConversationsError,
> {
    match peer_and_source(ev, user.public_key) {
        None => Err(ConversationsError::MalformedEvent),
        Some((peer, source)) => match decrypted_content(user.secret_key, peer, ev.content) {
            None => Err(ConversationsError::DecryptionFailed),
            Some(content) => if conversation_keys(list).contains(peer) {
                Ok((peer, MessageView { source, content, ev }))
            } else {
                Err(ConversationsError::UnknownConversation)
            },
        },
    }
}

/// The conversations after an event was taken in: a message goes to its
/// place in the conversation with the peer; an event that gives no message
/// changes nothing.
pub open spec fn ingested(list: Seq<ConversationView>, ev: EventView, user: UserView) -> Seq<
    ConversationView,
> {
    match read_event(list, ev, user) {
        Ok((peer, message)) => {
            let at = conversation_keys(list).index_of(peer);
            list.update(
                at,
                ConversationView {
                    contact: list[at].contact,
                    messages: with_message(list[at].messages, message),
                },
            )
        },
        Err(_) => list,
    }
}

/// Putting a conversation in keeps the list well formed; the keys are those
/// there were and the conversation's.
pub proof fn lemma_conversations_with(list: Seq<ConversationView>, conversation: ConversationView)
    requires
        conversations_wf(list),
        in_order(conversation.messages),
    ensures
        conversations_wf(conversations_with(list, conversation)),
        forall|pk: Seq<u8>|
            #![trigger conversation_keys(conversations_with(list, conversation)).contains(pk)]
            conversation_keys(conversations_with(list, conversation)).contains(pk) <==> (
            conversation_keys(list).contains(pk) || pk == conversation.contact.pk),
{
    let keys = conversation_keys(list);
    let after = conversations_with(list, conversation);
    let pk0 = conversation.contact.pk;
    if keys.contains(pk0) {
        assert(conversation_keys(after) =~= keys);
    } else {
        assert(conversation_keys(after) =~= keys.push(pk0));
        lemma_push_new_key(keys, pk0);
        assert(conversation_keys(after)[keys.len() as int] == pk0);
        assert forall|pk: Seq<u8>|
            #![trigger conversation_keys(after).contains(pk)]
            conversation_keys(after).contains(pk) <==> (keys.contains(pk) || pk == pk0) by {
            if keys.contains(pk) {
                let j = keys.index_of(pk);
                assert(conversation_keys(after)[j] == pk);
            }
        }
    }
}

/// Taking a conversation out keeps the list well formed; the keys are those
/// there were, without the one taken out.
pub proof fn lemma_conversations_without(list: Seq<ConversationView>, gone: Seq<u8>)
    requires
        conversations_wf(list),
    ensures
        conversations_wf(conversations_without(list, gone)),
        forall|pk: Seq<u8>|
            #![trigger conversation_keys(conversations_without(list, gone)).contains(pk)]
            conversation_keys(conversations_without(list, gone)).contains(pk) <==> (
            conversation_keys(list).contains(pk) && pk != gone),
{
    let keys = conversation_keys(list);
    let after = conversations_without(list, gone);
    if keys.contains(gone) {
        let at = keys.index_of(gone);
        assert(conversation_keys(after) =~= keys.remove(at));
        lemma_remove_key(keys, at);
    }
}

/// Every message of every conversation was read from a valid event.
pub open spec fn from_valid_events(list: Seq<ConversationView>) -> bool {
    forall|i: int, k: int|
        0 <= i < list.len() && 0 <= k < list[i].messages.len() ==> (
        #[trigger] list[i].messages[k]).ev.valid()
}

/// Taking in a valid event leaves every message read from a valid event.
pub proof fn lemma_ingested_valid(list: Seq<ConversationView>, ev: EventView, user: UserView)
    requires
        conversations_wf(list),
        from_valid_events(list),
        ev.valid(),
    ensures
        from_valid_events(ingested(list, ev, user)),
{
    match read_event(list, ev, user) {
        Ok((peer, message)) => {
            let at = conversation_keys(list).index_of(peer);
            let after = ingested(list, ev, user);
            lemma_with_message(list[at].messages, message);
            assert forall|i: int, k: int|
                0 <= i < after.len() && 0 <= k < after[i].messages.len() implies (
            #[trigger] after[i].messages[k]).ev.valid() by {
            }
        },
        Err(_) => {},
    }
}

/// An event whose peer is no contact changes nothing and gives no message,
/// whatever it holds.
pub proof fn lemma_unknown_peer_rejected(
    list: Seq<ConversationView>,
    ev: EventView,
    user: UserView,
)
    requires
        match peer_and_source(ev, user.public_key) {
            Some((peer, source)) => !conversation_keys(list).contains(peer),
            None => true,
        },
    ensures
        read_event(list, ev, user).is_err(),
        ingested(list, ev, user) == list,
{
}

/// Taking an event in keeps the contacts, keeps every conversation in order,
/// and changes at most the conversation with the event's peer, by one
/// message.
pub proof fn lemma_ingested(list: Seq<ConversationView>, ev: EventView, user: UserView)
    requires
        conversations_wf(list),
    ensures
        conversations_wf(ingested(list, ev, user)),
        conversation_keys(ingested(list, ev, user)) == conversation_keys(list),
        match read_event(list, ev, user) {
            Ok((peer, message)) => conversation_of(ingested(list, ev, user), peer) == Some(
                ConversationView {
                    contact: conversation_of(list, peer).unwrap().contact,
                    messages: with_message(conversation_of(list, peer).unwrap().messages, message),
                },
            ) && forall|other: Seq<u8>|
                other != peer ==> conversation_of(ingested(list, ev, user), other)
                    == conversation_of(list, other),
            Err(_) => true,
        },
{
    match read_event(list, ev, user) {
        Ok((peer, message)) => {
            let keys = conversation_keys(list);
            let at = keys.index_of(peer);
            let after = ingested(list, ev, user);
            assert(conversation_keys(after) =~= keys);
            lemma_with_message(list[at].messages, message);
        },
        Err(_) => {},
    }
}

/// The conversations, one for each contact.
pub struct Conversations {
    convs: Vec<Conversation>,
}

impl View for Conversations {
    type V = Seq<ConversationView>;

    closed spec fn view(&self) -> Seq<ConversationView> {
        conversations_view(self.convs@)
    }
}

/// No contact has two conversations, and in each conversation the messages
/// stand in the order of display.
pub open spec fn conversations_wf(list: Seq<ConversationView>) -> bool {
    &&& conversation_keys(list).no_duplicates()
    &&& forall|i: int| 0 <= i < list.len() ==> in_order((#[trigger] list[i]).messages)
}

/// The view of an optional conversation.
pub open spec fn conversation_view(conversation: Option<Conversation>) -> Option<
    ConversationView,
> {
    match conversation {
        Some(c) => Some(c@),
        None => None,
    }
}

impl Conversations {
    /// The conversations are well formed.
    pub open spec fn wf(&self) -> bool {
        conversations_wf(self@)
    }

    /// No conversation.
    pub fn new() -> (conversations: Conversations)
        ensures
            conversations.wf(),
            conversations@ == Seq::<ConversationView>::empty(),
    {
        Conversations { convs: Vec::new() }
    }

    fn position(&self, pk: &PublicKey) -> (at: Option<usize>)
        ensures
            match at {
                Some(i) => i < self@.len() && conversation_keys(self@)[i as int] == pk@,
                None => !conversation_keys(self@).contains(pk@),
            },
    {
        let mut i: usize = 0;
        while i < self.convs.len()
            invariant
                i <= self.convs.len(),
                forall|j: int| 0 <= j < i ==> conversation_keys(self@)[j] != pk@,
            decreases self.convs.len() - i,
        {
            if self.convs[i].contact.pk == *pk {
                return Some(i);
            }
            i += 1;
        }
        None
    }

    /// Puts a conversation in, in place of the one with the same contact if
    /// there is one.
    pub fn add_conv(&mut self, conv: Conversation)
        requires
            old(self).wf(),
            conv.wf(),
        ensures
            final(self).wf(),
            final(self)@ == conversations_with(old(self)@, conv@),
    {
        let ghost before = self@;
        let ghost keys = conversation_keys(before);
        match self.position(&conv.contact.pk) {
            Some(i) => {
                proof {
                    lemma_index_of_unique(keys, i as int);
                }
                self.convs[i] = conv;
                assert(self@ =~= before.update(i as int, conv@));
                assert(conversation_keys(self@) =~= keys);
            },
            None => {
                proof {
                    lemma_push_new_key(keys, conv@.contact.pk);
                }
                self.convs.push(conv);
                assert(self@ =~= before.push(conv@));
                assert(conversation_keys(self@) =~= keys.push(conv@.contact.pk));
            },
        }
    }

    /// Takes out the conversation with the contact of key `pk`.
    pub fn remove_conv(&mut self, pk: &PublicKey)
        requires
            old(self).wf(),
        ensures
            final(self).wf(),
            final(self)@ == conversations_without(old(self)@, pk@),
    {
        let ghost before = self@;
        let ghost keys = conversation_keys(before);
        if let Some(i) = self.position(pk) {
            proof {
                lemma_index_of_unique(keys, i as int);
                lemma_remove_key(keys, i as int);
            }
            self.convs.remove(i);
            assert(self@ =~= before.remove(i as int));
            assert(conversation_keys(self@) =~= keys.remove(i as int));
        }
    }

    /// The conversation with the contact of key `pk`, if there is one.
    pub fn get_conv(&self, pk: &PublicKey) -> (conv: Option<Conversation>)
        requires
            self.wf(),
        ensures
            conversation_view(conv) == conversation_of(self@, pk@),
            conv.is_some() ==> conv.unwrap().wf(),
    {
        match self.position(pk) {
            Some(i) => {
                proof {
                    lemma_index_of_unique(conversation_keys(self@), i as int);
                }
                Some(self.convs[i].clone())
            },
            None => None,
        }
    }

    /// Copies of all conversations, in the order in which they came.
    pub fn list_convs(&self) -> (convs: Vec<Conversation>)
        ensures
            conversations_view(convs@) == self@,
    {
        let mut copy: Vec<Conversation> = Vec::new();
        let mut i: usize = 0;
        while i < self.convs.len()
            invariant
                i <= self.convs.len(),
                copy@.len() == i,
                forall|j: int| 0 <= j < i ==> copy@[j]@ == self.convs@[j]@,
            decreases self.convs.len() - i,
        {
            copy.push(self.convs[i].clone());
            i += 1;
        }
        copy
    }

    /// Takes in an event at time `now`. The peer is the key that the first
    /// public-key tag names if the user wrote the event, else the author.
    /// The content is decrypted with the user's secret key and the peer's
    /// key. The message goes to its place in the conversation with the peer.
    /// An event without a peer, one that does not decrypt, and one whose
    /// peer is no contact are refused, in this order, and change nothing.
    pub fn try_add_message_from_ev_at(&mut self, ev: Event, user: &User, now: i64) -> (result:
        Result<ConvsNotifications, ConversationsError>)
        requires
            old(self).wf(),
        ensures
            final(self).wf(),
            final(self)@ == ingested(old(self)@, ev@, user@),
            conversation_keys(final(self)@) == conversation_keys(old(self)@),
            match result {
                Ok(ConvsNotifications::NewMessage { peer, message, alert }) => read_event(
                    old(self)@,
                    ev@,
                    user@,
                ) == Ok::<(Seq<u8>, MessageView), ConversationsError>((peer@, message@))
                    && alert == message@.alert_due(now),
                Err(e) => read_event(old(self)@, ev@, user@) == Err::<
                    (Seq<u8>, MessageView),
                    ConversationsError,
                >(e),
            },
    {
        let ghost before = self@;
        let me = user.get_pk();
        let (peer, source) = if ev.pubkey == me {
            match ev.tagged_key() {
                Some(peer) => (peer, MessageSource::Me),
                None => {
                    return Err(ConversationsError::MalformedEvent);
                },
            }
        } else {
            (ev.pubkey, MessageSource::Them)
        };
        let secret = user.get_sk();
        let content = match crate::event::decrypt(&secret, &peer, ev.content.as_str()) {
            Some(content) => content,
            None => {
                return Err(ConversationsError::DecryptionFailed);
            },
        };
        let at = match self.position(&peer) {
            Some(at) => at,
            None => {
                return Err(ConversationsError::UnknownConversation);
            },
        };
        proof {
            lemma_index_of_unique(conversation_keys(before), at as int);
        }
        let message = Message { source, content, ev };
        let notice = message.clone();
        let alert = self.convs[at].add_message_at(message, now);
        proof {
            assert(self@ =~= ingested(before, ev@, user@));
            assert(conversation_keys(self@) =~= conversation_keys(before));
        }
        Ok(ConvsNotifications::NewMessage { peer, message: notice, alert })
    }

    /// Takes in an event now. See `try_add_message_from_ev_at`; of the alert
    /// only this is fixed: a message that the user wrote gives none.
    pub fn try_add_message_from_ev(&mut self, ev: Event, user: &User) -> (result: Result<
        ConvsNotifications,
        ConversationsError,
    >)
        requires
            old(self).wf(),
        ensures
            final(self).wf(),
            final(self)@ == ingested(old(self)@, ev@, user@),
            conversation_keys(final(self)@) == conversation_keys(old(self)@),
            match result {
                Ok(ConvsNotifications::NewMessage { peer, message, alert }) => read_event(
                    old(self)@,
                    ev@,
                    user@,
                ) == Ok::<(Seq<u8>, MessageView), ConversationsError>((peer@, message@)) && (alert
                    ==> message@.source == MessageSource::Them),
                Err(e) => read_event(old(self)@, ev@, user@) == Err::<
                    (Seq<u8>, MessageView),
                    ConversationsError,
                >(e),
            },
    {
        self.try_add_message_from_ev_at(ev, user, unix_now())
    }
}

} // verus!
