//! The whole of the client's core: configuration, relay pool, conversations
//! and the user's identity, behind the operations that a user interface
//! calls. Each operation changes the state and hands back what the caller
//! is to do: write the configuration, act on sockets, tell the listeners.

use vstd::prelude::*;
use crate::config::{
    contact_keys, contacts_view, contacts_with, contacts_without, lemma_contacts_with,
    lemma_contacts_without, Config, ConfigProvider, ConfigView, Contact, ContactView,
};
use crate::conversations::{
    conversation_keys, conversation_of, conversation_view, conversations_wf, conversations_with,
    conversations_without, from_valid_events, ingested, lemma_ingested_valid,
    lemma_unknown_peer_rejected, peer_and_source, read_event,
    Conversation, ConversationView, Conversations, ConversationsError, ConvsNotifications,
    MessageSource, MessageView,
};
use crate::event::{decrypted_content, Event, EventView};
use crate::keys::{imported_identity, parsed_public_key, PublicKey, User, UserView};
use crate::lists::{texts, texts_with, texts_without};
use crate::message::RelayMessageView;
use crate::pool_task::{
    cache_purged, emitted_by, notified_event, RelayPoolEv, RelayPoolEvView, RelayPoolNotifications,
};
use crate::relay::relay_url_ok;
use crate::pool_model::{
    all_connecting, channel_id, dials, hang_up_if_open, lemma_disconnect, resubscribe_actions,
    RelayPoolView,
};
use crate::relay_pool::{actions_view, PoolAction, RelayPool};
use crate::subscription::{
    filter_set, lemma_filter_set_covers, rebuild_filters, FilterView, SubscriptionView,
};

verus! {

/// Why an operation of the core failed.
#[derive(Clone, Copy, Debug, PartialEq, Eq, Structural)]
pub enum CoreTaskHandleError {
    /// The text is no relay's address.
    AddRelayFailed,
    /// The contact was not written, or was never put into the configuration.
    AddContactFailed,
    /// The recipient's key does not read as a key, or no message to it could
    /// be built.
    InvalidRecipient,
    /// The message was built and then refused by the conversations.
    MessageRefused(ConversationsError),
}

/// The core as mathematical values.
pub struct CoreView {
    pub config: ConfigView,
    pub pool: RelayPoolView,
    pub conversations: Seq<ConversationView>,
    pub user: UserView,
}

impl CoreView {
    /// Configuration, pool and conversations are well formed, every
    /// conversation is with a contact, and every message was read from a
    /// valid event.
    pub open spec fn wf(self) -> bool {
        &&& self.config.wf()
        &&& self.pool.wf()
        &&& conversations_wf(self.conversations)
        &&& from_valid_events(self.conversations)
        &&& forall|pk: Seq<u8>|
            #![trigger conversation_keys(self.conversations).contains(pk)]
            conversation_keys(self.conversations).contains(pk) ==> self.config.has_contact(pk)
    }

    /// The filter set that follows from the contacts and the user's key.
    pub open spec fn filters(self) -> Seq<FilterView> {
        filter_set(self.config.contacts, self.user.public_key)
    }

    /// The filter set that the relays are asked with is the one that follows
    /// from the contacts and the user's key.
    pub open spec fn subscribed(self) -> bool {
        self.pool.subscription.established && self.pool.subscription.filters == self.filters()
    }

    /// The relays are asked for the messages exchanged with the key `pk`, in
    /// both directions: the filter set holds a filter for what the user
    /// writes, tagged with `pk`, and a filter for what is tagged with the
    /// user's key that has `pk` among its authors.
    pub open spec fn covers(self, pk: Seq<u8>) -> bool {
        let filters = self.pool.subscription.filters;
        &&& self.pool.subscription.established
        &&& exists|i: int|
            0 <= i < filters.len() && (#[trigger] filters[i]).pubkey == pk && filters[i].authors
                == seq![self.user.public_key]
        &&& exists|i: int|
            0 <= i < filters.len() && (#[trigger] filters[i]).pubkey == self.user.public_key
                && filters[i].authors.contains(pk)
    }
}

/// A conversation without messages for each contact, in the contacts' order.
pub open spec fn empty_conversations(contacts: Seq<ContactView>) -> Seq<ConversationView> {
    contacts.map_values(
        |c: ContactView| ConversationView { contact: c, messages: Seq::<MessageView>::empty() },
    )
}

/// A pool without a filter set and with an empty cache that holds the given
/// addresses, each added in its turn.
pub open spec fn pool_of(urls: Seq<Seq<char>>) -> RelayPoolView
    decreases urls.len(),
{
    if urls.len() == 0 {
        RelayPoolView {
            relays: Seq::empty(),
            subscription: SubscriptionView {
                filters: Seq::empty(),
                established: false,
                channels: Seq::empty(),
            },
            cache: Seq::empty(),
        }
    } else {
        pool_of(urls.drop_last()).added(urls.last())
    }
}

/// While the relays are asked with the filter set that follows from the
/// contacts, every contact is covered in both directions.
pub proof fn lemma_contacts_are_covered(core: CoreView, pk: Seq<u8>)
    requires
        core.subscribed(),
        core.config.has_contact(pk),
    ensures
        core.covers(pk),
{
    lemma_filter_set_covers(core.config.contacts, core.user.public_key, pk);
}

/// No conversation of the core holds a message that was read from an event
/// that is not valid.
pub proof fn lemma_conversations_hold_valid_events(core: CoreView, pk: Seq<u8>, k: int)
    requires
        core.wf(),
        conversation_of(core.conversations, pk).is_some(),
        0 <= k < conversation_of(core.conversations, pk).unwrap().messages.len(),
    ensures
        conversation_of(core.conversations, pk).unwrap().messages[k].ev.valid(),
{
}

/// An event that is not valid changes nothing when a relay delivers it: it
/// does not come into the cache, it comes into no conversation, and nobody
/// is told of it.
pub proof fn lemma_invalid_event_is_dropped(core: CoreView, relay_url: Seq<char>, event: EventView)
    requires
        !event.valid(),
    ensures
        core.delivered(
            RelayPoolEvView::ReceivedMsg { relay_url, msg: RelayMessageView::Event(event) },
        ) == core,
        core.told(
            RelayPoolEvView::ReceivedMsg { relay_url, msg: RelayMessageView::Event(event) },
        ).is_none(),
{
}

/// An event whose peer is no contact changes no conversation when a relay
/// delivers it, and nobody is told of it, even if it is valid and decrypts.
pub proof fn lemma_stranger_is_rejected(core: CoreView, relay_url: Seq<char>, event: EventView)
    requires
        core.wf(),
        match peer_and_source(event, core.user.public_key) {
            Some((peer, source)) => !core.config.has_contact(peer),
            None => true,
        },
    ensures
        core.delivered(
            RelayPoolEvView::ReceivedMsg { relay_url, msg: RelayMessageView::Event(event) },
        ).conversations == core.conversations,
        core.told(
            RelayPoolEvView::ReceivedMsg { relay_url, msg: RelayMessageView::Event(event) },
        ).is_none(),
{
    lemma_unknown_peer_rejected(core.conversations, event, core.user);
}

impl CoreView {
    /// The core after the pool's loop has taken one step: the pool takes the
    /// step, and an event that it hands on is taken in by the conversations.
    pub open spec fn delivered(self, ev: RelayPoolEvView) -> CoreView {
        CoreView {
            pool: self.pool.received(ev),
            conversations: match emitted_by(self.pool.cache, ev) {
                Some(event) => ingested(self.conversations, event, self.user),
                None => self.conversations,
            },
            ..self
        }
    }

    /// The peer and the message that the listeners are told of after one
    /// step of the pool's loop.
    pub open spec fn told(self, ev: RelayPoolEvView) -> Option<(Seq<u8>, MessageView)> {
        match emitted_by(self.pool.cache, ev) {
            Some(event) => match read_event(self.conversations, event, self.user) {
                Ok(told) => Some(told),
                Err(_) => None,
            },
            None => None,
        }
    }
}

/// The peer and the message of an optional notification.
pub open spec fn told_of(notification: Option<ConvsNotifications>) -> Option<
    (Seq<u8>, MessageView),
> {
    match notification {
        Some(ConvsNotifications::NewMessage { peer, message, alert }) => Some((peer@, message@)),
        None => None,
    }
}

/// The core of the client.
pub struct CoreTaskHandle {
    config: ConfigProvider,
    pub relay_pool: RelayPool,
    conversations: Conversations,
    user: User,
}

impl View for CoreTaskHandle {
    type V = CoreView;

    closed spec fn view(&self) -> CoreView {
        CoreView {
            config: self.config@,
            pool: self.relay_pool@,
            conversations: self.conversations@,
            user: self.user@,
        }
    }
}

impl CoreTaskHandle {
    /// The core is well formed.
    pub open spec fn wf(&self) -> bool {
        self@.wf()
    }

    /// The core for a configuration that was read from disk, with a fresh
    /// identity: every address of the configuration that is a relay's
    /// address is in the pool, not connected, and every contact has an empty
    /// conversation.
    pub fn new(config: Config) -> (core: CoreTaskHandle)
        ensures
            core.wf(),
            core@.config.contacts == crate::config::contacts_collected(config@.contacts),
            core@.config.relays_url == crate::lists::texts_collected(config@.relays_url),
            core@.pool == pool_of(core@.config.relays_url),
            core@.conversations == empty_conversations(core@.config.contacts),
            core@.user.paired(),
    {
        let provider = ConfigProvider::load(config);
        let urls = provider.list_relays_url();
        let mut relay_pool = RelayPool::new();
        let mut i: usize = 0;
        while i < urls.len()
            invariant
                i <= urls.len(),
                relay_pool.wf(),
                relay_pool@ == pool_of(texts(urls@).take(i as int)),
            decreases urls.len() - i,
        {
            proof {
                let next = texts(urls@).take(i as int + 1);
                assert(next.drop_last() =~= texts(urls@).take(i as int));
            }
            relay_pool.add(urls[i].as_str());
            i += 1;
        }
        assert(texts(urls@).take(i as int) =~= texts(urls@));
        let contacts = provider.list_contacts();
        let mut conversations = Conversations::new();
        let mut k: usize = 0;
        let ghost listed = contacts_view(contacts@);
        while k < contacts.len()
            invariant
                k <= contacts.len(),
                listed == contacts_view(contacts@),
                contact_keys(listed).no_duplicates(),
                conversations.wf(),
                conversations@ == empty_conversations(listed.take(k as int)),
            decreases contacts.len() - k,
        {
            let ghost held = conversations@;
            let conv = Conversation::new(contacts[k].clone());
            proof {
                if conversation_keys(held).contains(listed[k as int].pk) {
                    let j = conversation_keys(held).index_of(listed[k as int].pk);
                    assert(contact_keys(listed)[j] == contact_keys(listed)[k as int]);
                }
            }
            conversations.add_conv(conv);
            k += 1;
        }
        let core = CoreTaskHandle { config: provider, relay_pool, conversations, user: User::new() };
        proof {
            assert(conversation_keys(core@.conversations) =~= contact_keys(core@.config.contacts));
        }
        core
    }

    /// The conversation with the contact whose key reads from `pk`.
    pub fn get_conv(&self, pk: &str) -> (conv: Option<Conversation>)
        requires
            self.wf(),
        ensures
            conversation_view(conv) == match parsed_public_key(pk@) {
                Some(key) => conversation_of(self@.conversations, key),
                None => None,
            },
    {
        match PublicKey::parse(pk) {
            Some(key) => self.conversations.get_conv(&key),
            None => None,
        }
    }

    /// The relay addresses and the contacts of the configuration.
    pub fn get_config(&self) -> (config: (Vec<String>, Vec<Contact>))
        ensures
            texts(config.0@) == self@.config.relays_url,
            contacts_view(config.1@) == self@.config.contacts,
    {
        (self.config.list_relays_url(), self.config.list_contacts())
    }

    /// The user's identity.
    pub fn get_user(&self) -> (user: User)
        ensures
            user@ == self@.user,
    {
        self.user
    }

    /// Gives the relays the filter set that follows from the contacts and
    /// the user's key.
    pub fn subscribe(&mut self) -> (actions: Vec<PoolAction>)
        requires
            old(self).wf(),
        ensures
            final(self).wf(),
            final(self)@.subscribed(),
            final(self)@.config == old(self)@.config,
            final(self)@.conversations == old(self)@.conversations,
            final(self)@.user == old(self)@.user,
            final(self)@.pool.relays == old(self)@.pool.relays,
            final(self)@.pool.cache == old(self)@.pool.cache,
            actions_view(actions@) == resubscribe_actions(
                old(self)@.pool.relays,
                old(self)@.pool.subscription.channels,
                final(self)@.pool.subscription.channels,
                old(self)@.filters(),
            ),
    {
        let contacts = self.config.list_contacts();
        let me = self.user.get_pk();
        let filters = rebuild_filters(&contacts, &me);
        self.relay_pool.start_sub(filters)
    }

    /// Adds a relay to the pool and to the configuration, and hands back
    /// what is to be written and what is to be done on sockets. Text that is
    /// no relay's address is refused and changes nothing.
    pub fn add_relay(&mut self, url: String) -> (result: Result<
        (Config, Vec<PoolAction>),
        CoreTaskHandleError,
    >)
        requires
            old(self).wf(),
        ensures
            final(self).wf(),
            result.is_ok() == relay_url_ok(url@),
            result.is_err() ==> result == Err::<(Config, Vec<PoolAction>), CoreTaskHandleError>(
                CoreTaskHandleError::AddRelayFailed,
            ) && final(self)@ == old(self)@,
            result.is_ok() ==> final(self)@ == (CoreView {
                pool: old(self)@.pool.added(url@),
                config: ConfigView {
                    relays_url: texts_with(old(self)@.config.relays_url, url@),
                    ..old(self)@.config
                },
                ..old(self)@
            }) && result.unwrap().0@ == final(self)@.config && actions_view(result.unwrap().1@)
                == hang_up_if_open(old(self)@.pool.status(url@), url@),
    {
        let (added, actions) = self.relay_pool.add(url.as_str());
        if !added {
            return Err(CoreTaskHandleError::AddRelayFailed);
        }
        let snapshot = self.config.add_relay(url);
        Ok((snapshot, actions))
    }

    /// Takes a relay out of the pool and of the configuration, ending its
    /// session first, and hands back what is to be written and what is to be
    /// done on sockets.
    pub fn remove_relay(&mut self, url: &str) -> (result: (Config, Vec<PoolAction>))
        requires
            old(self).wf(),
        ensures
            final(self).wf(),
            final(self)@ == (CoreView {
                pool: old(self)@.pool.disconnect(url@).pool.removed(url@),
                config: ConfigView {
                    relays_url: texts_without(old(self)@.config.relays_url, url@),
                    ..old(self)@.config
                },
                ..old(self)@
            }),
            result.0@ == final(self)@.config,
            actions_view(result.1@) == old(self)@.pool.disconnect(url@).actions,
    {
        proof {
            lemma_disconnect(self@.pool, url@);
        }
        let actions = self.relay_pool.disconnect_relay(url);
        self.relay_pool.remove(url);
        let snapshot = self.config.remove_relay(url);
        (snapshot, actions)
    }

    /// Starts a session with every relay that is not connected.
    pub fn connect_all_relays(&mut self) -> (actions: Vec<PoolAction>)
        requires
            old(self).wf(),
        ensures
            final(self).wf(),
            final(self)@ == (CoreView {
                pool: RelayPoolView {
                    relays: all_connecting(old(self)@.pool.relays),
                    ..old(self)@.pool
                },
                ..old(self)@
            }),
            actions_view(actions@) == dials(old(self)@.pool.relays),
    {
        self.relay_pool.connect_all()
    }

    /// Starts a session with the relay at `url`.
    pub fn connect_relay(&mut self, url: &str) -> (actions: Vec<PoolAction>)
        requires
            old(self).wf(),
        ensures
            final(self).wf(),
            final(self)@ == (CoreView { pool: old(self)@.pool.connect(url@).pool, ..old(self)@ }),
            actions_view(actions@) == old(self)@.pool.connect(url@).actions,
    {
        self.relay_pool.connect_relay(url)
    }

    /// Takes the end of the handshake with the relay at `url`; on success
    /// the relay is asked with the current filter set, if there is one.
    pub fn handshake_done(&mut self, url: &str, success: bool) -> (actions: Vec<PoolAction>)
        requires
            old(self).wf(),
        ensures
            final(self).wf(),
            final(self)@ == (CoreView {
                pool: old(self)@.pool.handshake(
                    url@,
                    success,
                    channel_id(final(self)@.pool.subscription.channels, url@),
                ).pool,
                ..old(self)@
            }),
            actions_view(actions@) == old(self)@.pool.handshake(
                url@,
                success,
                channel_id(final(self)@.pool.subscription.channels, url@),
            ).actions,
    {
        self.relay_pool.handshake_done(url, success)
    }

    /// Ends the session with the relay at `url`.
    pub fn disconnect_relay(&mut self, url: &str) -> (actions: Vec<PoolAction>)
        requires
            old(self).wf(),
        ensures
            final(self).wf(),
            final(self)@ == (CoreView {
                pool: old(self)@.pool.disconnect(url@).pool,
                ..old(self)@
            }),
            actions_view(actions@) == old(self)@.pool.disconnect(url@).actions,
    {
        self.relay_pool.disconnect_relay(url)
    }

    /// Puts a contact into the configuration and hands back what is to be
    /// written. Whether it was written is to be reported with
    /// `contact_added`; what is in memory stays as it is either way.
    pub fn add_contact(&mut self, contact: Contact) -> (snapshot: Config)
        requires
            old(self).wf(),
        ensures
            final(self).wf(),
            final(self)@ == (CoreView {
                config: ConfigView {
                    contacts: contacts_with(old(self)@.config.contacts, contact@),
                    ..old(self)@.config
                },
                ..old(self)@
            }),
            final(self)@.config.has_contact(contact@.pk),
            snapshot@ == final(self)@.config,
    {
        proof {
            lemma_contacts_with(self@.config.contacts, contact@);
        }
        self.config.add_contact(contact)
    }

    /// Takes the report on the writing of a contact that was added. If it
    /// was not written, or if the configuration does not hold the contact,
    /// this fails and changes nothing. Else the contact gets an empty
    /// conversation, in place of the one it had if it had one, and the
    /// relays are given the filter set that follows from the contacts.
    pub fn contact_added(&mut self, contact: Contact, saved: bool) -> (result: Result<
        Vec<PoolAction>,
        CoreTaskHandleError,
    >)
        requires
            old(self).wf(),
        ensures
            final(self).wf(),
            result.is_ok() == (saved && old(self)@.config.has_contact(contact@.pk)),
            result.is_err() ==> result == Err::<Vec<PoolAction>, CoreTaskHandleError>(
                CoreTaskHandleError::AddContactFailed,
            ) && final(self)@ == old(self)@,
            result.is_ok() ==> {
                &&& final(self)@.subscribed()
                &&& final(self)@.config == old(self)@.config
                &&& final(self)@.user == old(self)@.user
                &&& final(self)@.conversations == conversations_with(
                    old(self)@.conversations,
                    ConversationView { contact: contact@, messages: Seq::empty() },
                )
                &&& final(self)@.pool.relays == old(self)@.pool.relays
                &&& final(self)@.pool.cache == old(self)@.pool.cache
                &&& actions_view(result.unwrap()@) == resubscribe_actions(
                    old(self)@.pool.relays,
                    old(self)@.pool.subscription.channels,
                    final(self)@.pool.subscription.channels,
                    old(self)@.filters(),
                )
                &&& final(self)@.covers(contact@.pk)
            },
    {
        if !saved || !self.config.has_contact(&contact.pk) {
            return Err(CoreTaskHandleError::AddContactFailed);
        }
        let ghost before = self@;
        let conv = Conversation::new(contact);
        proof {
            crate::conversations::lemma_conversations_with(before.conversations, conv@);
        }
        self.conversations.add_conv(conv);
        let actions = self.subscribe();
        proof {
            lemma_contacts_are_covered(self@, contact@.pk);
        }
        Ok(actions)
    }

    /// Removes a contact: the events that it wrote or that name it leave the
    /// cache, its conversation and its entry in the configuration are taken
    /// out, and the relays are given the filter set that follows from the
    /// contacts that are left. Hands back what is to be written and what is
    /// to be done on sockets.
    pub fn remove_contact(&mut self, contact: &Contact) -> (result: (Config, Vec<PoolAction>))
        requires
            old(self).wf(),
        ensures
            final(self).wf(),
            final(self)@.subscribed(),
            final(self)@.user == old(self)@.user,
            final(self)@.config == (ConfigView {
                contacts: contacts_without(old(self)@.config.contacts, contact@.pk),
                ..old(self)@.config
            }),
            !final(self)@.config.has_contact(contact@.pk),
            final(self)@.conversations == conversations_without(
                old(self)@.conversations,
                contact@.pk,
            ),
            final(self)@.pool.relays == old(self)@.pool.relays,
            final(self)@.pool.cache == cache_purged(old(self)@.pool.cache, contact@.pk),
            result.0@ == final(self)@.config,
            actions_view(result.1@) == resubscribe_actions(
                old(self)@.pool.relays,
                old(self)@.pool.subscription.channels,
                final(self)@.pool.subscription.channels,
                final(self)@.filters(),
            ),
    {
        let ghost before = self@;
        proof {
            lemma_contacts_without(before.config.contacts, contact@.pk);
            crate::conversations::lemma_conversations_without(before.conversations, contact@.pk);
        }
        self.relay_pool.remove_contact_events(&contact.pk);
        self.conversations.remove_conv(&contact.pk);
        let snapshot = self.config.remove_contact(contact);
        let actions = self.subscribe();
        (snapshot, actions)
    }

    /// Takes an event that the pool handed on: the conversations take it in,
    /// and the listeners are told of the message if it gave one. An event
    /// that gives no message is dropped.
    fn handle_notification(&mut self, notification: RelayPoolNotifications) -> (told: Option<
        ConvsNotifications,
    >)
        requires
            old(self).wf(),
            notified_event(Some(notification)).unwrap().valid(),
        ensures
            final(self).wf(),
            final(self)@ == (CoreView {
                conversations: ingested(
                    old(self)@.conversations,
                    notified_event(Some(notification)).unwrap(),
                    old(self)@.user,
                ),
                ..old(self)@
            }),
            told_of(told) == match read_event(
                old(self)@.conversations,
                notified_event(Some(notification)).unwrap(),
                old(self)@.user,
            ) {
                Ok(pair) => Some(pair),
                Err(_) => None,
            },
    {
        match notification {
            RelayPoolNotifications::ReceivedEvent { ev } => {
                proof {
                    lemma_ingested_valid(self@.conversations, ev@, self@.user);
                }
                match self.conversations.try_add_message_from_ev(ev, &self.user) {
                    Ok(told) => Some(told),
                    Err(_) => None,
                }
            },
        }
    }

    /// Takes one step of the pool's loop and what follows from it. An event
    /// that a relay delivered is handed on once, the first time it comes,
    /// and only if it is valid; the conversations then take it in, and the
    /// listeners are told of the message if it gave one.
    pub fn handle_relay_event(&mut self, ev: RelayPoolEv) -> (told: Option<ConvsNotifications>)
        requires
            old(self).wf(),
        ensures
            final(self).wf(),
            final(self)@ == old(self)@.delivered(ev@),
            told_of(told) == old(self)@.told(ev@),
    {
        match self.relay_pool.handle_message(ev) {
            Some(notification) => self.handle_notification(notification),
            None => None,
        }
    }

    /// Sends `content` to the contact whose key reads from `contact_pk`: an
    /// encrypted direct message is built and signed, the conversation with
    /// the contact takes it in, and it is published to every connected
    /// relay. A key that does not read, and a message that cannot be built,
    /// fail as `InvalidRecipient`; a recipient who is no contact fails as
    /// `MessageRefused`. A failure changes nothing.
    pub fn send_msg_to_contact(&mut self, contact_pk: &str, content: &str) -> (result: Result<
        (ConvsNotifications, Vec<PoolAction>),
        CoreTaskHandleError,
    >)
        requires
            old(self).wf(),
        ensures
            final(self).wf(),
            result.is_err() ==> final(self)@ == old(self)@,
            parsed_public_key(contact_pk@).is_none() ==> result == Err::<
                (ConvsNotifications, Vec<PoolAction>),
                CoreTaskHandleError,
            >(CoreTaskHandleError::InvalidRecipient),
            match result {
                Ok((ConvsNotifications::NewMessage { peer, message, alert }, actions)) => {
                    &&& parsed_public_key(contact_pk@) == Some(peer@)
                    &&& conversation_keys(old(self)@.conversations).contains(peer@)
                    &&& message@.source == MessageSource::Me
                    &&& message@.content == content@
                    &&& !alert
                    &&& message@.ev.valid()
                    &&& message@.ev.pubkey == old(self)@.user.public_key
                    &&& message@.ev.tagged_key() == Some(peer@)
                    &&& decrypted_content(
                        old(self)@.user.secret_key,
                        peer@,
                        message@.ev.content,
                    ) == Some(content@)
                    &&& final(self)@ == (CoreView {
                        conversations: ingested(
                            old(self)@.conversations,
                            message@.ev,
                            old(self)@.user,
                        ),
                        pool: old(self)@.pool.publish(message@.ev).pool,
                        ..old(self)@
                    })
                    &&& read_event(old(self)@.conversations, message@.ev, old(self)@.user) == Ok::<
                        (Seq<u8>, MessageView),
                        ConversationsError,
                    >((peer@, message@))
                    &&& actions_view(actions@) == old(self)@.pool.publish(message@.ev).actions
                },
                Err(CoreTaskHandleError::InvalidRecipient) => true,
                Err(CoreTaskHandleError::MessageRefused(e)) => e
                    == ConversationsError::UnknownConversation && match parsed_public_key(
                    contact_pk@,
                ) {
                    Some(peer) => !conversation_keys(old(self)@.conversations).contains(peer),
                    None => false,
                },
                Err(_) => false,
            },
    {
        let peer = match PublicKey::parse(contact_pk) {
            Some(peer) => peer,
            None => {
                return Err(CoreTaskHandleError::InvalidRecipient);
            },
        };
        let ev = match Event::new_encrypted_direct_msg(&self.user, &peer, content) {
            Some(ev) => ev,
            None => {
                return Err(CoreTaskHandleError::InvalidRecipient);
            },
        };
        proof {
            lemma_ingested_valid(self@.conversations, ev@, self@.user);
        }
        let told = match self.conversations.try_add_message_from_ev(ev.clone(), &self.user) {
            Ok(told) => told,
            Err(e) => {
                return Err(CoreTaskHandleError::MessageRefused(e));
            },
        };
        let actions = self.relay_pool.send_ev(ev);
        Ok((told, actions))
    }

    /// Replaces the identity by the one that the secret key in `sk` gives,
    /// and gives the relays the filter set that follows from it. Text that
    /// is no secret key leaves the identity as it was.
    pub fn import_user_sk(&mut self, sk: &str) -> (actions: Vec<PoolAction>)
        requires
            old(self).wf(),
        ensures
            final(self).wf(),
            final(self)@.subscribed(),
            final(self)@.user == imported_identity(old(self)@.user, sk@),
            old(self)@.user.paired() ==> final(self)@.user.paired(),
            final(self)@.config == old(self)@.config,
            final(self)@.conversations == old(self)@.conversations,
            final(self)@.pool.relays == old(self)@.pool.relays,
            final(self)@.pool.cache == old(self)@.pool.cache,
            actions_view(actions@) == resubscribe_actions(
                old(self)@.pool.relays,
                old(self)@.pool.subscription.channels,
                final(self)@.pool.subscription.channels,
                final(self)@.filters(),
            ),
    {
        self.user.import_sk(sk);
        self.subscribe()
    }

    /// Replaces the identity by a fresh one, and gives the relays the filter
    /// set that follows from it.
    pub fn gen_new_user_keypair(&mut self) -> (actions: Vec<PoolAction>)
        requires
            old(self).wf(),
        ensures
            final(self).wf(),
            final(self)@.subscribed(),
            final(self)@.user.paired(),
            final(self)@.config == old(self)@.config,
            final(self)@.conversations == old(self)@.conversations,
            final(self)@.pool.relays == old(self)@.pool.relays,
            final(self)@.pool.cache == old(self)@.pool.cache,
            actions_view(actions@) == resubscribe_actions(
                old(self)@.pool.relays,
                old(self)@.pool.subscription.channels,
                final(self)@.pool.subscription.channels,
                final(self)@.filters(),
            ),
    {
        self.user = User::new();
        self.subscribe()
    }
}

} // verus!
