//! What the user subscribes to: the filter set, which follows from the
//! contacts and the user's key, and the channel under which each relay was
//! asked.

use vstd::prelude::*;
use crate::config::{contact_keys, contacts_view, Contact, ContactView};
use crate::event::KIND_ENCRYPTED_DIRECT_MESSAGE;
use crate::keys::PublicKey;
use crate::lists::{lemma_index_of_unique, lemma_push_new_key, lemma_remove_key};

verus! {

/// A filter as mathematical values.
pub struct FilterView {
    pub authors: Seq<Seq<u8>>,
    pub kind: u16,
    pub pubkey: Seq<u8>,
}

/// A request for events: written by one of `authors`, of kind `kind`, and
/// tagged with the key `pubkey`.
#[derive(Debug)]
pub struct Filter {
    pub authors: Vec<PublicKey>,
    pub kind: u16,
    pub pubkey: PublicKey,
}

/// The keys of a list, as byte strings.
pub open spec fn keys_view(keys: Seq<PublicKey>) -> Seq<Seq<u8>> {
    keys.map_values(|k: PublicKey| k@)
}

impl View for Filter {
    type V = FilterView;

    open spec fn view(&self) -> FilterView {
        FilterView { authors: keys_view(self.authors@), kind: self.kind, pubkey: self.pubkey@ }
    }
}

/// The views of a list of filters.
pub open spec fn filters_view(list: Seq<Filter>) -> Seq<FilterView> {
    list.map_values(|f: Filter| f@)
}

fn clone_keys(keys: &Vec<PublicKey>) -> (copy: Vec<PublicKey>)
    ensures
        keys_view(copy@) == keys_view(keys@),
{
    let mut copy: Vec<PublicKey> = Vec::new();
    let mut i: usize = 0;
    while i < keys.len()
        invariant
            i <= keys.len(),
            copy@.len() == i,
            forall|j: int| 0 <= j < i ==> copy@[j]@ == keys@[j]@,
        decreases keys.len() - i,
    {
        copy.push(keys[i]);
        i += 1;
    }
    copy
}

impl Clone for Filter {
    fn clone(&self) -> (copy: Self)
        ensures
            copy@ == self@,
    {
        Filter { authors: clone_keys(&self.authors), kind: self.kind, pubkey: self.pubkey }
    }
}

/// Copies a list of filters.
pub fn clone_filters(list: &Vec<Filter>) -> (copy: Vec<Filter>)
    ensures
        filters_view(copy@) == filters_view(list@),
{
    let mut copy: Vec<Filter> = Vec::new();
    let mut i: usize = 0;
    while i < list.len()
        invariant
            i <= list.len(),
            copy@.len() == i,
            forall|j: int| 0 <= j < i ==> copy@[j]@ == list@[j]@,
        decreases list.len() - i,
    {
        copy.push(list[i].clone());
        i += 1;
    }
    copy
}

/// The filter for what one contact receives from the user: direct messages
/// written by `me` and tagged with the contact's key.
pub open spec fn outgoing_filter(me: Seq<u8>, contact: ContactView) -> FilterView {
    FilterView { authors: seq![me], kind: KIND_ENCRYPTED_DIRECT_MESSAGE, pubkey: contact.pk }
}

/// The filter for what the user receives: direct messages written by any
/// contact and tagged with the user's key.
pub open spec fn incoming_filter(contacts: Seq<ContactView>, me: Seq<u8>) -> FilterView {
    FilterView { authors: contact_keys(contacts), kind: KIND_ENCRYPTED_DIRECT_MESSAGE, pubkey: me }
}

/// The filter set for a list of contacts and the user's key: the incoming
/// filter, then one outgoing filter for each contact, in the contacts'
/// order. Tags are matched one way only, hence the two directions.
pub open spec fn filter_set(contacts: Seq<ContactView>, me: Seq<u8>) -> Seq<FilterView> {
    seq![incoming_filter(contacts, me)] + contacts.map_values(
        |c: ContactView| outgoing_filter(me, c),
    )
}

/// Every contact is covered in both directions: the filter set holds a
/// filter for events that the user wrote and tagged with the contact's key,
/// and a filter tagged with the user's key that has the contact among its
/// authors.
pub proof fn lemma_filter_set_covers(contacts: Seq<ContactView>, me: Seq<u8>, pk: Seq<u8>)
    requires
        contact_keys(contacts).contains(pk),
    ensures
        exists|i: int|
            0 <= i < filter_set(contacts, me).len() && (#[trigger] filter_set(
                contacts,
                me,
            )[i]).pubkey == pk && filter_set(contacts, me)[i].authors == seq![me] && filter_set(
                contacts,
                me,
            )[i].kind == KIND_ENCRYPTED_DIRECT_MESSAGE,
        exists|i: int|
            0 <= i < filter_set(contacts, me).len() && (#[trigger] filter_set(
                contacts,
                me,
            )[i]).pubkey == me && filter_set(contacts, me)[i].authors.contains(pk) && filter_set(
                contacts,
                me,
            )[i].kind == KIND_ENCRYPTED_DIRECT_MESSAGE,
{
    let set = filter_set(contacts, me);
    let at = contact_keys(contacts).index_of(pk);
    assert(set[at + 1] == outgoing_filter(me, contacts[at]));
    assert(set[0] == incoming_filter(contacts, me));
}

/// Builds the filter set for the given contacts and the user's key.
pub fn rebuild_filters(contacts: &Vec<Contact>, me: &PublicKey) -> (filters: Vec<Filter>)
    ensures
        filters_view(filters@) == filter_set(contacts_view(contacts@), me@),
{
    let mut authors: Vec<PublicKey> = Vec::new();
    let mut i: usize = 0;
    while i < contacts.len()
        invariant
            i <= contacts.len(),
            authors@.len() == i,
            forall|j: int| 0 <= j < i ==> authors@[j]@ == contacts@[j]@.pk,
        decreases contacts.len() - i,
    {
        authors.push(contacts[i].pk);
        i += 1;
    }
    assert(keys_view(authors@) =~= contact_keys(contacts_view(contacts@)));
    let mut filters: Vec<Filter> = Vec::new();
    filters.push(Filter { authors, kind: KIND_ENCRYPTED_DIRECT_MESSAGE, pubkey: *me });
    let mut k: usize = 0;
    while k < contacts.len()
        invariant
            k <= contacts.len(),
            filters@.len() == k + 1,
            filters@[0]@ == incoming_filter(contacts_view(contacts@), me@),
            forall|j: int| 0 <= j < k ==> filters@[j + 1]@ == outgoing_filter(me@, contacts@[j]@),
        decreases contacts.len() - k,
    {
        let mut author: Vec<PublicKey> = Vec::new();
        author.push(*me);
        assert(keys_view(author@) =~= seq![me@]);
        filters.push(
            Filter { authors: author, kind: KIND_ENCRYPTED_DIRECT_MESSAGE, pubkey: contacts[k].pk },
        );
        k += 1;
    }
    filters
}

/// A channel as mathematical values.
pub struct ChannelView {
    pub relay_url: Seq<char>,
    pub id: Seq<char>,
}

/// The token under which one relay was asked for events, and under which the
/// request is cancelled later.
#[derive(Debug)]
pub struct Channel {
    pub relay_url: String,
    pub id: String,
}

impl View for Channel {
    type V = ChannelView;

    open spec fn view(&self) -> ChannelView {
        ChannelView { relay_url: self.relay_url@, id: self.id@ }
    }
}

impl Clone for Channel {
    fn clone(&self) -> (copy: Self)
        ensures
            copy@ == self@,
    {
        Channel { relay_url: self.relay_url.clone(), id: self.id.clone() }
    }
}

/// `uuid::Uuid::new_v4`, written as text: a random identifier. Nothing is
/// promised of it.
#[verifier::external_body]
fn fresh_channel_id() -> (id: String) {
    uuid::Uuid::new_v4().to_string()
}

impl Channel {
    /// A channel for `relay_url` with a fresh random identifier.
    pub fn new(relay_url: &str) -> (channel: Channel)
        ensures
            channel@.relay_url == relay_url@,
    {
        Channel { id: fresh_channel_id(), relay_url: relay_url.to_owned() }
    }

    /// A channel for `relay_url` with the identifier given.
    pub fn with_id(relay_url: &str, id: String) -> (channel: Channel)
        ensures
            channel@ == (ChannelView { relay_url: relay_url@, id: id@ }),
    {
        Channel { id, relay_url: relay_url.to_owned() }
    }
}

/// The views of a list of channels.
pub open spec fn channels_view(list: Seq<Channel>) -> Seq<ChannelView> {
    list.map_values(|c: Channel| c@)
}

/// The relay addresses of a list of channels, in the list's order.
pub open spec fn channel_urls(list: Seq<ChannelView>) -> Seq<Seq<char>> {
    list.map_values(|c: ChannelView| c.relay_url)
}

/// The channel of relay `url`, if the list holds one.
pub open spec fn channel_of(list: Seq<ChannelView>, url: Seq<char>) -> Option<ChannelView> {
    let urls = channel_urls(list);
    if urls.contains(url) {
        Some(list[urls.index_of(url)])
    } else {
        None
    }
}

/// The list with `channel` in it: in place of the channel of the same relay
/// where there is one, else at the end.
pub open spec fn channels_with(list: Seq<ChannelView>, channel: ChannelView) -> Seq<ChannelView> {
    let urls = channel_urls(list);
    if urls.contains(channel.relay_url) {
        list.update(urls.index_of(channel.relay_url), channel)
    } else {
        list.push(channel)
    }
}

/// The list without the channel of relay `url`.
pub open spec fn channels_without(list: Seq<ChannelView>, url: Seq<char>) -> Seq<ChannelView> {
    let urls = channel_urls(list);
    if urls.contains(url) {
        list.remove(urls.index_of(url))
    } else {
        list
    }
}

/// After a channel is put in, its relay has exactly that channel, the other
/// relays have what they had, and no relay has two.
pub proof fn lemma_channels_with(list: Seq<ChannelView>, channel: ChannelView)
    requires
        channel_urls(list).no_duplicates(),
    ensures
        channel_urls(channels_with(list, channel)).no_duplicates(),
        channel_of(channels_with(list, channel), channel.relay_url) == Some(channel),
        forall|url: Seq<char>|
            url != channel.relay_url ==> channel_of(channels_with(list, channel), url)
                == channel_of(list, url),
{
    let urls = channel_urls(list);
    let after = channels_with(list, channel);
    if urls.contains(channel.relay_url) {
        assert(channel_urls(after) =~= urls);
    } else {
        assert(channel_urls(after) =~= urls.push(channel.relay_url));
        lemma_push_new_key(urls, channel.relay_url);
        lemma_index_of_unique(channel_urls(after), urls.len() as int);
        assert forall|url: Seq<char>| url != channel.relay_url implies channel_of(after, url)
            == channel_of(list, url) by {
            if urls.contains(url) {
                let j = urls.index_of(url);
                lemma_index_of_unique(channel_urls(after), j);
            }
        }
    }
}

/// After a relay's channel is taken out, the relay has none, the other
/// relays have what they had, and no relay has two.
pub proof fn lemma_channels_without(list: Seq<ChannelView>, gone: Seq<char>)
    requires
        channel_urls(list).no_duplicates(),
    ensures
        channel_urls(channels_without(list, gone)).no_duplicates(),
        channel_of(channels_without(list, gone), gone).is_none(),
        forall|url: Seq<char>|
            url != gone ==> channel_of(channels_without(list, gone), url) == channel_of(list, url),
{
    let urls = channel_urls(list);
    let after = channels_without(list, gone);
    if urls.contains(gone) {
        let i = urls.index_of(gone);
        assert(channel_urls(after) =~= urls.remove(i));
        lemma_remove_key(urls, i);
        assert forall|url: Seq<char>| url != gone implies channel_of(after, url) == channel_of(
            list,
            url,
        ) by {
            if urls.contains(url) {
                let j = urls.index_of(url);
                let j1 = if j < i {
                    j
                } else {
                    j - 1
                };
                lemma_index_of_unique(channel_urls(after), j1);
            }
        }
    }
}

/// A subscription as mathematical values.
pub struct SubscriptionView {
    pub filters: Seq<FilterView>,
    pub established: bool,
    pub channels: Seq<ChannelView>,
}

impl SubscriptionView {
    /// No relay has two channels.
    pub open spec fn wf(self) -> bool {
        channel_urls(self.channels).no_duplicates()
    }

    /// The channel under which relay `url` was asked, if it was.
    pub open spec fn channel(self, url: Seq<char>) -> Option<ChannelView> {
        channel_of(self.channels, url)
    }
}

/// The current filter set and, for each relay that was asked, the channel
/// under which it was asked.
pub struct Subscription {
    filters: Vec<Filter>,
    established: bool,
    channels: Vec<Channel>,
}

impl View for Subscription {
    type V = SubscriptionView;

    closed spec fn view(&self) -> SubscriptionView {
        SubscriptionView {
            filters: filters_view(self.filters@),
            established: self.established,
            channels: channels_view(self.channels@),
        }
    }
}

/// The view of an optional channel.
pub open spec fn channel_view(channel: Option<Channel>) -> Option<ChannelView> {
    match channel {
        Some(c) => Some(c@),
        None => None,
    }
}

impl Subscription {
    /// No relay has two channels.
    pub open spec fn wf(&self) -> bool {
        self@.wf()
    }

    /// No filter set yet, and no channel.
    pub fn new() -> (subscription: Subscription)
        ensures
            subscription.wf(),
            subscription@.filters == Seq::<FilterView>::empty(),
            !subscription@.established,
            subscription@.channels == Seq::<ChannelView>::empty(),
    {
        Subscription {
            filters: Vec::new(),
            established: false,
            channels: Vec::new(),
        }
    }

    /// Makes `filters` the current filter set.
    pub fn update_filters(&mut self, filters: Vec<Filter>)
        ensures
            final(self)@ == (SubscriptionView {
                filters: filters_view(filters@),
                established: true,
                channels: old(self)@.channels,
            }),
    {
        self.filters = filters;
        self.established = true;
    }

    /// A copy of the current filter set.
    pub fn get_filters(&self) -> (filters: Vec<Filter>)
        ensures
            filters_view(filters@) == self@.filters,
    {
        clone_filters(&self.filters)
    }

    /// Tells whether a filter set was given.
    pub fn is_established(&self) -> (yes: bool)
        ensures
            yes == self@.established,
    {
        self.established
    }

    fn position(&self, relay_url: &String) -> (at: Option<usize>)
        ensures
            match at {
                Some(i) => i < self@.channels.len() && channel_urls(self@.channels)[i as int]
                    == relay_url@,
                None => !channel_urls(self@.channels).contains(relay_url@),
            },
    {
        let mut i: usize = 0;
        while i < self.channels.len()
            invariant
                i <= self.channels.len(),
                forall|j: int| 0 <= j < i ==> channel_urls(self@.channels)[j] != relay_url@,
            decreases self.channels.len() - i,
        {
            if self.channels[i].relay_url == *relay_url {
                return Some(i);
            }
            i += 1;
        }
        None
    }

    /// The channel under which relay `relay_url` was asked, if it was.
    pub fn get_channel(&self, relay_url: &str) -> (channel: Option<Channel>)
        requires
            self.wf(),
        ensures
            channel_view(channel) == self@.channel(relay_url@),
    {
        let url: String = relay_url.to_owned();
        match self.position(&url) {
            Some(i) => {
                proof {
                    lemma_index_of_unique(channel_urls(self@.channels), i as int);
                }
                Some(self.channels[i].clone())
            },
            None => None,
        }
    }

    /// Records `channel` as the channel of its relay and hands back the one
    /// it takes the place of.
    pub fn add_channel(&mut self, channel: Channel) -> (superseded: Option<Channel>)
        requires
            old(self).wf(),
        ensures
            final(self).wf(),
            final(self)@.channels == channels_with(old(self)@.channels, channel@),
            final(self)@.filters == old(self)@.filters,
            final(self)@.established == old(self)@.established,
            channel_view(superseded) == old(self)@.channel(channel@.relay_url),
            final(self)@.channel(channel@.relay_url) == Some(channel@),
    {
        proof {
            lemma_channels_with(self@.channels, channel@);
        }
        let ghost before = self@.channels;
        match self.position(&channel.relay_url) {
            Some(i) => {
                proof {
                    lemma_index_of_unique(channel_urls(before), i as int);
                }
                let mut previous = channel;
                std::mem::swap(&mut self.channels[i], &mut previous);
                assert(self@.channels =~= before.update(i as int, channel@));
                Some(previous)
            },
            None => {
                self.channels.push(channel);
                assert(self@.channels =~= before.push(channel@));
                None
            },
        }
    }

    /// Forgets the channel of relay `relay_url` and hands it back.
    pub fn remove_channel(&mut self, relay_url: &str) -> (removed: Option<Channel>)
        requires
            old(self).wf(),
        ensures
            final(self).wf(),
            final(self)@.channels == channels_without(old(self)@.channels, relay_url@),
            final(self)@.filters == old(self)@.filters,
            final(self)@.established == old(self)@.established,
            channel_view(removed) == old(self)@.channel(relay_url@),
            final(self)@.channel(relay_url@).is_none(),
    {
        proof {
            lemma_channels_without(self@.channels, relay_url@);
        }
        let ghost before = self@.channels;
        let url: String = relay_url.to_owned();
        match self.position(&url) {
            Some(i) => {
                proof {
                    lemma_index_of_unique(channel_urls(before), i as int);
                }
                let removed = self.channels.remove(i);
                assert(self@.channels =~= before.remove(i as int));
                Some(removed)
            },
            None => None,
        }
    }
}

} // verus!
