//! The relay pool: the set of relays with the state of each session, the
//! channel under which each connected relay is asked for events, and the
//! cache of events that were seen. Every operation changes that state and
//! hands back what the caller is to do on the sockets.

use vstd::prelude::*;
use crate::event::{Event, EventView};
use crate::keys::PublicKey;
use crate::lists::lemma_index_of_unique;
use crate::message::{ClientMessage, ClientMessageView};
use crate::pool_model::{
    all_connecting, channel_id, dials, farewell, hang_up_if_open, lemma_all_connecting,
    lemma_connect, lemma_dialled, lemma_disconnect, lemma_handshake, lemma_local_change, lemma_resubscribe_done, lemma_resubscribe_skip,
    lemma_resubscribe_step, lemma_with_status, request, resubscribe_actions,
    resubscribed_so_far, sends_to_connected, PoolActionView, RelayPoolView,
};
use crate::pool_task::{
    cache_purged, emitted_by, notified_event, RelayPoolEv, RelayPoolNotifications, RelayPoolTask,
};
use crate::relay::{
    clone_relays, is_relay_url, lemma_relays_with, lemma_relays_without, position_of_relay,
    relay_url_ok, relay_urls, relays_view, Relay, RelayStatus, RelayView,
};
use crate::subscription::{
    channel_of, channel_view, filters_view, lemma_channels_with, lemma_channels_without, Channel,
    ChannelView, Filter, FilterView, Subscription,
};

verus! {

/// What the caller is to do on a relay's socket: open it and report the end
/// of the handshake, put a message in the relay's queue, or close it.
#[derive(Debug)]
pub enum PoolAction {
    Dial { relay_url: String },
    Send { relay_url: String, message: ClientMessage },
    HangUp { relay_url: String },
}

impl View for PoolAction {
    type V = PoolActionView;

    open spec fn view(&self) -> PoolActionView {
        match self {
            PoolAction::Dial { relay_url } => PoolActionView::Dial { relay_url: relay_url@ },
            PoolAction::Send { relay_url, message } => PoolActionView::Send {
                relay_url: relay_url@,
                message: message@,
            },
            PoolAction::HangUp { relay_url } => PoolActionView::HangUp { relay_url: relay_url@ },
        }
    }
}

/// The views of a list of actions.
pub open spec fn actions_view(list: Seq<PoolAction>) -> Seq<PoolActionView> {
    list.map_values(|a: PoolAction| a@)
}

/// The set of relays and the subscription.
pub struct RelayPool {
    relays: Vec<Relay>,
    subscription: Subscription,
    task: RelayPoolTask,
}

impl View for RelayPool {
    type V = RelayPoolView;

    closed spec fn view(&self) -> RelayPoolView {
        RelayPoolView {
            relays: relays_view(self.relays@),
            subscription: self.subscription@,
            cache: self.task@,
        }
    }
}

impl RelayPool {
    /// The pool is well formed.
    pub open spec fn wf(&self) -> bool {
        self@.wf()
    }

    /// A pool without relays and without a filter set.
    pub fn new() -> (pool: RelayPool)
        ensures
            pool.wf(),
            pool@.addresses_ok(),
            pool@.relays == Seq::<RelayView>::empty(),
            pool@.subscription.filters == Seq::<FilterView>::empty(),
            !pool@.subscription.established,
            pool@.subscription.channels == Seq::<ChannelView>::empty(),
            pool@.cache == Seq::<EventView>::empty(),
    {
        RelayPool {
            relays: Vec::new(),
            subscription: Subscription::new(),
            task: RelayPoolTask::new(),
        }
    }

    fn hang_up(url: &String, status: RelayStatus) -> (actions: Vec<PoolAction>)
        ensures
            actions_view(actions@) == hang_up_if_open(Some(status), url@),
    {
        let mut actions: Vec<PoolAction> = Vec::new();
        if status != RelayStatus::Disconnected {
            actions.push(PoolAction::HangUp { relay_url: url.clone() });
        }
        actions
    }

    /// Adds the relay at `relay_url`, not connected. Text that is no relay's
    /// address is refused and changes nothing. A relay that stood at the
    /// address is replaced: its channel is forgotten and its socket, if
    /// open, is to be closed.
    pub fn add(&mut self, relay_url: &str) -> (result: (bool, Vec<PoolAction>))
        requires
            old(self).wf(),
        ensures
            final(self).wf(),
            result.0 == relay_url_ok(relay_url@),
            final(self)@ == old(self)@.added(relay_url@),
            actions_view(result.1@) == if result.0 {
                hang_up_if_open(old(self)@.status(relay_url@), relay_url@)
            } else {
                Seq::empty()
            },
            result.0 ==> final(self)@.status(relay_url@) == Some(RelayStatus::Disconnected)
                && final(self)@.channel(relay_url@).is_none(),
            old(self)@.addresses_ok() ==> final(self)@.addresses_ok(),
    {
        if !is_relay_url(relay_url) {
            let none: Vec<PoolAction> = Vec::new();
            return (false, none);
        }
        let url: String = relay_url.to_owned();
        let ghost before = self@;
        let fresh = Relay::new(relay_url);
        proof {
            lemma_relays_with(before.relays, fresh@);
        }
        let actions = match position_of_relay(&self.relays, &url) {
            Some(i) => {
                proof {
                    lemma_index_of_unique(relay_urls(before.relays), i as int);
                }
                let actions = Self::hang_up(&url, self.relays[i].status);
                self.relays[i] = fresh;
                assert(self@.relays =~= before.relays.update(i as int, fresh@));
                actions
            },
            None => {
                self.relays.push(fresh);
                assert(self@.relays =~= before.relays.push(fresh@));
                Vec::new()
            },
        };
        self.subscription.remove_channel(relay_url);
        proof {
            lemma_channels_without(before.subscription.channels, url@);
            lemma_local_change(before, self@, url@);
        }
        (true, actions)
    }

    /// Takes the relay at `relay_url` out of the pool and tells whether
    /// there was one. The pool does not end the session: a relay that is
    /// connected is to be disconnected first.
    pub fn remove(&mut self, relay_url: &str) -> (found: bool)
        requires
            old(self).wf(),
            !old(self)@.connected(relay_url@),
        ensures
            final(self).wf(),
            found == old(self)@.status(relay_url@).is_some(),
            final(self)@ == old(self)@.removed(relay_url@),
            old(self)@.addresses_ok() ==> final(self)@.addresses_ok(),
    {
        let url: String = relay_url.to_owned();
        let ghost before = self@;
        proof {
            lemma_relays_without(before.relays, url@);
            lemma_channels_without(before.subscription.channels, url@);
        }
        let found = match position_of_relay(&self.relays, &url) {
            Some(i) => {
                proof {
                    lemma_index_of_unique(relay_urls(before.relays), i as int);
                }
                self.relays.remove(i);
                assert(self@.relays =~= before.relays.remove(i as int));
                true
            },
            None => false,
        };
        self.subscription.remove_channel(relay_url);
        proof {
            lemma_local_change(before, self@, url@);
        }
        found
    }

    fn set_status(&mut self, at: usize, status: RelayStatus)
        requires
            at < old(self)@.relays.len(),
            relay_urls(old(self)@.relays).no_duplicates(),
        ensures
            final(self)@ == old(self)@.with_status(old(self)@.relays[at as int].url, status),
            final(self)@.status(old(self)@.relays[at as int].url) == Some(status),
    {
        let ghost before = self@;
        proof {
            lemma_index_of_unique(relay_urls(before.relays), at as int);
            lemma_with_status(before.relays, before.relays[at as int].url, status);
        }
        self.relays[at].status = status;
        assert(self@.relays =~= before.relays.update(
            at as int,
            RelayView { url: before.relays[at as int].url, status },
        ));
    }

    /// Starts a session with the relay at `relay_url`.
    pub fn connect_relay(&mut self, relay_url: &str) -> (actions: Vec<PoolAction>)
        requires
            old(self).wf(),
        ensures
            final(self).wf(),
            final(self)@ == old(self)@.connect(relay_url@).pool,
            actions_view(actions@) == old(self)@.connect(relay_url@).actions,
            old(self)@.status(relay_url@) == Some(RelayStatus::Disconnected)
                ==> final(self)@.status(relay_url@) == Some(RelayStatus::Connecting),
            old(self)@.addresses_ok() ==> final(self)@.addresses_ok(),
    {
        proof {
            lemma_connect(self@, relay_url@);
        }
        let url: String = relay_url.to_owned();
        let ghost before = self@;
        let mut actions: Vec<PoolAction> = Vec::new();
        if let Some(i) = position_of_relay(&self.relays, &url) {
            proof {
                lemma_index_of_unique(relay_urls(before.relays), i as int);
            }
            if self.relays[i].status == RelayStatus::Disconnected {
                self.set_status(i, RelayStatus::Connecting);
                actions.push(PoolAction::Dial { relay_url: url });
                proof {
                    lemma_with_status(before.relays, url@, RelayStatus::Connecting);
                    lemma_local_change(before, self@, url@);
                }
            }
        }
        actions
    }

    /// Starts a session with every relay that is not connected.
    pub fn connect_all(&mut self) -> (actions: Vec<PoolAction>)
        requires
            old(self).wf(),
        ensures
            final(self).wf(),
            final(self)@ == (RelayPoolView {
                relays: all_connecting(old(self)@.relays),
                ..old(self)@
            }),
            actions_view(actions@) == dials(old(self)@.relays),
            old(self)@.addresses_ok() ==> final(self)@.addresses_ok(),
    {
        let ghost before = self@;
        let mut actions: Vec<PoolAction> = Vec::new();
        let mut i: usize = 0;
        while i < self.relays.len()
            invariant
                i <= self.relays.len(),
                self@.relays.len() == before.relays.len(),
                self@.subscription == before.subscription,
                self@.cache == before.cache,
                forall|j: int| 0 <= j < i ==> self@.relays[j] == all_connecting(before.relays)[j],
                forall|j: int| i <= j < self@.relays.len() ==> self@.relays[j] == before.relays[j],
                actions_view(actions@) == dials(before.relays.take(i as int)),
            decreases self.relays.len() - i,
        {
            proof {
                let next = before.relays.take(i as int + 1);
                assert(next.drop_last() =~= before.relays.take(i as int));
            }
            if self.relays[i].status == RelayStatus::Disconnected {
                actions.push(PoolAction::Dial { relay_url: self.relays[i].url.clone() });
                self.relays[i].status = RelayStatus::Connecting;
            }
            i += 1;
        }
        proof {
            assert(before.relays.take(i as int) =~= before.relays);
            assert(self@.relays =~= all_connecting(before.relays));
            lemma_all_connecting(before.relays);
            lemma_dialled(before, self@);
        }
        actions
    }

    /// Takes the end of the handshake with the relay at `relay_url`, with
    /// `id` as the identifier of the channel under which the relay is asked
    /// if it is asked.
    pub fn handshake_done_with(&mut self, relay_url: &str, success: bool, id: String) -> (actions:
        Vec<PoolAction>)
        requires
            old(self).wf(),
        ensures
            final(self).wf(),
            final(self)@ == old(self)@.handshake(relay_url@, success, id@).pool,
            actions_view(actions@) == old(self)@.handshake(relay_url@, success, id@).actions,
            old(self)@.status(relay_url@) == Some(RelayStatus::Connecting) && success
                ==> final(self)@.connected(relay_url@),
            old(self)@.addresses_ok() ==> final(self)@.addresses_ok(),
    {
        proof {
            lemma_handshake(self@, relay_url@, success, id@);
        }
        let url: String = relay_url.to_owned();
        let ghost before = self@;
        let mut actions: Vec<PoolAction> = Vec::new();
        let waiting = match position_of_relay(&self.relays, &url) {
            Some(i) => {
                proof {
                    lemma_index_of_unique(relay_urls(before.relays), i as int);
                }
                if self.relays[i].status == RelayStatus::Connecting {
                    Some(i)
                } else {
                    None
                }
            },
            None => None,
        };
        match waiting {
            Some(i) => {
                if !success {
                    self.set_status(i, RelayStatus::Disconnected);
                    proof {
                        lemma_with_status(before.relays, url@, RelayStatus::Disconnected);
                        lemma_local_change(before, self@, url@);
                    }
                } else {
                    self.set_status(i, RelayStatus::Connected);
                    proof {
                        lemma_with_status(before.relays, url@, RelayStatus::Connected);
                    }
                    if self.subscription.is_established() {
                        let ghost channels = self@.subscription.channels;
                        let request_id = id.clone();
                        self.subscription.add_channel(Channel::with_id(relay_url, id));
                        actions.push(
                            PoolAction::Send {
                                relay_url: url,
                                message: ClientMessage::Req {
                                    subscription_id: request_id,
                                    filters: self.subscription.get_filters(),
                                },
                            },
                        );
                        proof {
                            lemma_channels_with(
                                channels,
                                ChannelView { relay_url: url@, id: id@ },
                            );
                        }
                    }
                    proof {
                        lemma_local_change(before, self@, url@);
                    }
                }
            },
            None => {
                if success {
                    actions.push(PoolAction::HangUp { relay_url: url });
                }
            },
        }
        actions
    }

    /// Takes the end of the handshake with the relay at `relay_url`. A relay
    /// that was connecting is connected on success and, where a filter set
    /// was given, asked for events under a fresh channel; on failure it is
    /// disconnected again and may be connected anew. A success that nobody
    /// waits for is hung up.
    pub fn handshake_done(&mut self, relay_url: &str, success: bool) -> (actions: Vec<PoolAction>)
        requires
            old(self).wf(),
        ensures
            final(self).wf(),
            final(self)@ == old(self)@.handshake(
                relay_url@,
                success,
                channel_id(final(self)@.subscription.channels, relay_url@),
            ).pool,
            actions_view(actions@) == old(self)@.handshake(
                relay_url@,
                success,
                channel_id(final(self)@.subscription.channels, relay_url@),
            ).actions,
            old(self)@.status(relay_url@) == Some(RelayStatus::Connecting) && success
                ==> final(self)@.connected(relay_url@),
            final(self)@.channel(relay_url@).is_some() <==> final(self)@.subscription.established
                && final(self)@.connected(relay_url@),
            old(self)@.addresses_ok() ==> final(self)@.addresses_ok(),
    {
        let channel = Channel::new(relay_url);
        let ghost before = self@;
        let ghost id = channel@.id;
        let actions = self.handshake_done_with(relay_url, success, channel.id);
        proof {
            if before.status(relay_url@) == Some(RelayStatus::Connecting) && success
                && before.subscription.established {
                lemma_channels_with(
                    before.subscription.channels,
                    ChannelView { relay_url: relay_url@, id },
                );
            }
        }
        actions
    }

    /// Ends the session with the relay at `relay_url`.
    pub fn disconnect_relay(&mut self, relay_url: &str) -> (actions: Vec<PoolAction>)
        requires
            old(self).wf(),
        ensures
            final(self).wf(),
            final(self)@ == old(self)@.disconnect(relay_url@).pool,
            actions_view(actions@) == old(self)@.disconnect(relay_url@).actions,
            !final(self)@.connected(relay_url@),
            final(self)@.channel(relay_url@).is_none(),
            old(self)@.addresses_ok() ==> final(self)@.addresses_ok(),
    {
        proof {
            lemma_disconnect(self@, relay_url@);
        }
        let url: String = relay_url.to_owned();
        let ghost before = self@;
        let mut actions: Vec<PoolAction> = Vec::new();
        if let Some(i) = position_of_relay(&self.relays, &url) {
            proof {
                lemma_index_of_unique(relay_urls(before.relays), i as int);
            }
            if self.relays[i].status != RelayStatus::Disconnected {
                self.set_status(i, RelayStatus::Disconnected);
                if let Some(channel) = self.subscription.remove_channel(relay_url) {
                    actions.push(
                        PoolAction::Send {
                            relay_url: url.clone(),
                            message: ClientMessage::Close(channel.id),
                        },
                    );
                }
                actions.push(PoolAction::HangUp { relay_url: url });
                proof {
                    lemma_with_status(before.relays, url@, RelayStatus::Disconnected);
                    lemma_channels_without(
                        before.subscription.channels,
                        url@,
                    );
                    lemma_local_change(before, self@, url@);
                }
            }
        }
        actions
    }

    /// Takes note that the session with the relay at `relay_url` was lost.
    pub fn relay_disconnected(&mut self, relay_url: &str)
        requires
            old(self).wf(),
        ensures
            final(self).wf(),
            final(self)@ == old(self)@.lost(relay_url@),
            !final(self)@.connected(relay_url@),
            final(self)@.channel(relay_url@).is_none(),
            old(self)@.addresses_ok() ==> final(self)@.addresses_ok(),
    {
        let url: String = relay_url.to_owned();
        let ghost before = self@;
        if let Some(i) = position_of_relay(&self.relays, &url) {
            proof {
                lemma_index_of_unique(relay_urls(before.relays), i as int);
            }
            self.set_status(i, RelayStatus::Disconnected);
        }
        self.subscription.remove_channel(relay_url);
        proof {
            lemma_with_status(before.relays, url@, RelayStatus::Disconnected);
            lemma_channels_without(before.subscription.channels, url@);
            lemma_local_change(before, self@, url@);
        }
    }

    /// Asks the relay at `relay_url` again, under the channel `id`.
    pub fn subscribe_relay_with(&mut self, relay_url: &str, id: String) -> (actions: Vec<
        PoolAction,
    >)
        requires
            old(self).wf(),
        ensures
            final(self).wf(),
            final(self)@ == old(self)@.subscribe(relay_url@, id@).pool,
            actions_view(actions@) == old(self)@.subscribe(relay_url@, id@).actions,
            old(self)@.addresses_ok() ==> final(self)@.addresses_ok(),
    {
        let url: String = relay_url.to_owned();
        let ghost before = self@;
        let mut actions: Vec<PoolAction> = Vec::new();
        if self.status(relay_url) == Some(RelayStatus::Connected)
            && self.subscription.is_established() {
            let request_id = id.clone();
            if let Some(channel) = self.subscription.add_channel(Channel::with_id(relay_url, id)) {
                actions.push(
                    PoolAction::Send {
                        relay_url: url.clone(),
                        message: ClientMessage::Close(channel.id),
                    },
                );
            }
            actions.push(
                PoolAction::Send {
                    relay_url: url,
                    message: ClientMessage::Req {
                        subscription_id: request_id,
                        filters: self.subscription.get_filters(),
                    },
                },
            );
            proof {
                lemma_channels_with(
                    before.subscription.channels,
                    ChannelView { relay_url: url@, id: id@ },
                );
                lemma_local_change(before, self@, url@);
            }
        }
        actions
    }

    /// Asks the relay at `relay_url` again, under a fresh channel.
    pub fn subscribe_relay(&mut self, relay_url: &str) -> (actions: Vec<PoolAction>)
        requires
            old(self).wf(),
        ensures
            final(self).wf(),
            final(self)@ == old(self)@.subscribe(
                relay_url@,
                channel_id(final(self)@.subscription.channels, relay_url@),
            ).pool,
            actions_view(actions@) == old(self)@.subscribe(
                relay_url@,
                channel_id(final(self)@.subscription.channels, relay_url@),
            ).actions,
            old(self)@.addresses_ok() ==> final(self)@.addresses_ok(),
    {
        let channel = Channel::new(relay_url);
        let ghost before = self@;
        let ghost id = channel@.id;
        let actions = self.subscribe_relay_with(relay_url, channel.id);
        proof {
            if before.connected(relay_url@) && before.subscription.established {
                lemma_channels_with(
                    before.subscription.channels,
                    ChannelView { relay_url: relay_url@, id },
                );
            }
        }
        actions
    }

    /// Makes `filters` the current filter set and asks every connected relay
    /// for its events: each gets the cancelling of the channel it had, if it
    /// had one, and the request under a fresh channel. Relays that are not
    /// connected are asked when they connect.
    pub fn start_sub(&mut self, filters: Vec<Filter>) -> (actions: Vec<PoolAction>)
        requires
            old(self).wf(),
        ensures
            final(self).wf(),
            final(self)@.relays == old(self)@.relays,
            final(self)@.cache == old(self)@.cache,
            final(self)@.subscription.filters == filters_view(filters@),
            final(self)@.subscription.established,
            actions_view(actions@) == resubscribe_actions(
                old(self)@.relays,
                old(self)@.subscription.channels,
                final(self)@.subscription.channels,
                filters_view(filters@),
            ),
            forall|url: Seq<char>|
                #![trigger final(self)@.channel(url)]
                final(self)@.channel(url).is_some() <==> final(self)@.connected(url),
            old(self)@.addresses_ok() ==> final(self)@.addresses_ok(),
    {
        let ghost before = self@;
        let ghost wanted = filters_view(filters@);
        self.subscription.update_filters(filters);
        let mut actions: Vec<PoolAction> = Vec::new();
        let mut i: usize = 0;
        proof {
            assert(actions_view(actions@) =~= Seq::<PoolActionView>::empty());
        }
        while i < self.relays.len()
            invariant
                i <= self.relays.len(),
                before.wf(),
                self@.relays == before.relays,
                self@.cache == before.cache,
                self.subscription.wf(),
                self@.subscription.filters == wanted,
                self@.subscription.established,
                resubscribed_so_far(
                    before,
                    self@.subscription.channels,
                    i as int,
                    wanted,
                    actions_view(actions@),
                ),
            decreases self.relays.len() - i,
        {
            let ghost held = self@.subscription.channels;
            let ghost so_far = actions_view(actions@);
            let ghost relay = before.relays[i as int];
            if self.relays[i].status == RelayStatus::Connected {
                let channel = Channel::new(self.relays[i].url.as_str());
                let ghost opened = channel@;
                let request_id = channel.id.clone();
                if let Some(previous) = self.subscription.add_channel(channel) {
                    actions.push(
                        PoolAction::Send {
                            relay_url: self.relays[i].url.clone(),
                            message: ClientMessage::Close(previous.id),
                        },
                    );
                }
                let ghost parting = actions_view(actions@);
                assert(parting =~= so_far + farewell(channel_of(held, relay.url), relay.url));
                actions.push(
                    PoolAction::Send {
                        relay_url: self.relays[i].url.clone(),
                        message: ClientMessage::Req {
                            subscription_id: request_id,
                            filters: self.subscription.get_filters(),
                        },
                    },
                );
                proof {
                    assert(actions_view(actions@) =~= parting.push(
                        request(relay.url, opened.id, wanted),
                    ));
                    lemma_resubscribe_step(before, held, i as int, wanted, so_far, opened);
                }
            } else {
                proof {
                    lemma_resubscribe_skip(before, held, i as int, wanted, so_far);
                }
            }
            i += 1;
        }
        proof {
            lemma_resubscribe_done(
                before,
                self@.subscription.channels,
                wanted,
                actions_view(actions@),
            );
        }
        actions
    }

    /// Publishes an event: records it in the cache and sends it to every
    /// connected relay.
    pub fn send_ev(&mut self, ev: Event) -> (actions: Vec<PoolAction>)
        requires
            old(self).wf(),
        ensures
            final(self).wf(),
            final(self)@ == old(self)@.publish(ev@).pool,
            actions_view(actions@) == old(self)@.publish(ev@).actions,
            old(self)@.addresses_ok() ==> final(self)@.addresses_ok(),
    {
        let ghost before = self@;
        let mut actions: Vec<PoolAction> = Vec::new();
        let mut i: usize = 0;
        while i < self.relays.len()
            invariant
                i <= self.relays.len(),
                self@ == before,
                actions_view(actions@) == sends_to_connected(
                    before.relays.take(i as int),
                    ClientMessageView::Event(ev@),
                ),
            decreases self.relays.len() - i,
        {
            proof {
                let next = before.relays.take(i as int + 1);
                assert(next.drop_last() =~= before.relays.take(i as int));
            }
            if self.relays[i].status == RelayStatus::Connected {
                actions.push(
                    PoolAction::Send {
                        relay_url: self.relays[i].url.clone(),
                        message: ClientMessage::Event(ev.clone()),
                    },
                );
            }
            i += 1;
        }
        assert(before.relays.take(i as int) =~= before.relays);
        self.task.handle_message(RelayPoolEv::EventSent { ev });
        actions
    }

    /// Forgets the events that `key` wrote or that name `key`.
    pub fn remove_contact_events(&mut self, key: &PublicKey)
        requires
            old(self).wf(),
        ensures
            final(self).wf(),
            final(self)@ == (RelayPoolView {
                cache: cache_purged(old(self)@.cache, key@),
                ..old(self)@
            }),
    {
        self.task.handle_message(RelayPoolEv::RemoveContactEvents(*key));
    }

    /// Takes one step of the pool's loop and hands back what the listeners
    /// are to be told. An event that a relay delivered is handed on if it is
    /// valid and was not seen before; an invalid event changes nothing.
    pub fn handle_message(&mut self, msg: RelayPoolEv) -> (notification: Option<
        RelayPoolNotifications,
    >)
        requires
            old(self).wf(),
        ensures
            final(self).wf(),
            final(self)@ == old(self)@.received(msg@),
            notified_event(notification) == emitted_by(old(self)@.cache, msg@),
            old(self)@.addresses_ok() ==> final(self)@.addresses_ok(),
    {
        match msg {
            RelayPoolEv::RelayDisconnected { relay_url } => {
                self.relay_disconnected(relay_url.as_str());
                None
            },
            other => self.task.handle_message(other),
        }
    }

    /// The relays with their states, in the order in which they were added.
    pub fn list_relays(&self) -> (relays: Vec<Relay>)
        ensures
            relays_view(relays@) == self@.relays,
    {
        clone_relays(&self.relays)
    }

    /// A copy of the current filter set.
    pub fn get_filters(&self) -> (filters: Vec<Filter>)
        ensures
            filters_view(filters@) == self@.subscription.filters,
    {
        self.subscription.get_filters()
    }

    /// The state of the relay at `relay_url`, if the pool holds it.
    pub fn status(&self, relay_url: &str) -> (status: Option<RelayStatus>)
        requires
            self.wf(),
        ensures
            status == self@.status(relay_url@),
    {
        let url: String = relay_url.to_owned();
        match position_of_relay(&self.relays, &url) {
            Some(i) => {
                proof {
                    lemma_index_of_unique(relay_urls(self@.relays), i as int);
                }
                Some(self.relays[i].status)
            },
            None => None,
        }
    }

    /// The channel under which the relay at `relay_url` is asked, if it is.
    pub fn channel(&self, relay_url: &str) -> (channel: Option<Channel>)
        requires
            self.wf(),
        ensures
            channel_view(channel) == self@.channel(relay_url@),
    {
        self.subscription.get_channel(relay_url)
    }
}

} // verus!
