//! The relay pool as mathematical values: what each operation leaves and
//! what it asks of the caller, and why the pool stays well formed.

use vstd::prelude::*;
use crate::event::EventView;
use crate::lists::lemma_index_of_unique;
use crate::message::ClientMessageView;
use crate::pool_task::{cache_after, cache_with, event_ids, RelayPoolEvView};
use crate::relay::{
    lemma_relays_with, relay_url_ok, relay_urls, relays_with, relays_with_status, relays_without,
    status_of, RelayStatus, RelayView,
};
use crate::subscription::{
    channel_of, channel_urls, channels_with, channels_without, lemma_channels_with,
    lemma_channels_without, ChannelView, FilterView, SubscriptionView,
};

verus! {

/// An action as mathematical values.
pub enum PoolActionView {
    Dial { relay_url: Seq<char> },
    Send { relay_url: Seq<char>, message: ClientMessageView },
    HangUp { relay_url: Seq<char> },
}

/// The pool as mathematical values.
pub struct RelayPoolView {
    pub relays: Seq<RelayView>,
    pub subscription: SubscriptionView,
    pub cache: Seq<EventView>,
}

/// A step of the pool: the state it leaves and what the caller is to do.
pub struct PoolStep {
    pub pool: RelayPoolView,
    pub actions: Seq<PoolActionView>,
}

/// The message that cancels a channel, for the relay that was asked under it.
pub open spec fn farewell(channel: Option<ChannelView>, url: Seq<char>) -> Seq<PoolActionView> {
    match channel {
        Some(c) => seq![
            PoolActionView::Send { relay_url: url, message: ClientMessageView::Close(c.id) },
        ],
        None => Seq::empty(),
    }
}

/// The identifier of the channel of the relay at `url`; empty where there is
/// none.
pub open spec fn channel_id(channels: Seq<ChannelView>, url: Seq<char>) -> Seq<char> {
    match channel_of(channels, url) {
        Some(c) => c.id,
        None => Seq::empty(),
    }
}

/// The request that asks the relay at `url` for the events of a filter set.
pub open spec fn request(url: Seq<char>, id: Seq<char>, filters: Seq<FilterView>)
    -> PoolActionView {
    PoolActionView::Send {
        relay_url: url,
        message: ClientMessageView::Req { subscription_id: id, filters },
    }
}

/// The action that closes the socket of a relay whose session is open or
/// being opened.
pub open spec fn hang_up_if_open(status: Option<RelayStatus>, url: Seq<char>) -> Seq<
    PoolActionView,
> {
    if status == Some(RelayStatus::Connecting) || status == Some(RelayStatus::Connected) {
        seq![PoolActionView::HangUp { relay_url: url }]
    } else {
        Seq::empty()
    }
}

/// The same message for every connected relay, in the pool's order.
pub open spec fn sends_to_connected(relays: Seq<RelayView>, message: ClientMessageView) -> Seq<
    PoolActionView,
>
    decreases relays.len(),
{
    if relays.len() == 0 {
        Seq::empty()
    } else {
        let rest = sends_to_connected(relays.drop_last(), message);
        if relays.last().status == RelayStatus::Connected {
            rest.push(PoolActionView::Send { relay_url: relays.last().url, message })
        } else {
            rest
        }
    }
}

/// A dial for every relay that is not connected, in the pool's order.
pub open spec fn dials(relays: Seq<RelayView>) -> Seq<PoolActionView>
    decreases relays.len(),
{
    if relays.len() == 0 {
        Seq::empty()
    } else {
        let rest = dials(relays.drop_last());
        if relays.last().status == RelayStatus::Disconnected {
            rest.push(PoolActionView::Dial { relay_url: relays.last().url })
        } else {
            rest
        }
    }
}

/// The relays with every disconnected one now connecting.
pub open spec fn all_connecting(relays: Seq<RelayView>) -> Seq<RelayView> {
    relays.map_values(
        |r: RelayView|
            if r.status == RelayStatus::Disconnected {
                RelayView { url: r.url, status: RelayStatus::Connecting }
            } else {
                r
            },
    )
}

/// What is sent when a filter set is given: each connected relay, in the
/// pool's order, gets the cancelling of the channel it had, if it had one,
/// and then the request under the channel it has now.
pub open spec fn resubscribe_actions(
    relays: Seq<RelayView>,
    before: Seq<ChannelView>,
    after: Seq<ChannelView>,
    filters: Seq<FilterView>,
) -> Seq<PoolActionView>
    decreases relays.len(),
{
    if relays.len() == 0 {
        Seq::empty()
    } else {
        let rest = resubscribe_actions(relays.drop_last(), before, after, filters);
        let relay = relays.last();
        if relay.status == RelayStatus::Connected {
            (rest + farewell(channel_of(before, relay.url), relay.url)).push(
                request(relay.url, channel_id(after, relay.url), filters),
            )
        } else {
            rest
        }
    }
}

impl RelayPoolView {
    /// The state of the relay at `url`, if the pool holds it.
    pub open spec fn status(self, url: Seq<char>) -> Option<RelayStatus> {
        status_of(self.relays, url)
    }

    /// The relay at `url` is in the pool and connected.
    pub open spec fn connected(self, url: Seq<char>) -> bool {
        status_of(self.relays, url) == Some(RelayStatus::Connected)
    }

    /// The channel under which the relay at `url` is asked, if it is.
    pub open spec fn channel(self, url: Seq<char>) -> Option<ChannelView> {
        channel_of(self.subscription.channels, url)
    }

    /// No address occurs twice, no relay has two channels, no event is in the
    /// cache twice, and a relay has a channel exactly when a filter set was
    /// given and the relay is connected.
    pub open spec fn wf(self) -> bool {
        &&& relay_urls(self.relays).no_duplicates()
        &&& self.subscription.wf()
        &&& event_ids(self.cache).no_duplicates()
        &&& forall|url: Seq<char>|
            #![trigger channel_of(self.subscription.channels, url)]
            #![trigger status_of(self.relays, url)]
            channel_of(self.subscription.channels, url).is_some() <==> (
            self.subscription.established && status_of(self.relays, url) == Some(
                RelayStatus::Connected,
            ))
    }

    /// Every address in the pool is the address of a relay.
    pub open spec fn addresses_ok(self) -> bool {
        forall|url: Seq<char>|
            #![trigger status_of(self.relays, url)]
            status_of(self.relays, url).is_some() ==> relay_url_ok(url)
    }

    /// The pool after `url` was added: where the text is a relay's address,
    /// a disconnected relay stands at `url`, in place of the one that was
    /// there if there was one, and it has no channel.
    pub open spec fn added(self, url: Seq<char>) -> RelayPoolView {
        if relay_url_ok(url) {
            RelayPoolView {
                relays: relays_with(
                    self.relays,
                    RelayView { url, status: RelayStatus::Disconnected },
                ),
                subscription: SubscriptionView {
                    channels: channels_without(self.subscription.channels, url),
                    ..self.subscription
                },
                ..self
            }
        } else {
            self
        }
    }

    /// The pool without the relay at `url` and without its channel.
    pub open spec fn removed(self, url: Seq<char>) -> RelayPoolView {
        RelayPoolView {
            relays: relays_without(self.relays, url),
            subscription: SubscriptionView {
                channels: channels_without(self.subscription.channels, url),
                ..self.subscription
            },
            ..self
        }
    }

    /// The pool with the relay at `url`, if there is one, in state `status`.
    pub open spec fn with_status(self, url: Seq<char>, status: RelayStatus) -> RelayPoolView {
        RelayPoolView { relays: relays_with_status(self.relays, url, status), ..self }
    }

    /// Starting a session: a disconnected relay is now connecting and is to
    /// be dialled. On any other relay, and on an address that the pool does
    /// not hold, nothing happens.
    pub open spec fn connect(self, url: Seq<char>) -> PoolStep {
        if self.status(url) == Some(RelayStatus::Disconnected) {
            PoolStep {
                pool: self.with_status(url, RelayStatus::Connecting),
                actions: seq![PoolActionView::Dial { relay_url: url }],
            }
        } else {
            PoolStep { pool: self, actions: Seq::empty() }
        }
    }

    /// The pool with `channel` as the channel of its relay.
    pub open spec fn with_channel(self, channel: ChannelView) -> RelayPoolView {
        RelayPoolView {
            subscription: SubscriptionView {
                channels: channels_with(self.subscription.channels, channel),
                ..self.subscription
            },
            ..self
        }
    }

    /// The pool without a channel for the relay at `url`.
    pub open spec fn without_channel(self, url: Seq<char>) -> RelayPoolView {
        RelayPoolView {
            subscription: SubscriptionView {
                channels: channels_without(self.subscription.channels, url),
                ..self.subscription
            },
            ..self
        }
    }

    /// The end of a handshake. A relay that was connecting is connected on
    /// success and, where a filter set was given, asked for events under the
    /// channel `id`; on failure it is disconnected. A success that nobody
    /// waits for is hung up.
    pub open spec fn handshake(self, url: Seq<char>, success: bool, id: Seq<char>) -> PoolStep {
        if self.status(url) == Some(RelayStatus::Connecting) {
            if !success {
                PoolStep {
                    pool: self.with_status(url, RelayStatus::Disconnected),
                    actions: Seq::empty(),
                }
            } else if self.subscription.established {
                PoolStep {
                    pool: self.with_status(url, RelayStatus::Connected).with_channel(
                        ChannelView { relay_url: url, id },
                    ),
                    actions: seq![request(url, id, self.subscription.filters)],
                }
            } else {
                PoolStep {
                    pool: self.with_status(url, RelayStatus::Connected),
                    actions: Seq::empty(),
                }
            }
        } else if success {
            PoolStep { pool: self, actions: seq![PoolActionView::HangUp { relay_url: url }] }
        } else {
            PoolStep { pool: self, actions: Seq::empty() }
        }
    }

    /// Ending a session: the relay's channel, if it has one, is cancelled and
    /// forgotten, the socket is to be closed, and the relay is disconnected.
    /// On a relay that is disconnected already, and on an address that the
    /// pool does not hold, nothing happens.
    pub open spec fn disconnect(self, url: Seq<char>) -> PoolStep {
        if self.status(url) == Some(RelayStatus::Connected) || self.status(url) == Some(
            RelayStatus::Connecting,
        ) {
            PoolStep {
                pool: self.with_status(url, RelayStatus::Disconnected).without_channel(url),
                actions: farewell(self.channel(url), url).push(
                    PoolActionView::HangUp { relay_url: url },
                ),
            }
        } else {
            PoolStep { pool: self, actions: Seq::empty() }
        }
    }

    /// The session was lost: the relay is disconnected and its channel is
    /// forgotten.
    pub open spec fn lost(self, url: Seq<char>) -> RelayPoolView {
        self.with_status(url, RelayStatus::Disconnected).without_channel(url)
    }

    /// Asking one relay again: a connected relay, where a filter set was
    /// given, gets the cancelling of its channel, if it has one, and the
    /// request under the channel `id`.
    pub open spec fn subscribe(self, url: Seq<char>, id: Seq<char>) -> PoolStep {
        if self.connected(url) && self.subscription.established {
            PoolStep {
                pool: self.with_channel(ChannelView { relay_url: url, id }),
                actions: farewell(self.channel(url), url).push(
                    request(url, id, self.subscription.filters),
                ),
            }
        } else {
            PoolStep { pool: self, actions: Seq::empty() }
        }
    }

    /// Publishing an event: it is recorded in the cache, so that its echo is
    /// not taken for news, and sent to every connected relay.
    pub open spec fn publish(self, event: EventView) -> PoolStep {
        PoolStep {
            pool: RelayPoolView { cache: cache_with(self.cache, event), ..self },
            actions: sends_to_connected(self.relays, ClientMessageView::Event(event)),
        }
    }

    /// The pool after one step of its loop.
    pub open spec fn received(self, ev: RelayPoolEvView) -> RelayPoolView {
        match ev {
            RelayPoolEvView::RelayDisconnected { relay_url } => self.lost(relay_url),
            _ => RelayPoolView { cache: cache_after(self.cache, ev), ..self },
        }
    }

    /// Two pools hold the same relays in the same states and the same
    /// channels, but for the relay at `url`.
    pub open spec fn same_elsewhere(self, other: RelayPoolView, url: Seq<char>) -> bool {
        forall|u: Seq<char>|
            #![trigger channel_of(other.subscription.channels, u)]
            #![trigger status_of(other.relays, u)]
            u != url ==> channel_of(other.subscription.channels, u) == channel_of(
                self.subscription.channels,
                u,
            ) && status_of(other.relays, u) == status_of(self.relays, u)
    }
}

/// Setting the state of the relay at one address leaves the other addresses
/// as they were.
pub proof fn lemma_with_status(relays: Seq<RelayView>, url: Seq<char>, status: RelayStatus)
    requires
        relay_urls(relays).no_duplicates(),
    ensures
        relay_urls(relays_with_status(relays, url, status)).no_duplicates(),
        status_of(relays_with_status(relays, url, status), url) == if status_of(
            relays,
            url,
        ).is_some() {
            Some(status)
        } else {
            None
        },
        forall|u: Seq<char>|
            u != url ==> status_of(relays_with_status(relays, url, status), u) == status_of(
                relays,
                u,
            ),
{
    if relay_urls(relays).contains(url) {
        lemma_relays_with(relays, RelayView { url, status });
    }
}

/// A change at one address keeps the pool well formed if it keeps that
/// address well formed.
pub proof fn lemma_local_change(before: RelayPoolView, after: RelayPoolView, url: Seq<char>)
    requires
        before.wf(),
        before.same_elsewhere(after, url),
        after.subscription.established == before.subscription.established,
        relay_urls(after.relays).no_duplicates(),
        after.subscription.wf(),
        event_ids(after.cache).no_duplicates(),
        after.channel(url).is_some() <==> (after.subscription.established && after.connected(url)),
        after.status(url).is_some() ==> before.status(url).is_some() || relay_url_ok(url),
    ensures
        after.wf(),
        before.addresses_ok() ==> after.addresses_ok(),
{
}

/// Dialling every disconnected relay keeps the addresses, and a relay is
/// connected after it exactly if it was before.
pub proof fn lemma_all_connecting(relays: Seq<RelayView>)
    ensures
        relay_urls(all_connecting(relays)) == relay_urls(relays),
        forall|u: Seq<char>|
            #![trigger status_of(all_connecting(relays), u)]
            (status_of(all_connecting(relays), u) == Some(RelayStatus::Connected) <==> status_of(
                relays,
                u,
            ) == Some(RelayStatus::Connected)) && (status_of(all_connecting(relays), u).is_some()
                <==> status_of(relays, u).is_some()),
{
    assert(relay_urls(all_connecting(relays)) =~= relay_urls(relays));
}

/// Dialling every disconnected relay keeps the pool well formed.
pub proof fn lemma_dialled(before: RelayPoolView, after: RelayPoolView)
    requires
        before.wf(),
        after == (RelayPoolView { relays: all_connecting(before.relays), ..before }),
    ensures
        after.wf(),
        before.addresses_ok() ==> after.addresses_ok(),
{
    lemma_all_connecting(before.relays);
}

/// Ending a session keeps the pool well formed, and the relay is then
/// disconnected and has no channel.
pub proof fn lemma_disconnect(pool: RelayPoolView, url: Seq<char>)
    requires
        pool.wf(),
    ensures
        pool.disconnect(url).pool.wf(),
        pool.disconnect(url).pool.channel(url).is_none(),
        !pool.disconnect(url).pool.connected(url),
        pool.status(url).is_some() ==> pool.disconnect(url).pool.status(url) == Some(
            RelayStatus::Disconnected,
        ),
        pool.same_elsewhere(pool.disconnect(url).pool, url),
        pool.disconnect(url).pool.subscription.established == pool.subscription.established,
        pool.disconnect(url).pool.subscription.filters == pool.subscription.filters,
{
    let after = pool.disconnect(url).pool;
    lemma_with_status(pool.relays, url, RelayStatus::Disconnected);
    lemma_channels_without(pool.subscription.channels, url);
    if after != pool {
        lemma_local_change(pool, after, url);
    }
}

/// Starting a session keeps the pool well formed; a relay that was
/// disconnected is then connecting.
pub proof fn lemma_connect(pool: RelayPoolView, url: Seq<char>)
    requires
        pool.wf(),
    ensures
        pool.connect(url).pool.wf(),
        pool.status(url) == Some(RelayStatus::Disconnected) ==> pool.connect(url).pool.status(url)
            == Some(RelayStatus::Connecting),
        pool.connect(url).pool.subscription == pool.subscription,
        pool.same_elsewhere(pool.connect(url).pool, url),
{
    let after = pool.connect(url).pool;
    lemma_with_status(pool.relays, url, RelayStatus::Connecting);
    if after != pool {
        lemma_local_change(pool, after, url);
    }
}

/// The end of a handshake keeps the pool well formed; a relay that was
/// connecting is connected on success and then, where a filter set was
/// given, has the channel it was asked under and no other.
pub proof fn lemma_handshake(pool: RelayPoolView, url: Seq<char>, success: bool, id: Seq<char>)
    requires
        pool.wf(),
    ensures
        pool.handshake(url, success, id).pool.wf(),
        pool.same_elsewhere(pool.handshake(url, success, id).pool, url),
        pool.status(url) == Some(RelayStatus::Connecting) && success ==> pool.handshake(
            url,
            success,
            id,
        ).pool.connected(url),
        pool.status(url) == Some(RelayStatus::Connecting) && success
            && pool.subscription.established ==> pool.handshake(url, success, id).pool.channel(url)
            == Some(ChannelView { relay_url: url, id }),
{
    let after = pool.handshake(url, success, id).pool;
    if pool.status(url) == Some(RelayStatus::Connecting) {
        if !success {
            lemma_with_status(pool.relays, url, RelayStatus::Disconnected);
        } else {
            lemma_with_status(pool.relays, url, RelayStatus::Connected);
            if pool.subscription.established {
                lemma_channels_with(
                    pool.subscription.channels,
                    ChannelView { relay_url: url, id },
                );
            }
        }
        lemma_local_change(pool, after, url);
    }
}

/// Disconnecting a relay and connecting it again while a filter set is given
/// leaves the relay with exactly one channel: it has none while it is down,
/// it has the one it is asked under once the handshake has succeeded, no
/// relay ever has two, and the other relays keep theirs.
pub proof fn lemma_reconnect_resubscribes(pool: RelayPoolView, url: Seq<char>, id: Seq<char>)
    requires
        pool.wf(),
        pool.subscription.established,
        pool.status(url).is_some(),
    ensures
        ({
            let down = pool.disconnect(url).pool;
            let dialling = down.connect(url).pool;
            let up = dialling.handshake(url, true, id).pool;
            &&& down.wf() && dialling.wf() && up.wf()
            &&& down.channel(url).is_none()
            &&& dialling.channel(url).is_none()
            &&& up.connected(url)
            &&& up.channel(url) == Some(ChannelView { relay_url: url, id })
            &&& channel_urls(up.subscription.channels).no_duplicates()
            &&& forall|other: Seq<char>|
                other != url ==> up.channel(other) == pool.channel(other) && up.status(other)
                    == pool.status(other)
        }),
{
    let down = pool.disconnect(url).pool;
    let dialling = down.connect(url).pool;
    lemma_disconnect(pool, url);
    lemma_connect(down, url);
    lemma_handshake(dialling, url, true, id);
}

/// The number of connected relays in a list.
pub open spec fn connected_count(relays: Seq<RelayView>) -> nat
    decreases relays.len(),
{
    if relays.len() == 0 {
        0
    } else if relays.last().status == RelayStatus::Connected {
        connected_count(relays.drop_last()) + 1
    } else {
        connected_count(relays.drop_last())
    }
}

/// A published message goes to every connected relay and to no other: there
/// is one sending for each connected relay, in the pool's order.
pub proof fn lemma_sends_to_connected(relays: Seq<RelayView>, message: ClientMessageView)
    ensures
        sends_to_connected(relays, message).len() == connected_count(relays),
        forall|j: int|
            0 <= j < relays.len() && (#[trigger] relays[j]).status == RelayStatus::Connected
                ==> sends_to_connected(relays, message).contains(
                PoolActionView::Send { relay_url: relays[j].url, message },
            ),
        forall|k: int|
            0 <= k < sends_to_connected(relays, message).len() ==> exists|j: int|
                0 <= j < relays.len() && (#[trigger] relays[j]).status == RelayStatus::Connected
                    && (#[trigger] sends_to_connected(relays, message)[k]) == (
                PoolActionView::Send { relay_url: relays[j].url, message }),
    decreases relays.len(),
{
    if relays.len() > 0 {
        let front = relays.drop_last();
        let last = relays.last();
        let sent = sends_to_connected(front, message);
        let all = sends_to_connected(relays, message);
        lemma_sends_to_connected(front, message);
        assert forall|j: int|
            0 <= j < relays.len() && (#[trigger] relays[j]).status
                == RelayStatus::Connected implies all.contains(
            PoolActionView::Send { relay_url: relays[j].url, message },
        ) by {
            if j < front.len() {
                assert(front[j] == relays[j]);
                let k = sent.index_of(PoolActionView::Send { relay_url: relays[j].url, message });
                assert(all[k] == sent[k]);
            } else {
                assert(all[sent.len() as int] == (PoolActionView::Send {
                    relay_url: last.url,
                    message,
                }));
            }
        }
        assert forall|k: int| 0 <= k < all.len() implies exists|j: int|
            0 <= j < relays.len() && (#[trigger] relays[j]).status == RelayStatus::Connected && (
            #[trigger] all[k]) == (PoolActionView::Send { relay_url: relays[j].url, message }) by {
            if k < sent.len() {
                assert(all[k] == sent[k]);
                let j = choose|j: int|
                    0 <= j < front.len() && (#[trigger] front[j]).status == RelayStatus::Connected
                        && sent[k] == (PoolActionView::Send { relay_url: front[j].url, message });
                assert(relays[j] == front[j]);
            } else {
                assert(relays[relays.len() - 1] == last);
            }
        }
    }
}

/// When a filter set is given, every connected relay is asked with the full
/// filter set under the channel it has afterwards.
pub proof fn lemma_connected_relays_are_asked(
    relays: Seq<RelayView>,
    before: Seq<ChannelView>,
    after: Seq<ChannelView>,
    filters: Seq<FilterView>,
)
    ensures
        forall|j: int|
            0 <= j < relays.len() && (#[trigger] relays[j]).status == RelayStatus::Connected
                ==> resubscribe_actions(relays, before, after, filters).contains(
                request(relays[j].url, channel_id(after, relays[j].url), filters),
            ),
    decreases relays.len(),
{
    if relays.len() > 0 {
        let front = relays.drop_last();
        let last = relays.last();
        let sent = resubscribe_actions(front, before, after, filters);
        let all = resubscribe_actions(relays, before, after, filters);
        lemma_connected_relays_are_asked(front, before, after, filters);
        assert forall|j: int|
            0 <= j < relays.len() && (#[trigger] relays[j]).status
                == RelayStatus::Connected implies all.contains(
            request(relays[j].url, channel_id(after, relays[j].url), filters),
        ) by {
            if j < front.len() {
                assert(front[j] == relays[j]);
                let k = sent.index_of(
                    request(relays[j].url, channel_id(after, relays[j].url), filters),
                );
                assert(all[k] == sent[k]);
            } else {
                assert(all[all.len() - 1] == request(
                    last.url,
                    channel_id(after, last.url),
                    filters,
                ));
            }
        }
    }
}

/// While a filter set is given out: the relays before position `upto` were
/// visited. The channels of all other addresses are as they were, a visited
/// relay has a channel exactly if it is connected, and `actions` is what was
/// sent to the visited relays.
pub open spec fn resubscribed_so_far(
    before: RelayPoolView,
    channels: Seq<ChannelView>,
    upto: int,
    filters: Seq<FilterView>,
    actions: Seq<PoolActionView>,
) -> bool {
    &&& 0 <= upto <= before.relays.len()
    &&& forall|u: Seq<char>|
        #![trigger channel_of(channels, u)]
        !relay_urls(before.relays.take(upto)).contains(u) ==> channel_of(channels, u) == channel_of(
            before.subscription.channels,
            u,
        )
    &&& forall|j: int|
        0 <= j < upto ==> (channel_of(channels, (#[trigger] before.relays[j]).url).is_some()
            <==> before.relays[j].status == RelayStatus::Connected)
    &&& actions == resubscribe_actions(
        before.relays.take(upto),
        before.subscription.channels,
        channels,
        filters,
    )
}

/// What is sent depends on the new channels of the listed relays only.
pub proof fn lemma_resubscribe_agrees(
    relays: Seq<RelayView>,
    before: Seq<ChannelView>,
    first: Seq<ChannelView>,
    second: Seq<ChannelView>,
    filters: Seq<FilterView>,
)
    requires
        forall|j: int|
            0 <= j < relays.len() ==> channel_of(first, (#[trigger] relays[j]).url) == channel_of(
                second,
                relays[j].url,
            ),
    ensures
        resubscribe_actions(relays, before, first, filters) == resubscribe_actions(
            relays,
            before,
            second,
            filters,
        ),
    decreases relays.len(),
{
    if relays.len() > 0 {
        let rest = relays.drop_last();
        lemma_resubscribe_agrees(rest, before, first, second, filters);
    }
}

proof fn lemma_next_unvisited(before: RelayPoolView, upto: int)
    requires
        before.wf(),
        0 <= upto < before.relays.len(),
    ensures
        !relay_urls(before.relays.take(upto)).contains(before.relays[upto].url),
        relay_urls(before.relays.take(upto + 1)).contains(before.relays[upto].url),
        forall|u: Seq<char>|
            relay_urls(before.relays.take(upto)).contains(u) ==> relay_urls(
                before.relays.take(upto + 1),
            ).contains(u),
        forall|u: Seq<char>|
            u != before.relays[upto].url && relay_urls(before.relays.take(upto + 1)).contains(u)
                ==> relay_urls(before.relays.take(upto)).contains(u),
        forall|j: int| 0 <= j < upto ==> (#[trigger] before.relays[j]).url != before.relays[upto].url,
        before.relays.take(upto + 1).drop_last() == before.relays.take(upto),
        before.relays.take(upto + 1).last() == before.relays[upto],
        status_of(before.relays, before.relays[upto].url) == Some(before.relays[upto].status),
{
    let visited = before.relays.take(upto);
    let next = before.relays.take(upto + 1);
    let relay = before.relays[upto];
    lemma_index_of_unique(relay_urls(before.relays), upto);
    assert forall|j: int| 0 <= j < upto implies (#[trigger] before.relays[j]).url != relay.url by {
        assert(relay_urls(before.relays)[j] == before.relays[j].url);
    }
    if relay_urls(visited).contains(relay.url) {
        let j = relay_urls(visited).index_of(relay.url);
    }
    assert(relay_urls(next)[upto] == relay.url);
    assert forall|u: Seq<char>| relay_urls(visited).contains(u) implies relay_urls(next).contains(
        u,
    ) by {
        let j = relay_urls(visited).index_of(u);
        assert(relay_urls(next)[j] == u);
    }
    assert forall|u: Seq<char>| u != relay.url && relay_urls(next).contains(u) implies relay_urls(
        visited,
    ).contains(u) by {
        let j = relay_urls(next).index_of(u);
        assert(relay_urls(visited)[j] == u);
    }
}

/// Visiting a connected relay: it gets the cancelling of its channel and the
/// request under the channel that was opened for it.
pub proof fn lemma_resubscribe_step(
    before: RelayPoolView,
    held: Seq<ChannelView>,
    upto: int,
    filters: Seq<FilterView>,
    so_far: Seq<PoolActionView>,
    opened: ChannelView,
)
    requires
        before.wf(),
        0 <= upto < before.relays.len(),
        channel_urls(held).no_duplicates(),
        resubscribed_so_far(before, held, upto, filters, so_far),
        before.relays[upto].status == RelayStatus::Connected,
        opened.relay_url == before.relays[upto].url,
    ensures
        resubscribed_so_far(
            before,
            channels_with(held, opened),
            upto + 1,
            filters,
            (so_far + farewell(channel_of(held, opened.relay_url), opened.relay_url)).push(
                request(opened.relay_url, opened.id, filters),
            ),
        ),
{
    let visited = before.relays.take(upto);
    let next = before.relays.take(upto + 1);
    let now = channels_with(held, opened);
    lemma_next_unvisited(before, upto);
    lemma_channels_with(held, opened);
    lemma_resubscribe_agrees(visited, before.subscription.channels, now, held, filters);
    assert forall|u: Seq<char>|
        #![trigger channel_of(now, u)]
        !relay_urls(next).contains(u) implies channel_of(now, u) == channel_of(
        before.subscription.channels,
        u,
    ) by {
        assert(channel_of(now, u) == channel_of(held, u));
    }
}

/// Visiting a relay that is not connected: nothing is sent, and it has no
/// channel.
pub proof fn lemma_resubscribe_skip(
    before: RelayPoolView,
    held: Seq<ChannelView>,
    upto: int,
    filters: Seq<FilterView>,
    so_far: Seq<PoolActionView>,
)
    requires
        before.wf(),
        0 <= upto < before.relays.len(),
        resubscribed_so_far(before, held, upto, filters, so_far),
        before.relays[upto].status != RelayStatus::Connected,
    ensures
        resubscribed_so_far(before, held, upto + 1, filters, so_far),
{
    lemma_next_unvisited(before, upto);
}

/// When every relay was visited, the pool with the new channels and a filter
/// set given is well formed.
pub proof fn lemma_resubscribe_done(
    before: RelayPoolView,
    channels: Seq<ChannelView>,
    filters: Seq<FilterView>,
    actions: Seq<PoolActionView>,
)
    requires
        before.wf(),
        channel_urls(channels).no_duplicates(),
        resubscribed_so_far(before, channels, before.relays.len() as int, filters, actions),
    ensures
        (RelayPoolView {
            subscription: SubscriptionView { filters, established: true, channels },
            ..before
        }).wf(),
        actions == resubscribe_actions(
            before.relays,
            before.subscription.channels,
            channels,
            filters,
        ),
        before.addresses_ok() ==> (RelayPoolView {
            subscription: SubscriptionView { filters, established: true, channels },
            ..before
        }).addresses_ok(),
{
    assert(before.relays.take(before.relays.len() as int) =~= before.relays);
    assert forall|u: Seq<char>|
        #![trigger channel_of(channels, u)]
        #![trigger status_of(before.relays, u)]
        channel_of(channels, u).is_some() <==> status_of(before.relays, u) == Some(
            RelayStatus::Connected,
        ) by {
        if relay_urls(before.relays).contains(u) {
            let j = relay_urls(before.relays).index_of(u);
            lemma_index_of_unique(relay_urls(before.relays), j);
        }
    }
}

} // verus!
