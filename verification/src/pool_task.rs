//! The acceptance of events that relays deliver: an event is handed on once,
//! the first time it comes, and only if it is valid. The cache of events
//! that were seen serves this and nothing else.

use vstd::prelude::*;
use crate::event::{events_view, Event, EventId, EventView};
use crate::keys::PublicKey;
use crate::lists::lemma_push_new_key;
use crate::message::{RelayMessage, RelayMessageView};

verus! {

/// What comes to the pool's loop, as mathematical values.
pub enum RelayPoolEvView {
    RelayDisconnected { relay_url: Seq<char> },
    ReceivedMsg { relay_url: Seq<char>, msg: RelayMessageView },
    RemoveContactEvents(Seq<u8>),
    EventSent { ev: EventView },
}

/// What comes to the pool's loop: a relay's session ended, a relay sent a
/// message, a contact was removed, or the user published an event.
#[derive(Debug)]
pub enum RelayPoolEv {
    RelayDisconnected { relay_url: String },
    ReceivedMsg { relay_url: String, msg: RelayMessage },
    RemoveContactEvents(PublicKey),
    EventSent { ev: Event },
}

impl View for RelayPoolEv {
    type V = RelayPoolEvView;

    open spec fn view(&self) -> RelayPoolEvView {
        match self {
            RelayPoolEv::RelayDisconnected { relay_url } => RelayPoolEvView::RelayDisconnected {
                relay_url: relay_url@,
            },
            RelayPoolEv::ReceivedMsg { relay_url, msg } => RelayPoolEvView::ReceivedMsg {
                relay_url: relay_url@,
                msg: msg@,
            },
            RelayPoolEv::RemoveContactEvents(pk) => RelayPoolEvView::RemoveContactEvents(pk@),
            RelayPoolEv::EventSent { ev } => RelayPoolEvView::EventSent { ev: ev@ },
        }
    }
}

/// What the pool tells its listeners.
#[derive(Debug)]
pub enum RelayPoolNotifications {
    ReceivedEvent { ev: Event },
}

/// The event that a notification carries, if there is a notification.
pub open spec fn notified_event(notification: Option<RelayPoolNotifications>) -> Option<
    EventView,
> {
    match notification {
        Some(RelayPoolNotifications::ReceivedEvent { ev }) => Some(ev@),
        None => None,
    }
}

/// The identifiers of the events of a cache, in the cache's order.
pub open spec fn event_ids(cache: Seq<EventView>) -> Seq<Seq<u8>> {
    cache.map_values(|e: EventView| e.id)
}

/// The cache holds an event of identifier `id`.
pub open spec fn cache_knows(cache: Seq<EventView>, id: Seq<u8>) -> bool {
    event_ids(cache).contains(id)
}

/// The cache after `event` was recorded: unchanged where it knows the
/// identifier, else with the event at the end.
pub open spec fn cache_with(cache: Seq<EventView>, event: EventView) -> Seq<EventView> {
    if cache_knows(cache, event.id) {
        cache
    } else {
        cache.push(event)
    }
}

/// The cache without the events that `key` wrote or that name `key`.
pub open spec fn cache_purged(cache: Seq<EventView>, key: Seq<u8>) -> Seq<EventView>
    decreases cache.len(),
{
    if cache.len() == 0 {
        Seq::empty()
    } else {
        let rest = cache_purged(cache.drop_last(), key);
        if cache.last().involves(key) {
            rest
        } else {
            rest.push(cache.last())
        }
    }
}

/// The event that a relay's message brings to the listeners: the event it
/// carries, if that is valid and not known to the cache.
pub open spec fn accepted(cache: Seq<EventView>, msg: RelayMessageView) -> Option<EventView> {
    match msg {
        RelayMessageView::Event(event) => if event.valid() && !cache_knows(cache, event.id) {
            Some(event)
        } else {
            None
        },
        RelayMessageView::Other => None,
    }
}

/// The cache after one step of the loop.
pub open spec fn cache_after(cache: Seq<EventView>, ev: RelayPoolEvView) -> Seq<EventView> {
    match ev {
        RelayPoolEvView::ReceivedMsg { relay_url, msg } => match accepted(cache, msg) {
            Some(event) => cache.push(event),
            None => cache,
        },
        RelayPoolEvView::EventSent { ev } => cache_with(cache, ev),
        RelayPoolEvView::RemoveContactEvents(key) => cache_purged(cache, key),
        RelayPoolEvView::RelayDisconnected { relay_url } => cache,
    }
}

/// The event that one step of the loop hands to the listeners.
pub open spec fn emitted_by(cache: Seq<EventView>, ev: RelayPoolEvView) -> Option<EventView> {
    match ev {
        RelayPoolEvView::ReceivedMsg { relay_url, msg } => accepted(cache, msg),
        _ => None,
    }
}

/// The cache after the loop has taken `evs` one by one.
pub open spec fn cache_after_all(cache: Seq<EventView>, evs: Seq<RelayPoolEvView>) -> Seq<
    EventView,
>
    decreases evs.len(),
{
    if evs.len() == 0 {
        cache
    } else {
        cache_after(cache_after_all(cache, evs.drop_last()), evs.last())
    }
}

/// The events that the loop hands to the listeners while it takes `evs` one
/// by one, in the order in which it hands them on.
pub open spec fn emitted_by_all(cache: Seq<EventView>, evs: Seq<RelayPoolEvView>) -> Seq<
    EventView,
>
    decreases evs.len(),
{
    if evs.len() == 0 {
        Seq::empty()
    } else {
        let before = emitted_by_all(cache, evs.drop_last());
        match emitted_by(cache_after_all(cache, evs.drop_last()), evs.last()) {
            Some(event) => before.push(event),
            None => before,
        }
    }
}

/// No step of `evs` removes a contact's events.
pub open spec fn no_purge(evs: Seq<RelayPoolEvView>) -> bool {
    forall|i: int| 0 <= i < evs.len() ==> !((#[trigger] evs[i]) is RemoveContactEvents)
}

/// The step is the delivery of `event` by some relay.
pub open spec fn delivers(ev: RelayPoolEvView, event: EventView) -> bool {
    match ev {
        RelayPoolEvView::ReceivedMsg { relay_url, msg } => msg == RelayMessageView::Event(event),
        _ => false,
    }
}

/// Every step of `evs` is the delivery of `event` by some relay.
pub open spec fn all_deliver(evs: Seq<RelayPoolEvView>, event: EventView) -> bool {
    forall|i: int| 0 <= i < evs.len() ==> delivers(#[trigger] evs[i], event)
}

/// Purging keeps the identifiers distinct and brings no event in.
pub proof fn lemma_cache_purged(cache: Seq<EventView>, key: Seq<u8>)
    requires
        event_ids(cache).no_duplicates(),
    ensures
        event_ids(cache_purged(cache, key)).no_duplicates(),
        forall|id: Seq<u8>|
            cache_knows(cache_purged(cache, key), id) ==> cache_knows(cache, id),
        forall|i: int|
            0 <= i < cache_purged(cache, key).len() ==> !(#[trigger] cache_purged(
                cache,
                key,
            )[i]).involves(key),
    decreases cache.len(),
{
    if cache.len() > 0 {
        let front = cache.drop_last();
        let last = cache.last();
        assert(event_ids(front) =~= event_ids(cache).drop_last());
        lemma_cache_purged(front, key);
        let rest = cache_purged(front, key);
        assert forall|id: Seq<u8>| cache_knows(front, id) implies cache_knows(cache, id) by {
        }
        assert(event_ids(cache)[cache.len() - 1] == last.id);
        if !last.involves(key) {
            if cache_knows(rest, last.id) {
                assert(cache_knows(front, last.id));
            }
            lemma_push_new_key(event_ids(rest), last.id);
            assert(event_ids(rest.push(last)) =~= event_ids(rest).push(last.id));
        }
    }
}

/// An event that is not valid changes nothing when a relay delivers it: it
/// is not recorded, and it is not handed on.
pub proof fn lemma_invalid_delivery(cache: Seq<EventView>, relay_url: Seq<char>, event: EventView)
    requires
        !event.valid(),
    ensures
        cache_after(
            cache,
            RelayPoolEvView::ReceivedMsg { relay_url, msg: RelayMessageView::Event(event) },
        ) == cache,
        emitted_by(
            cache,
            RelayPoolEvView::ReceivedMsg { relay_url, msg: RelayMessageView::Event(event) },
        ).is_none(),
{
}

/// An event that the loop hands on is valid.
pub proof fn lemma_emitted_are_valid(cache: Seq<EventView>, evs: Seq<RelayPoolEvView>)
    ensures
        forall|i: int|
            0 <= i < emitted_by_all(cache, evs).len() ==> (#[trigger] emitted_by_all(
                cache,
                evs,
            )[i]).valid(),
    decreases evs.len(),
{
    if evs.len() > 0 {
        lemma_emitted_are_valid(cache, evs.drop_last());
        let before = emitted_by_all(cache, evs.drop_last());
        let all = emitted_by_all(cache, evs);
        assert forall|i: int| 0 <= i < all.len() implies (#[trigger] all[i]).valid() by {
            if i < before.len() {
                assert(all[i] == before[i]);
            }
        }
    }
}

/// While no contact's events are removed, no event is handed on twice: the
/// identifiers of the events handed on are distinct, none of them was known
/// to the cache at the start, and all of them are known to it at the end.
pub proof fn lemma_emitted_at_most_once(cache: Seq<EventView>, evs: Seq<RelayPoolEvView>)
    requires
        no_purge(evs),
    ensures
        event_ids(emitted_by_all(cache, evs)).no_duplicates(),
        forall|id: Seq<u8>|
            #![trigger cache_knows(emitted_by_all(cache, evs), id)]
            cache_knows(emitted_by_all(cache, evs), id) ==> !cache_knows(cache, id)
                && cache_knows(cache_after_all(cache, evs), id),
        forall|id: Seq<u8>|
            #![trigger cache_knows(cache_after_all(cache, evs), id)]
            cache_knows(cache, id) ==> cache_knows(cache_after_all(cache, evs), id),
    decreases evs.len(),
{
    if evs.len() == 0 {
        assert(event_ids(emitted_by_all(cache, evs)) =~= Seq::<Seq<u8>>::empty());
    } else {
        let front = evs.drop_last();
        assert forall|i: int| 0 <= i < front.len() implies !((#[trigger] front[i])
            is RemoveContactEvents) by {
            assert(front[i] == evs[i]);
        }
        lemma_emitted_at_most_once(cache, front);
        let held = cache_after_all(cache, front);
        let sent = emitted_by_all(cache, front);
        let now = cache_after(held, evs.last());
        assert(evs.last() == evs[evs.len() - 1]);
        assert forall|id: Seq<u8>| cache_knows(held, id) implies cache_knows(now, id) by {
            let j = event_ids(held).index_of(id);
            assert(event_ids(held)[j] == id);
            if now.len() > held.len() {
                assert(now[j] == held[j]);
                assert(event_ids(now)[j] == id);
            }
        }
        match emitted_by(held, evs.last()) {
            Some(event) => {
                assert(now == held.push(event));
                assert(event_ids(now)[held.len() as int] == event.id);
                assert(!cache_knows(sent, event.id));
                lemma_push_new_key(event_ids(sent), event.id);
                assert(event_ids(sent.push(event)) =~= event_ids(sent).push(event.id));
                assert forall|id: Seq<u8>| cache_knows(sent.push(event), id) implies !cache_knows(
                    cache,
                    id,
                ) && cache_knows(now, id) by {
                    let j = event_ids(sent.push(event)).index_of(id);
                    if j < sent.len() {
                        assert(event_ids(sent)[j] == id);
                        assert(cache_knows(sent, id));
                    } else {
                        assert(id == event.id);
                        if cache_knows(cache, id) {
                            assert(cache_knows(held, id));
                        }
                    }
                }
            },
            None => {},
        }
    }
}

/// An event that one or more relays deliver is handed on exactly once, if it
/// is valid and the cache did not know it; else it is not handed on.
pub proof fn lemma_delivered_exactly_once(
    cache: Seq<EventView>,
    evs: Seq<RelayPoolEvView>,
    event: EventView,
)
    requires
        evs.len() >= 1,
        all_deliver(evs, event),
    ensures
        emitted_by_all(cache, evs) == if event.valid() && !cache_knows(cache, event.id) {
            seq![event]
        } else {
            Seq::<EventView>::empty()
        },
        cache_after_all(cache, evs) == if event.valid() && !cache_knows(cache, event.id) {
            cache.push(event)
        } else {
            cache
        },
    decreases evs.len(),
{
    let front = evs.drop_last();
    if front.len() == 0 {
        assert(emitted_by_all(cache, front) =~= Seq::<EventView>::empty());
    } else {
        lemma_delivered_exactly_once(cache, front, event);
        if event.valid() && !cache_knows(cache, event.id) {
            assert(event_ids(cache.push(event))[cache.len() as int] == event.id);
        }
    }
}

/// The events that were seen.
pub struct RelayPoolTask {
    events: Vec<Event>,
}

impl View for RelayPoolTask {
    type V = Seq<EventView>;

    closed spec fn view(&self) -> Seq<EventView> {
        events_view(self.events@)
    }
}

impl RelayPoolTask {
    /// No identifier occurs twice.
    pub open spec fn wf(&self) -> bool {
        event_ids(self@).no_duplicates()
    }

    /// An empty cache.
    pub fn new() -> (task: RelayPoolTask)
        ensures
            task.wf(),
            task@ == Seq::<EventView>::empty(),
    {
        RelayPoolTask { events: Vec::new() }
    }

    /// Tells whether an event of identifier `id` was seen.
    pub fn knows(&self, id: &EventId) -> (yes: bool)
        ensures
            yes == cache_knows(self@, id@),
    {
        let mut i: usize = 0;
        while i < self.events.len()
            invariant
                i <= self.events.len(),
                forall|j: int| 0 <= j < i ==> event_ids(self@)[j] != id@,
            decreases self.events.len() - i,
        {
            if self.events[i].id == *id {
                assert(event_ids(self@)[i as int] == id@);
                return true;
            }
            i += 1;
        }
        false
    }

    /// The number of events in the cache.
    pub fn len(&self) -> (n: usize)
        ensures
            n == self@.len(),
    {
        self.events.len()
    }

    fn record(&mut self, event: Event)
        requires
            old(self).wf(),
            !cache_knows(old(self)@, event@.id),
        ensures
            final(self).wf(),
            final(self)@ == old(self)@.push(event@),
    {
        proof {
            lemma_push_new_key(event_ids(self@), event@.id);
        }
        let ghost before = self@;
        self.events.push(event);
        assert(event_ids(self@) =~= event_ids(before).push(event@.id));
    }

    fn purge(&mut self, key: &PublicKey)
        requires
            old(self).wf(),
        ensures
            final(self).wf(),
            final(self)@ == cache_purged(old(self)@, key@),
    {
        let ghost before = self@;
        let mut kept: Vec<Event> = Vec::new();
        let mut i: usize = 0;
        while i < self.events.len()
            invariant
                i <= self.events.len(),
                self@ == before,
                events_view(kept@) == cache_purged(before.take(i as int), key@),
            decreases self.events.len() - i,
        {
            proof {
                let next = before.take(i as int + 1);
                assert(next.drop_last() =~= before.take(i as int));
            }
            if !self.events[i].involves(key) {
                kept.push(self.events[i].clone());
            }
            i += 1;
        }
        assert(before.take(i as int) =~= before);
        proof {
            lemma_cache_purged(before, key@);
        }
        self.events = kept;
    }

    /// Takes one step of the loop. An event that a relay delivers is handed
    /// to the listeners if it is valid and was not seen, and is then
    /// recorded; an invalid event changes nothing. An event that the user
    /// published is recorded and not handed on. The events of a removed
    /// contact are forgotten.
    pub fn handle_message(&mut self, msg: RelayPoolEv) -> (notification: Option<
        RelayPoolNotifications,
    >)
        requires
            old(self).wf(),
        ensures
            final(self).wf(),
            final(self)@ == cache_after(old(self)@, msg@),
            notified_event(notification) == emitted_by(old(self)@, msg@),
    {
        match msg {
            RelayPoolEv::ReceivedMsg { relay_url, msg } => match msg {
                RelayMessage::Event(event) => {
                    if event.verify() && !self.knows(&event.id) {
                        self.record(event.clone());
                        Some(RelayPoolNotifications::ReceivedEvent { ev: event })
                    } else {
                        None
                    }
                },
                RelayMessage::Other => None,
            },
            RelayPoolEv::EventSent { ev } => {
                if !self.knows(&ev.id) {
                    self.record(ev);
                }
                None
            },
            RelayPoolEv::RemoveContactEvents(key) => {
                self.purge(&key);
                None
            },
            RelayPoolEv::RelayDisconnected { relay_url } => None,
        }
    }
}

} // verus!
