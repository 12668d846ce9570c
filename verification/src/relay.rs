//! One relay as the pool sees it: an address and the state of the session.
//! The socket belongs to the caller, who reports what became of it.

use vstd::prelude::*;
use crate::lists::{lemma_index_of_unique, lemma_push_new_key, lemma_remove_key};
use crate::message::{ClientMessage, ClientMessageView};

verus! {

/// What a URL parser reads as the scheme of an address, or nothing where the
/// text is no URL.
pub uninterp spec fn parsed_url_scheme(text: Seq<char>) -> Option<Seq<char>>;

/// The scheme of a WebSocket address.
pub open spec fn ws_scheme() -> Seq<char> {
    seq!['w', 's']
}

/// The scheme of a WebSocket address over TLS.
pub open spec fn wss_scheme() -> Seq<char> {
    seq!['w', 's', 's']
}

/// The text is the address of a relay: a URL with a WebSocket scheme.
pub open spec fn relay_url_ok(text: Seq<char>) -> bool {
    parsed_url_scheme(text) == Some(ws_scheme()) || parsed_url_scheme(text) == Some(wss_scheme())
}

/// `url::Url::parse` and the scheme of what it returns. The result is named.
#[verifier::external_body]
fn url_scheme(text: &str) -> (scheme: Option<String>)
    ensures
        match scheme {
            Some(s) => parsed_url_scheme(text@) == Some(s@),
            None => parsed_url_scheme(text@).is_none(),
        },
{
    url::Url::parse(text).ok().map(|u| u.scheme().to_owned())
}

/// Tells whether the text is the address of a relay.
pub fn is_relay_url(text: &str) -> (ok: bool)
    ensures
        ok == relay_url_ok(text@),
{
    match url_scheme(text) {
        Some(scheme) => {
            let ws: String = "ws".to_owned();
            let wss: String = "wss".to_owned();
            proof {
                reveal_strlit("ws");
                reveal_strlit("wss");
                assert(ws@ =~= ws_scheme());
                assert(wss@ =~= wss_scheme());
            }
            scheme == ws || scheme == wss
        },
        None => false,
    }
}

/// The state of the session with a relay.
#[derive(Clone, Copy, Debug, PartialEq, Eq, Structural)]
pub enum RelayStatus {
    Disconnected,
    Connecting,
    Connected,
}

/// A relay as mathematical values.
pub struct RelayView {
    pub url: Seq<char>,
    pub status: RelayStatus,
}

/// A relay: its address and the state of the session with it.
#[derive(Debug)]
pub struct Relay {
    pub url: String,
    pub status: RelayStatus,
}

impl View for Relay {
    type V = RelayView;

    open spec fn view(&self) -> RelayView {
        RelayView { url: self.url@, status: self.status }
    }
}

impl Clone for Relay {
    fn clone(&self) -> (copy: Self)
        ensures
            copy@ == self@,
    {
        Relay { url: self.url.clone(), status: self.status }
    }
}

/// The view of an optional message.
pub open spec fn message_view(message: Option<ClientMessage>) -> Option<ClientMessageView> {
    match message {
        Some(m) => Some(m@),
        None => None,
    }
}

impl Relay {
    /// A relay at `url`, not connected.
    pub fn new(url: &str) -> (relay: Relay)
        ensures
            relay@ == (RelayView { url: url@, status: RelayStatus::Disconnected }),
    {
        Relay { url: url.to_owned(), status: RelayStatus::Disconnected }
    }

    /// Starts a session: a relay that is not connected is now connecting,
    /// and the caller is to make the handshake. Tells whether it is.
    pub fn connect(&mut self) -> (handshake: bool)
        ensures
            handshake == (old(self)@.status == RelayStatus::Disconnected),
            final(self)@.url == old(self)@.url,
            final(self)@.status == if handshake {
                RelayStatus::Connecting
            } else {
                old(self)@.status
            },
    {
        if self.status == RelayStatus::Disconnected {
            self.status = RelayStatus::Connecting;
            true
        } else {
            false
        }
    }

    /// Takes the end of a handshake: on success a connecting relay is
    /// connected, on failure it is disconnected again. A relay that was not
    /// connecting stays as it is. Tells whether the relay is connected by
    /// this handshake.
    pub fn handshake_done(&mut self, success: bool) -> (connected: bool)
        ensures
            connected == (success && old(self)@.status == RelayStatus::Connecting),
            final(self)@.url == old(self)@.url,
            final(self)@.status == if old(self)@.status == RelayStatus::Connecting {
                if success {
                    RelayStatus::Connected
                } else {
                    RelayStatus::Disconnected
                }
            } else {
                old(self)@.status
            },
    {
        if self.status == RelayStatus::Connecting {
            if success {
                self.status = RelayStatus::Connected;
                true
            } else {
                self.status = RelayStatus::Disconnected;
                false
            }
        } else {
            false
        }
    }

    /// Ends the session. Tells whether there was one to end: on a relay that
    /// is disconnected already this does nothing.
    pub fn disconnect(&mut self) -> (closing: bool)
        ensures
            closing == (old(self)@.status != RelayStatus::Disconnected),
            final(self)@ == (RelayView { url: old(self)@.url, status: RelayStatus::Disconnected }),
    {
        let closing = self.status != RelayStatus::Disconnected;
        self.status = RelayStatus::Disconnected;
        closing
    }

    /// Hands the message back for the relay's queue if the relay is
    /// connected; else the message is dropped.
    pub fn send_msg(&self, msg: ClientMessage) -> (queued: Option<ClientMessage>)
        ensures
            message_view(queued) == if self@.status == RelayStatus::Connected {
                Some(msg@)
            } else {
                None
            },
    {
        if self.status == RelayStatus::Connected {
            Some(msg)
        } else {
            None
        }
    }
}

/// The views of a list of relays.
pub open spec fn relays_view(list: Seq<Relay>) -> Seq<RelayView> {
    list.map_values(|r: Relay| r@)
}

/// The addresses of a list of relays, in the list's order.
pub open spec fn relay_urls(list: Seq<RelayView>) -> Seq<Seq<char>> {
    list.map_values(|r: RelayView| r.url)
}

/// The state of the relay at `url`, if the list holds it.
pub open spec fn status_of(list: Seq<RelayView>, url: Seq<char>) -> Option<RelayStatus> {
    let urls = relay_urls(list);
    if urls.contains(url) {
        Some(list[urls.index_of(url)].status)
    } else {
        None
    }
}

/// The list with `relay` in it: in place of the relay of the same address
/// where there is one, else at the end.
pub open spec fn relays_with(list: Seq<RelayView>, relay: RelayView) -> Seq<RelayView> {
    let urls = relay_urls(list);
    if urls.contains(relay.url) {
        list.update(urls.index_of(relay.url), relay)
    } else {
        list.push(relay)
    }
}

/// The list without the relay at `url`.
pub open spec fn relays_without(list: Seq<RelayView>, url: Seq<char>) -> Seq<RelayView> {
    let urls = relay_urls(list);
    if urls.contains(url) {
        list.remove(urls.index_of(url))
    } else {
        list
    }
}

/// The list with the relay at `url`, if there is one, in state `status`.
pub open spec fn relays_with_status(list: Seq<RelayView>, url: Seq<char>, status: RelayStatus)
    -> Seq<RelayView> {
    if relay_urls(list).contains(url) {
        relays_with(list, RelayView { url, status })
    } else {
        list
    }
}

/// After a relay is put in, its address has that relay's state, the others
/// have the state they had, and no address occurs twice.
pub proof fn lemma_relays_with(list: Seq<RelayView>, relay: RelayView)
    requires
        relay_urls(list).no_duplicates(),
    ensures
        relay_urls(relays_with(list, relay)).no_duplicates(),
        status_of(relays_with(list, relay), relay.url) == Some(relay.status),
        forall|url: Seq<char>|
            url != relay.url ==> status_of(relays_with(list, relay), url) == status_of(list, url),
{
    let urls = relay_urls(list);
    let after = relays_with(list, relay);
    if urls.contains(relay.url) {
        assert(relay_urls(after) =~= urls);
    } else {
        assert(relay_urls(after) =~= urls.push(relay.url));
        lemma_push_new_key(urls, relay.url);
        lemma_index_of_unique(relay_urls(after), urls.len() as int);
        assert forall|url: Seq<char>| url != relay.url implies status_of(after, url) == status_of(
            list,
            url,
        ) by {
            if urls.contains(url) {
                let j = urls.index_of(url);
                lemma_index_of_unique(relay_urls(after), j);
            }
        }
    }
}

/// After a relay is taken out, its address has no state, the others have
/// the state they had, and no address occurs twice.
pub proof fn lemma_relays_without(list: Seq<RelayView>, gone: Seq<char>)
    requires
        relay_urls(list).no_duplicates(),
    ensures
        relay_urls(relays_without(list, gone)).no_duplicates(),
        status_of(relays_without(list, gone), gone).is_none(),
        forall|url: Seq<char>|
            url != gone ==> status_of(relays_without(list, gone), url) == status_of(list, url),
{
    let urls = relay_urls(list);
    let after = relays_without(list, gone);
    if urls.contains(gone) {
        let i = urls.index_of(gone);
        assert(relay_urls(after) =~= urls.remove(i));
        lemma_remove_key(urls, i);
        assert forall|url: Seq<char>| url != gone implies status_of(after, url) == status_of(
            list,
            url,
        ) by {
            if urls.contains(url) {
                let j = urls.index_of(url);
                let j1 = if j < i {
                    j
                } else {
                    j - 1
                };
                lemma_index_of_unique(relay_urls(after), j1);
            }
        }
    }
}

/// Copies a list of relays.
pub fn clone_relays(list: &Vec<Relay>) -> (copy: Vec<Relay>)
    ensures
        relays_view(copy@) == relays_view(list@),
{
    let mut copy: Vec<Relay> = Vec::new();
    let mut i: usize = 0;
    while i < list.len()
        invariant
            i <= list.len(),
            copy@.len() == i,
            forall|j: int| 0 <= j < i ==> copy@[j]@ == list@[j]@,
        decreases list.len() - i,
    {
        copy.push(list[i].clone());
        i += 1;
    }
    copy
}

/// Where the relay at `url` stands in the list, if it does.
pub fn position_of_relay(list: &Vec<Relay>, url: &String) -> (at: Option<usize>)
    ensures
        match at {
            Some(i) => i < list@.len() && relay_urls(relays_view(list@))[i as int] == url@,
            None => !relay_urls(relays_view(list@)).contains(url@),
        },
{
    let mut i: usize = 0;
    while i < list.len()
        invariant
            i <= list.len(),
            forall|j: int| 0 <= j < i ==> relay_urls(relays_view(list@))[j] != url@,
        decreases list.len() - i,
    {
        if list[i].url == *url {
            return Some(i);
        }
        i += 1;
    }
    None
}

} // verus!
