//! Signed events as plain values, what their tags say, and the order in
//! which a conversation shows them.

use nostr::event::{EventBuilder, FinalizeEvent, Kind, Signature, Tag};
use nostr::key::Keys;
use nostr::types::Timestamp;
use vstd::prelude::*;
use crate::lists::{clone_texts, texts};
use crate::keys::{
    bytes32_eq, hex_lower, key_bytes, parsed_public_key, PublicKey, SecretKey, User, UserView,
};

verus! {

/// Kind number of an encrypted direct message.
pub const KIND_ENCRYPTED_DIRECT_MESSAGE: u16 = 4;

/// An event's identifier: the 32-byte hash of its signed fields.
#[derive(Clone, Copy, Debug)]
pub struct EventId {
    pub bytes: [u8; 32],
}

impl View for EventId {
    type V = Seq<u8>;

    open spec fn view(&self) -> Seq<u8> {
        self.bytes@
    }
}

impl PartialEq for EventId {
    fn eq(&self, other: &Self) -> (same: bool) {
        bytes32_eq(&self.bytes, &other.bytes)
    }
}

impl Eq for EventId {

}

impl vstd::std_specs::cmp::PartialEqSpecImpl for EventId {
    open spec fn obeys_eq_spec() -> bool {
        true
    }

    open spec fn eq_spec(&self, other: &Self) -> bool {
        self@ == other@
    }
}

/// Byte strings of one length in dictionary order: the first byte that
/// differs decides.
pub open spec fn bytes_before(a: Seq<u8>, b: Seq<u8>) -> bool
    decreases a.len(),
{
    if a.len() == 0 || b.len() == 0 {
        false
    } else if a[0] != b[0] {
        a[0] < b[0]
    } else {
        bytes_before(a.drop_first(), b.drop_first())
    }
}

/// Dictionary order is transitive.
pub proof fn lemma_bytes_before_transitive(a: Seq<u8>, b: Seq<u8>, c: Seq<u8>)
    requires
        bytes_before(a, b),
        bytes_before(b, c),
    ensures
        bytes_before(a, c),
    decreases a.len(),
{
    if a[0] == b[0] && b[0] == c[0] {
        lemma_bytes_before_transitive(a.drop_first(), b.drop_first(), c.drop_first());
    }
}

/// Nothing comes before itself.
pub proof fn lemma_bytes_before_irreflexive(a: Seq<u8>)
    ensures
        !bytes_before(a, a),
    decreases a.len(),
{
    if a.len() > 0 {
        lemma_bytes_before_irreflexive(a.drop_first());
    }
}

/// Of two different byte strings of one length, one comes first.
pub proof fn lemma_bytes_before_total(a: Seq<u8>, b: Seq<u8>)
    requires
        a.len() == b.len(),
        a != b,
    ensures
        bytes_before(a, b) || bytes_before(b, a),
    decreases a.len(),
{
    if a.len() == 0 {
        assert(a =~= b);
    } else if a[0] == b[0] {
        if a.drop_first() == b.drop_first() {
            assert(a =~= seq![a[0]] + a.drop_first());
            assert(b =~= seq![b[0]] + b.drop_first());
        }
        lemma_bytes_before_total(a.drop_first(), b.drop_first());
    }
}

/// Dictionary order on two 32-byte strings.
pub fn bytes32_before(a: &[u8; 32], b: &[u8; 32]) -> (first: bool)
    ensures
        first == bytes_before(a@, b@),
{
    let mut i: usize = 0;
    assert(a@.skip(0) =~= a@ && b@.skip(0) =~= b@);
    while i < 32
        invariant
            i <= 32,
            a@.len() == 32,
            b@.len() == 32,
            bytes_before(a@, b@) == bytes_before(a@.skip(i as int), b@.skip(i as int)),
        decreases 32 - i,
    {
        proof {
            let x = a@.skip(i as int);
            let y = b@.skip(i as int);
            assert(x.drop_first() =~= a@.skip(i as int + 1));
            assert(y.drop_first() =~= b@.skip(i as int + 1));
        }
        if a[i] != b[i] {
            return a[i] < b[i];
        }
        i += 1;
    }
    false
}

/// An event as mathematical values.
pub struct EventView {
    pub id: Seq<u8>,
    pub pubkey: Seq<u8>,
    pub created_at: u64,
    pub kind: u16,
    pub tags: Seq<Seq<Seq<char>>>,
    pub content: Seq<char>,
    pub sig: Seq<u8>,
}

/// What the protocol library's check of an event's identifier and signature
/// returns for these field values.
pub uninterp spec fn signature_verifies(event: EventView) -> bool;

/// What the protocol library's direct-message decryption returns for a
/// secret key, the peer's public key and an event's content: the plaintext,
/// or nothing where it fails.
pub uninterp spec fn decrypted_content(secret: Seq<u8>, peer: Seq<u8>, content: Seq<char>)
    -> Option<Seq<char>>;

/// Name of the tag that carries a public key.
pub open spec fn p_tag_name() -> Seq<char> {
    seq!['p']
}

/// The tag is a public-key tag with a value.
pub open spec fn is_p_tag(tag: Seq<Seq<char>>) -> bool {
    tag.len() >= 2 && tag[0] == p_tag_name()
}

/// Value of the first public-key tag in the list.
pub open spec fn first_p_tag(tags: Seq<Seq<Seq<char>>>) -> Option<Seq<char>>
    decreases tags.len(),
{
    if tags.len() == 0 {
        None
    } else if is_p_tag(tags[0]) {
        Some(tags[0][1])
    } else {
        first_p_tag(tags.drop_first())
    }
}

impl EventView {
    /// No tag is empty.
    pub open spec fn tags_nonempty(self) -> bool {
        forall|i: int| 0 <= i < self.tags.len() ==> (#[trigger] self.tags[i]).len() > 0
    }

    /// The event is well shaped and its identifier and signature check.
    pub open spec fn valid(self) -> bool {
        self.tags_nonempty() && signature_verifies(self)
    }

    /// The key that the first public-key tag names.
    pub open spec fn tagged_key(self) -> Option<Seq<u8>> {
        match first_p_tag(self.tags) {
            Some(text) => parsed_public_key(text),
            None => None,
        }
    }

    /// Some public-key tag names `key`.
    pub open spec fn mentions(self, key: Seq<u8>) -> bool {
        exists|i: int|
            0 <= i < self.tags.len() && is_p_tag(#[trigger] self.tags[i]) && parsed_public_key(
                self.tags[i][1],
            ) == Some(key)
    }

    /// The event is written by `key` or names it in a tag.
    pub open spec fn involves(self, key: Seq<u8>) -> bool {
        self.pubkey == key || self.mentions(key)
    }

    /// Order of display: by time of creation, then by identifier.
    pub open spec fn before(self, other: EventView) -> bool {
        self.created_at < other.created_at || (self.created_at == other.created_at
            && bytes_before(self.id, other.id))
    }
}

/// The order of display is transitive.
pub proof fn lemma_before_transitive(a: EventView, b: EventView, c: EventView)
    requires
        a.before(b),
        b.before(c),
    ensures
        a.before(c),
{
    if a.created_at == b.created_at && b.created_at == c.created_at {
        lemma_bytes_before_transitive(a.id, b.id, c.id);
    }
}

/// Of two events with different identifiers of one length, one comes before
/// the other: the order of display leaves no two of them undecided.
pub proof fn lemma_before_total(a: EventView, b: EventView)
    requires
        a.id.len() == b.id.len(),
        a.id != b.id,
    ensures
        a.before(b) || b.before(a),
{
    lemma_bytes_before_total(a.id, b.id);
}

/// No event comes before itself, and of two events at most one comes before
/// the other.
pub proof fn lemma_before_asymmetric(a: EventView, b: EventView)
    ensures
        !(a.before(b) && b.before(a)),
{
    if a.before(b) && b.before(a) {
        lemma_bytes_before_transitive(a.id, b.id, a.id);
        lemma_bytes_before_irreflexive(a.id);
    }
}

/// A tag as text values.
pub open spec fn tag_view(tag: Vec<String>) -> Seq<Seq<char>> {
    texts(tag@)
}

/// A tag list as text values.
pub open spec fn tags_view(tags: Vec<Vec<String>>) -> Seq<Seq<Seq<char>>> {
    tags@.map_values(|t: Vec<String>| tag_view(t))
}

/// A signed event. Its identity is its `id`.
#[derive(Debug)]
pub struct Event {
    pub id: EventId,
    pub pubkey: PublicKey,
    pub created_at: u64,
    pub kind: u16,
    pub tags: Vec<Vec<String>>,
    pub content: String,
    pub sig: [u8; 64],
}

impl View for Event {
    type V = EventView;

    open spec fn view(&self) -> EventView {
        EventView {
            id: self.id@,
            pubkey: self.pubkey@,
            created_at: self.created_at,
            kind: self.kind,
            tags: tags_view(self.tags),
            content: self.content@,
            sig: self.sig@,
        }
    }
}

/// The views of a list of events.
pub open spec fn events_view(events: Seq<Event>) -> Seq<EventView> {
    events.map_values(|e: Event| e@)
}

/// Copies a tag list.
pub fn clone_tags(tags: &Vec<Vec<String>>) -> (copy: Vec<Vec<String>>)
    ensures
        tags_view(copy) == tags_view(*tags),
{
    let mut copy: Vec<Vec<String>> = Vec::new();
    let mut i: usize = 0;
    while i < tags.len()
        invariant
            i <= tags.len(),
            copy@.len() == i,
            forall|j: int| 0 <= j < i ==> tag_view(copy@[j]) == tag_view(tags@[j]),
        decreases tags.len() - i,
    {
        copy.push(clone_texts(&tags[i]));
        i += 1;
    }
    copy
}

impl Clone for Event {
    fn clone(&self) -> (copy: Self)
        ensures
            copy@ == self@,
    {
        Event {
            id: self.id,
            pubkey: self.pubkey,
            created_at: self.created_at,
            kind: self.kind,
            tags: clone_tags(&self.tags),
            content: self.content.clone(),
            sig: self.sig,
        }
    }
}

/// `nostr::event::Event::verify` on the event with these field values: both
/// the identifier and the signature are checked. The result is named.
#[verifier::external_body]
fn checks_out(event: &Event) -> (ok: bool)
    requires
        event@.tags_nonempty(),
    ensures
        ok == signature_verifies(event@),
{
    nostr::event::Event::new(
        nostr::event::EventId::from_byte_array(event.id.bytes),
        nostr::key::PublicKey::from_byte_array(event.pubkey.bytes),
        Timestamp::from_secs(event.created_at),
        Kind::from_u16(event.kind),
        event.tags.iter().map(|t| Tag::parse(t.clone()).unwrap()),
        event.content.clone(),
        Signature::from_byte_array(event.sig),
    ).verify().is_ok()
}

/// `nostr::nips::nip04::decrypt` with the user's secret key and the peer's
/// public key. Bytes that are no secret key give nothing. The result is
/// named.
#[verifier::external_body]
fn nip04_decrypt(secret: &SecretKey, peer: &PublicKey, content: &str) -> (plain: Option<String>)
    ensures
        match plain {
            Some(text) => decrypted_content(secret@, peer@, content@) == Some(text@),
            None => decrypted_content(secret@, peer@, content@).is_none(),
        },
{
    let secret = nostr::key::SecretKey::from_slice(&secret.bytes).ok()?;
    let peer = nostr::key::PublicKey::from_byte_array(peer.bytes);
    nostr::nips::nip04::decrypt(&secret, &peer, content).ok()
}

/// `nostr::nips::nip04::encrypt` with a random initialisation vector. Bytes
/// that are no secret key give nothing. Nothing is promised of the text.
#[verifier::external_body]
fn nip04_encrypt(secret: &SecretKey, peer: &PublicKey, plain: &str) -> (content: Option<String>) {
    let secret = nostr::key::SecretKey::from_slice(&secret.bytes).ok()?;
    let peer = nostr::key::PublicKey::from_byte_array(peer.bytes);
    nostr::nips::nip04::encrypt(&secret, &peer, plain).ok()
}

/// `nostr::event::EventBuilder` finalised with the keys of `secret`: an
/// event of the given kind, tags and content, stamped with the current time
/// and signed with fresh randomness. Its time, identifier and signature are
/// handed back; nothing is promised of them.
#[verifier::external_body]
fn sign_event(secret: &SecretKey, kind: u16, tags: &Vec<Vec<String>>, content: &str) -> (signed:
    Option<(u64, EventId, [u8; 64])>)
    requires
        forall|i: int| 0 <= i < tags@.len() ==> (#[trigger] tags@[i])@.len() > 0,
{
    let keys = Keys::new(nostr::key::SecretKey::from_slice(&secret.bytes).ok()?);
    let tags = tags.iter().map(|t| Tag::parse(t.clone()).unwrap());
    let e = EventBuilder::new(Kind::from_u16(kind), content).tags(tags).finalize(&keys).ok()?;
    Some((e.created_at.as_secs(), EventId { bytes: e.id.to_bytes() }, e.sig.to_bytes()))
}

/// The plain text of a direct message's content, for the user's secret key
/// and the peer's public key.
pub fn decrypt(secret: &SecretKey, peer: &PublicKey, content: &str) -> (plain: Option<String>)
    ensures
        match plain {
            Some(text) => decrypted_content(secret@, peer@, content@) == Some(text@),
            None => decrypted_content(secret@, peer@, content@).is_none(),
        },
{
    nip04_decrypt(secret, peer, content)
}

fn is_p_tag_exec(tag: &Vec<String>) -> (yes: bool)
    ensures
        yes == is_p_tag(tag_view(*tag)),
{
    if tag.len() < 2 {
        return false;
    }
    let name: String = "p".to_owned();
    proof {
        reveal_strlit("p");
        assert(name@ =~= p_tag_name());
    }
    tag[0] == name
}

impl Event {
    /// Puts an event together from its parts.
    pub fn new(
        id: EventId,
        pubkey: PublicKey,
        created_at: u64,
        kind: u16,
        tags: Vec<Vec<String>>,
        content: String,
        sig: [u8; 64],
    ) -> (event: Event)
        ensures
            event@ == (EventView {
                id: id@,
                pubkey: pubkey@,
                created_at,
                kind,
                tags: tags_view(tags),
                content: content@,
                sig: sig@,
            }),
    {
        Event { id, pubkey, created_at, kind, tags, content, sig }
    }

    /// An encrypted direct message from `user` to `peer`: an event of the
    /// direct-message kind that the user signed, tagged with the peer's key
    /// in hexadecimal, whose content decrypts to `content`. What encryption
    /// and signature give is put together by `checked_direct_message`, and
    /// nothing is handed out that fails a check there.
    pub fn new_encrypted_direct_msg(user: &User, peer: &PublicKey, content: &str) -> (event:
        Option<Event>)
        ensures
            event.is_some() ==> {
                let e = event.unwrap()@;
                &&& e.valid()
                &&& e.pubkey == user@.public_key
                &&& e.kind == KIND_ENCRYPTED_DIRECT_MESSAGE
                &&& e.tags == seq![seq![p_tag_name(), hex_lower(peer@)]]
                &&& e.tagged_key() == Some(peer@)
                &&& decrypted_content(user@.secret_key, peer@, e.content) == Some(content@)
            },
    {
        let secret = user.get_sk();
        let encrypted = match nip04_encrypt(&secret, peer, content) {
            Some(text) => text,
            None => {
                return None;
            },
        };
        let tags = Event::direct_message_tags(peer);
        let (created_at, id, sig) = match sign_event(
            &secret,
            KIND_ENCRYPTED_DIRECT_MESSAGE,
            &tags,
            encrypted.as_str(),
        ) {
            Some(signed) => signed,
            None => {
                return None;
            },
        };
        let event = Event::checked_direct_message(
            user,
            peer,
            content,
            encrypted,
            created_at,
            id,
            sig,
        );
        proof {
            if event.is_some() {
                let e = event.unwrap()@;
                assert(is_p_tag(e.tags[0]));
                assert(first_p_tag(e.tags) == Some(hex_lower(peer@)));
            }
        }
        event
    }

    /// The tags of a direct message to `peer`: one public-key tag with the
    /// key in hexadecimal.
    pub fn direct_message_tags(peer: &PublicKey) -> (tags: Vec<Vec<String>>)
        ensures
            tags_view(tags) == direct_message_tags(peer@),
            forall|i: int| 0 <= i < tags@.len() ==> (#[trigger] tags@[i])@.len() > 0,
    {
        let name: String = "p".to_owned();
        proof {
            reveal_strlit("p");
            assert(name@ =~= p_tag_name());
        }
        let mut tag: Vec<String> = Vec::new();
        tag.push(name);
        tag.push(peer.to_hex());
        let mut tags: Vec<Vec<String>> = Vec::new();
        tags.push(tag);
        proof {
            assert(tag_view(tags@[0]) =~= seq![p_tag_name(), hex_lower(peer@)]);
            assert(tags_view(tags) =~= direct_message_tags(peer@));
        }
        tags
    }

    /// Puts a direct message from `user` to `peer` together from what
    /// encryption and signature gave, and hands it out exactly if it stands
    /// the checks: the encrypted text decrypts to `content`, the tag's text
    /// reads as the peer's key, and the event is valid.
    pub fn checked_direct_message(
        user: &User,
        peer: &PublicKey,
        content: &str,
        encrypted: String,
        created_at: u64,
        id: EventId,
        sig: [u8; 64],
    ) -> (event: Option<Event>)
        ensures
            match event {
                Some(e) => e@ == direct_message(user@, peer@, encrypted@, created_at, id@, sig@)
                    && direct_message_stands(user@, peer@, content@, e@),
                None => !direct_message_stands(
                    user@,
                    peer@,
                    content@,
                    direct_message(user@, peer@, encrypted@, created_at, id@, sig@),
                ),
            },
    {
        let secret = user.get_sk();
        match decrypt(&secret, peer, encrypted.as_str()) {
            Some(plain) => {
                if plain != content.to_owned() {
                    return None;
                }
            },
            None => {
                return None;
            },
        }
        match PublicKey::parse(peer.to_hex().as_str()) {
            Some(named) => {
                if named != *peer {
                    return None;
                }
            },
            None => {
                return None;
            },
        }
        let event = Event {
            id,
            pubkey: user.get_pk(),
            created_at,
            kind: KIND_ENCRYPTED_DIRECT_MESSAGE,
            tags: Event::direct_message_tags(peer),
            content: encrypted,
            sig,
        };
        if event.verify() {
            Some(event)
        } else {
            None
        }
    }

    pub fn tags_nonempty(&self) -> (yes: bool)
        ensures
            yes == self@.tags_nonempty(),
    {
        let mut i: usize = 0;
        while i < self.tags.len()
            invariant
                i <= self.tags.len(),
                forall|j: int| 0 <= j < i ==> (#[trigger] self@.tags[j]).len() > 0,
            decreases self.tags.len() - i,
        {
            if self.tags[i].len() == 0 {
                assert(self@.tags[i as int].len() == 0);
                return false;
            }
            i += 1;
        }
        true
    }

    /// Tells whether the event is one that its author signed: no tag is
    /// empty, the identifier is the hash of the signed fields, and the
    /// signature over it is the author's.
    pub fn verify(&self) -> (ok: bool)
        ensures
            ok == self@.valid(),
    {
        self.tags_nonempty() && checks_out(self)
    }

    /// The key named by the first public-key tag, where there is such a tag
    /// and its value reads as a key.
    pub fn tagged_key(&self) -> (key: Option<PublicKey>)
        ensures
            key_bytes(key) == self@.tagged_key(),
    {
        let mut i: usize = 0;
        assert(self@.tags.skip(0) =~= self@.tags);
        while i < self.tags.len()
            invariant
                i <= self.tags.len(),
                first_p_tag(self@.tags) == first_p_tag(self@.tags.skip(i as int)),
            decreases self.tags.len() - i,
        {
            proof {
                let rest = self@.tags.skip(i as int);
                assert(rest.drop_first() =~= self@.tags.skip(i as int + 1));
            }
            if is_p_tag_exec(&self.tags[i]) {
                return PublicKey::parse(self.tags[i][1].as_str());
            }
            i += 1;
        }
        None
    }

    /// Tells whether some public-key tag names `key`.
    pub fn mentions(&self, key: &PublicKey) -> (yes: bool)
        ensures
            yes == self@.mentions(key@),
    {
        let mut i: usize = 0;
        while i < self.tags.len()
            invariant
                i <= self.tags.len(),
                forall|j: int|
                    0 <= j < i ==> !(is_p_tag(#[trigger] self@.tags[j]) && parsed_public_key(
                        self@.tags[j][1],
                    ) == Some(key@)),
            decreases self.tags.len() - i,
        {
            if is_p_tag_exec(&self.tags[i]) {
                if let Some(named) = PublicKey::parse(self.tags[i][1].as_str()) {
                    if named == *key {
                        assert(is_p_tag(self@.tags[i as int]));
                        return true;
                    }
                }
            }
            i += 1;
        }
        false
    }

    /// Tells whether the event is written by `key` or names it in a tag.
    pub fn involves(&self, key: &PublicKey) -> (yes: bool)
        ensures
            yes == self@.involves(key@),
    {
        self.pubkey == *key || self.mentions(key)
    }

    /// Order of display: by time of creation, then by identifier.
    pub fn before(&self, other: &Event) -> (first: bool)
        ensures
            first == self@.before(other@),
    {
        self.created_at < other.created_at || (self.created_at == other.created_at
            && crate::event::bytes32_before(&self.id.bytes, &other.id.bytes))
    }
}

/// The tags of a direct message to `peer`: one public-key tag with the key
/// in hexadecimal.
pub open spec fn direct_message_tags(peer: Seq<u8>) -> Seq<Seq<Seq<char>>> {
    seq![seq![p_tag_name(), hex_lower(peer)]]
}

/// The direct message from `user` to `peer` with the given encrypted
/// content, time, identifier and signature.
pub open spec fn direct_message(
    user: UserView,
    peer: Seq<u8>,
    encrypted: Seq<char>,
    created_at: u64,
    id: Seq<u8>,
    sig: Seq<u8>,
) -> EventView {
    EventView {
        id,
        pubkey: user.public_key,
        created_at,
        kind: KIND_ENCRYPTED_DIRECT_MESSAGE,
        tags: direct_message_tags(peer),
        content: encrypted,
        sig,
    }
}

/// The event stands as a direct message with `content` from `user` to
/// `peer`: its content decrypts to `content`, the text of its tag reads as
/// the peer's key, and it is valid.
pub open spec fn direct_message_stands(
    user: UserView,
    peer: Seq<u8>,
    content: Seq<char>,
    event: EventView,
) -> bool {
    &&& decrypted_content(user.secret_key, peer, event.content) == Some(content)
    &&& parsed_public_key(hex_lower(peer)) == Some(peer)
    &&& event.valid()
}

} // verus!
